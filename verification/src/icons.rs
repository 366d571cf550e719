use vstd::prelude::*;
use crate::parser::{ParseError, Stmt, StmtView};

verus! {

/// Whether a pattern is a valid regular expression: the result of compiling
/// it, which depends on the pattern text alone.
pub uninterp spec fn regex_ok(pattern: Seq<char>) -> bool;

/// Whether a compiled regular expression matches somewhere in a text: the
/// result of running it, which depends on the pattern and the text alone.
pub uninterp spec fn regex_accepts(pattern: Seq<char>, text: Seq<char>) -> bool;

/// A pattern anchored at both ends and wrapped in a non-capturing group, so
/// that it must match the whole string even when it holds a top-level
/// alternation.
pub open spec fn anchored(pattern: Seq<char>) -> Seq<char> {
    "^(?:"@ + pattern + ")$"@
}

/// How an icon rule matches: its pattern, anchored at both ends, accepts the
/// whole candidate string; a pattern that does not compile matches nothing.
pub open spec fn rule_matches(pattern: Seq<char>, text: Seq<char>) -> bool {
    if regex_ok(anchored(pattern)) {
        regex_accepts(anchored(pattern), text)
    } else {
        false
    }
}

/// Relies on regex::Regex::new: it returns Ok exactly when the pattern text
/// is a valid regular expression, which depends on that text alone.
#[verifier::external_body]
fn regex_compiles(pattern: &str) -> (r: bool)
    ensures
        r == regex_ok(pattern@),
{
    regex::Regex::new(pattern).is_ok()
}

/// Relies on regex::Regex::new and regex::Regex::is_match: on a pattern that
/// compiles, whether the compiled expression matches somewhere in the text
/// is a function of the pattern and the text alone; a pattern that does not
/// compile matches nothing here.
#[verifier::external_body]
fn regex_is_match(pattern: &str, text: &str) -> (r: bool)
    ensures
        r == (if regex_ok(pattern@) {
            regex_accepts(pattern@, text@)
        } else {
            false
        }),
{
    match regex::Regex::new(pattern) {
        Ok(re) => re.is_match(text),
        Err(_) => false,
    }
}

/// The pattern with the anchors and the group added.
fn anchor(pattern: &str) -> (r: String)
    ensures
        r@ == anchored(pattern@),
{
    let mut s = String::from_str("^(?:");
    s.append(pattern);
    s.append(")$");
    proof {
        assert(s@ =~= anchored(pattern@));
    }
    s
}

pub open spec fn opt_view(o: Option<String>) -> Option<Seq<char>> {
    match o {
        Some(s) => Some(s@),
        None => None,
    }
}

/// The mathematical content of an icon rule: the glyph shown, the raw (not
/// yet anchored) pattern, the optional colors and the reversed flag.
pub struct IconView {
    pub glyph: char,
    pub pattern: Seq<char>,
    pub color: Option<Seq<char>>,
    pub fcolor: Option<Seq<char>>,
    pub reversed: bool,
}

/// One icon rule: a glyph with its match pattern, optional normal and
/// focused colors, and a flag that swaps the two when rendering.
pub struct Icon {
    icon: char,
    pattern: String,
    color: Option<String>,
    fcolor: Option<String>,
    reversed: bool,
}

impl View for Icon {
    type V = IconView;

    closed spec fn view(&self) -> IconView {
        IconView {
            glyph: self.icon,
            pattern: self.pattern@,
            color: opt_view(self.color),
            fcolor: opt_view(self.fcolor),
            reversed: self.reversed,
        }
    }
}

impl Icon {
    /// Build a rule, compiling its pattern anchored at both ends; a pattern
    /// that is not a valid regular expression is rejected.
    pub fn new(
        icon: char,
        regex: &str,
        color: Option<String>,
        fcolor: Option<String>,
        reversed: bool,
    ) -> (r: Result<Self, ParseError>)
        ensures
            r is Ok <==> regex_ok(anchored(regex@)),
            r is Ok ==> r.unwrap()@ == (IconView {
                glyph: icon,
                pattern: regex@,
                color: opt_view(color),
                fcolor: opt_view(fcolor),
                reversed,
            }),
    {
        let a = anchor(regex);
        if regex_compiles(a.as_str()) {
            Ok(Icon { icon, pattern: String::from_str(regex), color, fcolor, reversed })
        } else {
            Err(ParseError)
        }
    }

    /// Whether this rule's anchored pattern accepts the whole string.
    pub fn matches(&self, str: &str) -> (b: bool)
        ensures
            b == rule_matches(self@.pattern, str@),
    {
        let a = anchor(self.pattern.as_str());
        regex_is_match(a.as_str(), str)
    }

    /// The single-character marker for the reversed flag.
    pub fn reversed_class(&self) -> (c: char)
        ensures
            c == (if self@.reversed {
                'r'
            } else {
                ' '
            }),
    {
        if self.reversed {
            return 'r';
        }
        ' '
    }

    pub fn get_glyph(&self) -> (c: char)
        ensures
            c == self@.glyph,
    {
        self.icon
    }

    pub fn get_color(&self) -> (c: &Option<String>)
        ensures
            opt_view(*c) == self@.color,
    {
        &self.color
    }

    pub fn get_fcolor(&self) -> (c: &Option<String>)
        ensures
            opt_view(*c) == self@.fcolor,
    {
        &self.fcolor
    }
}

/// The mathematical content of a whole rule table.
pub struct TableView {
    pub empty: IconView,
    pub dflt: IconView,
    pub rules: Seq<StmtView>,
    pub before: Seq<char>,
    pub fmt: Seq<char>,
    pub after: Seq<char>,
}

/// The compiled rule table: the ordered icon rules, the default and empty
/// icons, and the three render templates. Replaced wholesale on each
/// successful configuration reload.
pub struct Icons {
    empty: Icon,
    default_icon: Icon,
    icons: Vec<Stmt>,
    before: String,
    fmt: String,
    after: String,
}

impl View for Icons {
    type V = TableView;

    closed spec fn view(&self) -> TableView {
        TableView {
            empty: self.empty@,
            dflt: self.default_icon@,
            rules: Seq::new(self.icons@.len(), |i: int| self.icons@[i]@),
            before: self.before@,
            fmt: self.fmt@,
            after: self.after@,
        }
    }
}

/// Which rule a class/title pair selects: rules are tried in declaration
/// order, a class rule against the class, a title rule against the title,
/// and the first that matches wins; other statements select nothing.
pub open spec fn first_match(rules: Seq<StmtView>, class: Seq<char>, title: Seq<char>) -> Option<
    IconView,
>
    decreases rules.len(),
{
    if rules.len() == 0 {
        None
    } else {
        match rules[0] {
            StmtView::Class(ic) => if rule_matches(ic.pattern, class) {
                Some(ic)
            } else {
                first_match(rules.drop_first(), class, title)
            },
            StmtView::Title(ic) => if rule_matches(ic.pattern, title) {
                Some(ic)
            } else {
                first_match(rules.drop_first(), class, title)
            },
            _ => first_match(rules.drop_first(), class, title),
        }
    }
}

/// Whether one statement's rule matches the class/title pair: a class rule
/// is tried against the class, a title rule against the title, and any
/// other statement matches nothing.
pub open spec fn stmt_matches(s: StmtView, class: Seq<char>, title: Seq<char>) -> bool {
    match s {
        StmtView::Class(ic) => rule_matches(ic.pattern, class),
        StmtView::Title(ic) => rule_matches(ic.pattern, title),
        _ => false,
    }
}

/// The icon a class or title rule carries.
pub open spec fn stmt_icon(s: StmtView) -> IconView {
    match s {
        StmtView::Class(ic) => ic,
        StmtView::Title(ic) => ic,
        _ => arbitrary(),
    }
}

/// First match wins: when the rule at position `i` matches and no earlier
/// rule does, resolution returns exactly that rule's icon, whatever stands
/// after it.
pub proof fn lemma_first_match_wins(
    rules: Seq<StmtView>,
    class: Seq<char>,
    title: Seq<char>,
    i: int,
)
    requires
        0 <= i < rules.len(),
        stmt_matches(rules[i], class, title),
        forall|k: int| 0 <= k < i ==> !stmt_matches(rules[k], class, title),
    ensures
        first_match(rules, class, title) == Some(stmt_icon(rules[i])),
    decreases rules.len(),
{
    if i == 0 {
    } else {
        assert(!stmt_matches(rules[0], class, title));
        assert(rules.drop_first()[i - 1] == rules[i]);
        assert(forall|k: int|
            0 <= k < i - 1 ==> rules.drop_first()[k] == rules[k + 1] && !stmt_matches(
                rules.drop_first()[k],
                class,
                title,
            ));
        lemma_first_match_wins(rules.drop_first(), class, title, i - 1);
    }
}

/// When no rule matches, resolution returns nothing, and the caller falls
/// back to the default icon.
pub proof fn lemma_no_rule_matches(rules: Seq<StmtView>, class: Seq<char>, title: Seq<char>)
    requires
        forall|k: int| 0 <= k < rules.len() ==> !stmt_matches(rules[k], class, title),
    ensures
        first_match(rules, class, title) is None,
    decreases rules.len(),
{
    if rules.len() > 0 {
        assert(!stmt_matches(rules[0], class, title));
        assert(forall|k: int|
            0 <= k < rules.drop_first().len() ==> rules.drop_first()[k] == rules[k + 1]
                && !stmt_matches(rules.drop_first()[k], class, title));
        lemma_no_rule_matches(rules.drop_first(), class, title);
    }
}

/// The built-in table before any configuration is read.
pub open spec fn default_table() -> TableView {
    TableView {
        empty: IconView {
            glyph: '\u{f111}',
            pattern: " "@,
            color: Some("#000"@),
            fcolor: Some("#000"@),
            reversed: false,
        },
        dflt: IconView {
            glyph: '\u{f29f}',
            pattern: " "@,
            color: Some("#000"@),
            fcolor: Some("#000"@),
            reversed: false,
        },
        rules: Seq::empty(),
        before: "["@,
        fmt: " {icon} "@,
        after: "]"@,
    }
}

impl Icons {
    pub fn new() -> (r: Self)
        ensures
            r@ == default_table(),
    {
        let r = Icons {
            empty: Icon {
                icon: '\u{f111}',
                pattern: String::from_str(" "),
                color: Some(String::from_str("#000")),
                fcolor: Some(String::from_str("#000")),
                reversed: false,
            },
            default_icon: Icon {
                icon: '\u{f29f}',
                pattern: String::from_str(" "),
                color: Some(String::from_str("#000")),
                fcolor: Some(String::from_str("#000")),
                reversed: false,
            },
            icons: Vec::new(),
            before: String::from_str("["),
            fmt: String::from_str(" {icon} "),
            after: String::from_str("]"),
        };
        proof {
            assert(r@.rules =~= default_table().rules);
        }
        r
    }

    /// Append one class or title rule; later rules lose to earlier ones.
    pub fn set_icon(&mut self, icon_stmt: Stmt)
        ensures
            final(self)@ == (TableView {
                rules: old(self)@.rules.push(icon_stmt@),
                ..old(self)@
            }),
    {
        self.icons.push(icon_stmt);
        proof {
            assert(self@.rules =~= old(self)@.rules.push(icon_stmt@));
        }
    }

    pub fn set_default(&mut self, icon: Icon)
        ensures
            final(self)@ == (TableView { dflt: icon@, ..old(self)@ }),
    {
        self.default_icon = icon;
    }

    pub fn set_empty(&mut self, icon: Icon)
        ensures
            final(self)@ == (TableView { empty: icon@, ..old(self)@ }),
    {
        self.empty = icon;
    }

    pub fn set_before(&mut self, s: String)
        ensures
            final(self)@ == (TableView { before: s@, ..old(self)@ }),
    {
        self.before = s;
    }

    pub fn set_fmt(&mut self, s: String)
        ensures
            final(self)@ == (TableView { fmt: s@, ..old(self)@ }),
    {
        self.fmt = s;
    }

    pub fn set_after(&mut self, s: String)
        ensures
            final(self)@ == (TableView { after: s@, ..old(self)@ }),
    {
        self.after = s;
    }

    /// The rule the class/title pair selects, first match winning, or
    /// nothing when no rule matches.
    pub fn get_icon(&self, class: &str, title: &str) -> (r: Option<&Icon>)
        ensures
            match r {
                Some(ic) => first_match(self@.rules, class@, title@) == Some(ic@),
                None => first_match(self@.rules, class@, title@) is None,
            },
    {
        let ghost rules = self@.rules;
        proof {
            assert(rules.skip(0) =~= rules);
        }
        let mut i: usize = 0;
        while i < self.icons.len()
            invariant
                rules == self@.rules,
                rules.len() == self.icons@.len(),
                forall|k: int| 0 <= k < rules.len() ==> rules[k] == self.icons@[k]@,
                i <= rules.len(),
                first_match(rules, class@, title@) == first_match(
                    rules.skip(i as int),
                    class@,
                    title@,
                ),
            decreases rules.len() - i,
        {
            proof {
                assert(rules.skip(i as int)[0] == rules[i as int]);
                assert(rules.skip(i as int).drop_first() =~= rules.skip(i as int + 1));
            }
            match &self.icons[i] {
                Stmt::Class(ic) => {
                    if ic.matches(class) {
                        return Some(ic);
                    }
                },
                Stmt::Title(ic) => {
                    if ic.matches(title) {
                        return Some(ic);
                    }
                },
                _ => {},
            }
            i = i + 1;
        }
        proof {
            assert(rules.skip(i as int) =~= Seq::<StmtView>::empty());
        }
        None
    }

    pub fn get_default(&self) -> (r: &Icon)
        ensures
            r@ == self@.dflt,
    {
        &self.default_icon
    }

    pub fn get_empty(&self) -> (r: &Icon)
        ensures
            r@ == self@.empty,
    {
        &self.empty
    }

    pub fn get_before(&self) -> (r: &str)
        ensures
            r@ == self@.before,
    {
        self.before.as_str()
    }

    pub fn get_fmt(&self) -> (r: &str)
        ensures
            r@ == self@.fmt,
    {
        self.fmt.as_str()
    }

    pub fn get_after(&self) -> (r: &str)
        ensures
            r@ == self@.after,
    {
        self.after.as_str()
    }
}

} // verus!
