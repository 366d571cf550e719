use vstd::prelude::*;
use crate::icons::{anchored, regex_ok, Icon, IconView};
use crate::text::{find_char, is_space, lemma_find_char};

verus! {

/// The single parse error: a line the config language does not accept, or a
/// rule whose pattern is not a valid regular expression.
#[derive(Debug)]
pub struct ParseError;

/// One statement of the configuration language, as parsed from one line.
pub enum Stmt {
    /// An icon rule matched against a window's class.
    Class(Icon),
    /// An icon rule matched against a window's title.
    Title(Icon),
    /// The icon used when no rule matches an occupied desktop.
    DefaultIcon(Icon),
    /// The icon used for a desktop with no window.
    EmptyIcon(Icon),
    /// The template emitted before the per-desktop segments.
    FmtBefore(String),
    /// The per-desktop template.
    Fmt(String),
    /// The template emitted after the per-desktop segments.
    FmtAfter(String),
    /// An empty or comment-only line.
    Blank,
}

/// The mathematical content of a statement.
pub enum StmtView {
    Class(IconView),
    Title(IconView),
    DefaultIcon(IconView),
    EmptyIcon(IconView),
    FmtBefore(Seq<char>),
    Fmt(Seq<char>),
    FmtAfter(Seq<char>),
    Blank,
}

impl View for Stmt {
    type V = StmtView;

    open spec fn view(&self) -> StmtView {
        match self {
            Stmt::Class(i) => StmtView::Class(i@),
            Stmt::Title(i) => StmtView::Title(i@),
            Stmt::DefaultIcon(i) => StmtView::DefaultIcon(i@),
            Stmt::EmptyIcon(i) => StmtView::EmptyIcon(i@),
            Stmt::FmtBefore(s) => StmtView::FmtBefore(s@),
            Stmt::Fmt(s) => StmtView::Fmt(s@),
            Stmt::FmtAfter(s) => StmtView::FmtAfter(s@),
            Stmt::Blank => StmtView::Blank,
        }
    }
}

/// One token of a configuration line.
pub enum Token {
    Class,
    Title,
    Str(String),
    Glyph(char),
    DefaultKw,
    EmptyKw,
    Reversed,
    Before,
    Fmt,
    After,
    ColorLit(String),
    NormalColor,
    FocusedColor,
    End,
}

/// The mathematical content of a token.
pub enum TokView {
    Class,
    Title,
    Str(Seq<char>),
    Glyph(char),
    DefaultKw,
    EmptyKw,
    Reversed,
    Before,
    Fmt,
    After,
    ColorLit(Seq<char>),
    NormalColor,
    FocusedColor,
    End,
}

impl View for Token {
    type V = TokView;

    open spec fn view(&self) -> TokView {
        match self {
            Token::Class => TokView::Class,
            Token::Title => TokView::Title,
            Token::Str(s) => TokView::Str(s@),
            Token::Glyph(c) => TokView::Glyph(*c),
            Token::DefaultKw => TokView::DefaultKw,
            Token::EmptyKw => TokView::EmptyKw,
            Token::Reversed => TokView::Reversed,
            Token::Before => TokView::Before,
            Token::Fmt => TokView::Fmt,
            Token::After => TokView::After,
            Token::ColorLit(s) => TokView::ColorLit(s@),
            Token::NormalColor => TokView::NormalColor,
            Token::FocusedColor => TokView::FocusedColor,
            Token::End => TokView::End,
        }
    }
}

/// The first position at or after `i` holding a non-whitespace character,
/// or the starting position itself once it leaves the text.
pub open spec fn nns(s: Seq<char>, i: int) -> int
    decreases s.len() - i,
{
    if !(0 <= i < s.len()) {
        i
    } else if is_space(s[i]) {
        nns(s, i + 1)
    } else {
        i
    }
}

pub proof fn lemma_nns(s: Seq<char>, i: int)
    requires
        0 <= i <= s.len(),
    ensures
        i <= nns(s, i) <= s.len(),
        nns(s, i) < s.len() ==> !is_space(s[nns(s, i)]),
        nns(s, nns(s, i)) == nns(s, i),
    decreases s.len() - i,
{
    if i < s.len() && is_space(s[i]) {
        lemma_nns(s, i + 1);
    }
}

/// A color literal scanned from `i`: every character up to the next
/// whitespace, the terminating whitespace consumed.
pub open spec fn scan_color(s: Seq<char>, i: int) -> (Seq<char>, int)
    decreases s.len() - i,
{
    if !(0 <= i < s.len()) {
        (Seq::empty(), i)
    } else if is_space(s[i]) {
        (Seq::empty(), i + 1)
    } else {
        let r = scan_color(s, i + 1);
        (seq![s[i]] + r.0, r.1)
    }
}

/// A quoted string scanned from `i`, where `esc` says whether the previous
/// character was an escaping backslash: a backslash escapes exactly the one
/// character after it (the quote and the backslash included), and an
/// unescaped quote ends the scan, consuming the quote. An unterminated
/// string simply runs to the end of the line.
pub open spec fn scan_string(s: Seq<char>, i: int, esc: bool) -> (Seq<char>, int)
    decreases s.len() - i,
{
    if !(0 <= i < s.len()) {
        (Seq::empty(), i)
    } else {
        let c = s[i];
        if esc {
            let r = scan_string(s, i + 1, false);
            (seq![c] + r.0, r.1)
        } else if c == '\\' {
            scan_string(s, i + 1, true)
        } else if c == '"' {
            (Seq::empty(), i + 1)
        } else {
            let r = scan_string(s, i + 1, false);
            (seq![c] + r.0, r.1)
        }
    }
}

/// An identifier scanned from `i`: every character up to the next
/// whitespace, which is not consumed.
pub open spec fn scan_ident(s: Seq<char>, i: int) -> (Seq<char>, int)
    decreases s.len() - i,
{
    if !(0 <= i < s.len()) {
        (Seq::empty(), i)
    } else if is_space(s[i]) {
        (Seq::empty(), i)
    } else {
        let r = scan_ident(s, i + 1);
        (seq![s[i]] + r.0, r.1)
    }
}

/// The keyword token an identifier stands for, if any.
pub open spec fn kw_of(w: Seq<char>) -> Option<TokView> {
    if w == "default"@ {
        Some(TokView::DefaultKw)
    } else if w == "empty"@ {
        Some(TokView::EmptyKw)
    } else if w == "title"@ {
        Some(TokView::Title)
    } else if w == "class"@ {
        Some(TokView::Class)
    } else if w == "reversed"@ {
        Some(TokView::Reversed)
    } else if w == "before_fmt"@ {
        Some(TokView::Before)
    } else if w == "fmt"@ {
        Some(TokView::Fmt)
    } else if w == "after_fmt"@ {
        Some(TokView::After)
    } else if w == "color"@ {
        Some(TokView::NormalColor)
    } else if w == "focused_color"@ {
        Some(TokView::FocusedColor)
    } else {
        None
    }
}

/// The position just past a comment that starts at `i`: everything to the
/// end of the line (or to a line break, were one embedded in the text) is
/// skipped.
pub open spec fn skip_comment_to(s: Seq<char>, i: int) -> int {
    let k = find_char(s, i + 1, '\n');
    if k < s.len() {
        k + 1
    } else {
        s.len() as int
    }
}

/// The next token of the line starting at position `i`, with the position
/// just past it: whitespace is skipped, a doubled marker starts a comment
/// running to the end of the line, a quote starts a string, a single marker
/// starts a color, an ASCII run must be a keyword (anything else is the one
/// lexical error), and any non-ASCII character is a glyph of its own.
pub open spec fn tok_at(s: Seq<char>, i: int) -> Option<(TokView, int)>
    decreases s.len() + 2 - i,
    via tok_at_dec
{
    let j = nns(s, i);
    if !(0 <= j < s.len()) {
        Some((TokView::End, j))
    } else {
        let c = s[j];
        if c == '#' && j + 1 < s.len() && s[j + 1] == '#' {
            tok_at(s, skip_comment_to(s, j))
        } else if c == '"' {
            let r = scan_string(s, j + 1, false);
            Some((TokView::Str(r.0), r.1))
        } else if c == '#' {
            let r = scan_color(s, j);
            Some((TokView::ColorLit(r.0), r.1))
        } else if crate::text::is_ascii_char(c) {
            let r = scan_ident(s, j);
            match kw_of(r.0) {
                Some(t) => Some((t, r.1)),
                None => None,
            }
        } else {
            Some((TokView::Glyph(c), j + 1))
        }
    }
}

#[via_fn]
proof fn tok_at_dec(s: Seq<char>, i: int) {
    let j = nns(s, i);
    if 0 <= j < s.len() {
        if i < 0 || i > s.len() {
            assert(j == i);
        } else {
            lemma_nns(s, i);
        }
        lemma_find_char(s, j + 1, '\n');
    }
}

/// The line lexer: one line of configuration text at a time, tokenized left
/// to right.
pub struct Lexer {
    text: Vec<char>,
    pos: usize,
}

impl Lexer {
    pub closed spec fn line(self) -> Seq<char> {
        self.text@
    }

    pub closed spec fn at(self) -> int {
        self.pos as int
    }

    pub open spec fn in_line(self) -> bool {
        0 <= self.at() <= self.line().len()
    }

    pub fn new() -> (l: Self)
        ensures
            l.line() == Seq::<char>::empty(),
            l.at() == 0,
    {
        Lexer { text: Vec::new(), pos: 0 }
    }

    pub fn feed_next_line(&mut self, line: &str)
        ensures
            final(self).line() == line@,
            final(self).at() == 0,
    {
        self.text = crate::text::chars_of(line);
        self.pos = 0;
    }

    fn get_current_char(&self) -> (c: Option<char>)
        ensures
            c == (if 0 <= self.at() < self.line().len() {
                Some(self.line()[self.at()])
            } else {
                None::<char>
            }),
    {
        if self.pos < self.text.len() {
            Some(self.text[self.pos])
        } else {
            None
        }
    }

    fn peek(&self) -> (c: Option<char>)
        ensures
            c == (if self.at() + 1 < self.line().len() {
                Some(self.line()[self.at() + 1])
            } else {
                None::<char>
            }),
    {
        if self.pos < self.text.len() && self.pos + 1 < self.text.len() {
            Some(self.text[self.pos + 1])
        } else {
            None
        }
    }

    fn advance(&mut self)
        ensures
            final(self).line() == old(self).line(),
            final(self).at() == (if old(self).at() < old(self).line().len() {
                old(self).at() + 1
            } else {
                old(self).at()
            }),
    {
        if self.pos < self.text.len() {
            self.pos = self.pos + 1;
        }
    }

    fn skip_whitespace(&mut self)
        requires
            old(self).in_line(),
        ensures
            final(self).line() == old(self).line(),
            final(self).at() == nns(old(self).line(), old(self).at()),
            final(self).in_line(),
    {
        loop
            invariant
                self.in_line(),
                self.line() == old(self).line(),
                nns(self.line(), self.at()) == nns(old(self).line(), old(self).at()),
            ensures
                self.line() == old(self).line(),
                self.at() == nns(old(self).line(), old(self).at()),
                self.in_line(),
            decreases self.line().len() - self.at(),
        {
            match self.get_current_char() {
                Some(c) => {
                    if !crate::text::space(c) {
                        break;
                    }
                },
                None => {
                    break;
                },
            }
            self.advance();
        }
    }

    fn skip_comment(&mut self)
        requires
            old(self).in_line(),
            old(self).at() < old(self).line().len(),
        ensures
            final(self).line() == old(self).line(),
            final(self).at() == skip_comment_to(old(self).line(), old(self).at()),
            final(self).in_line(),
    {
        self.advance();
        proof {
            lemma_find_char(self.line(), self.at(), '\n');
        }
        loop
            invariant
                self.in_line(),
                self.line() == old(self).line(),
                old(self).at() + 1 <= self.at(),
                find_char(self.line(), self.at(), '\n') == find_char(
                    old(self).line(),
                    old(self).at() + 1,
                    '\n',
                ),
            ensures
                self.line() == old(self).line(),
                self.at() == (if find_char(old(self).line(), old(self).at() + 1, '\n')
                    < old(self).line().len() {
                    find_char(old(self).line(), old(self).at() + 1, '\n')
                } else {
                    old(self).line().len() as int
                }),
            decreases self.line().len() - self.at(),
        {
            match self.get_current_char() {
                Some(c) => {
                    if c == '\n' {
                        break;
                    }
                },
                None => {
                    break;
                },
            }
            self.advance();
        }
        self.advance();
    }

    fn color(&mut self) -> (t: Token)
        requires
            old(self).in_line(),
        ensures
            final(self).line() == old(self).line(),
            t@ == TokView::ColorLit(scan_color(old(self).line(), old(self).at()).0),
            final(self).at() == scan_color(old(self).line(), old(self).at()).1,
            final(self).in_line(),
    {
        let mut res: Vec<char> = Vec::new();
        loop
            invariant_except_break
                scan_color(self.line(), old(self).at()) == (res@ + scan_color(
                    self.line(),
                    self.at(),
                ).0, scan_color(self.line(), self.at()).1),
            invariant
                self.in_line(),
                self.line() == old(self).line(),
            ensures
                self.line() == old(self).line(),
                res@ == scan_color(old(self).line(), old(self).at()).0,
                self.at() == scan_color(old(self).line(), old(self).at()).1,
                self.in_line(),
            decreases self.line().len() - self.at(),
        {
            match self.get_current_char() {
                Some(c) => {
                    self.advance();
                    if crate::text::space(c) {
                        proof {
                            assert(scan_color(self.line(), old(self).at()).0 =~= res@);
                        }
                        break;
                    }
                    res.push(c);
                    proof {
                        assert(scan_color(self.line(), old(self).at()).0 =~= res@ + scan_color(
                            self.line(),
                            self.at(),
                        ).0);
                    }
                },
                None => {
                    proof {
                        assert(scan_color(self.line(), old(self).at()).0 =~= res@);
                    }
                    break;
                },
            }
        }
        Token::ColorLit(crate::text::string_from_chars(&res))
    }

    fn string(&mut self) -> (t: Token)
        requires
            old(self).in_line(),
            old(self).at() < old(self).line().len(),
        ensures
            final(self).line() == old(self).line(),
            t@ == TokView::Str(scan_string(old(self).line(), old(self).at() + 1, false).0),
            final(self).at() == scan_string(old(self).line(), old(self).at() + 1, false).1,
            final(self).in_line(),
    {
        let mut res: Vec<char> = Vec::new();
        let mut esc: bool = false;
        self.advance();
        let ghost start = self.at();
        loop
            invariant_except_break
                scan_string(self.line(), start, false) == (res@ + scan_string(
                    self.line(),
                    self.at(),
                    esc,
                ).0, scan_string(self.line(), self.at(), esc).1),
            invariant
                self.in_line(),
                self.line() == old(self).line(),
                start == old(self).at() + 1,
            ensures
                self.line() == old(self).line(),
                res@ == scan_string(old(self).line(), start, false).0,
                self.at() == scan_string(old(self).line(), start, false).1,
                self.in_line(),
            decreases self.line().len() - self.at(),
        {
            match self.get_current_char() {
                Some(c) => {
                    self.advance();
                    if esc {
                        esc = false;
                        res.push(c);
                        proof {
                            assert(scan_string(self.line(), start, false).0 =~= res@
                                + scan_string(self.line(), self.at(), esc).0);
                        }
                        continue;
                    }
                    if c == '\\' {
                        esc = true;
                        continue;
                    }
                    if c == '"' {
                        proof {
                            assert(scan_string(self.line(), start, false).0 =~= res@);
                        }
                        break;
                    }
                    res.push(c);
                    proof {
                        assert(scan_string(self.line(), start, false).0 =~= res@ + scan_string(
                            self.line(),
                            self.at(),
                            esc,
                        ).0);
                    }
                },
                None => {
                    proof {
                        assert(scan_string(self.line(), start, false).0 =~= res@);
                    }
                    break;
                },
            }
        }
        Token::Str(crate::text::string_from_chars(&res))
    }

    fn id(&mut self) -> (t: Result<Token, ParseError>)
        requires
            old(self).in_line(),
        ensures
            final(self).line() == old(self).line(),
            final(self).at() == scan_ident(old(self).line(), old(self).at()).1,
            final(self).in_line(),
            match kw_of(scan_ident(old(self).line(), old(self).at()).0) {
                Some(tv) => t is Ok && t.unwrap()@ == tv,
                None => t is Err,
            },
    {
        let mut res: Vec<char> = Vec::new();
        loop
            invariant_except_break
                scan_ident(self.line(), old(self).at()) == (res@ + scan_ident(
                    self.line(),
                    self.at(),
                ).0, scan_ident(self.line(), self.at()).1),
            invariant
                self.in_line(),
                self.line() == old(self).line(),
            ensures
                self.line() == old(self).line(),
                res@ == scan_ident(old(self).line(), old(self).at()).0,
                self.at() == scan_ident(old(self).line(), old(self).at()).1,
                self.in_line(),
            decreases self.line().len() - self.at(),
        {
            match self.get_current_char() {
                Some(c) => {
                    if crate::text::space(c) {
                        proof {
                            assert(scan_ident(self.line(), old(self).at()).0 =~= res@);
                        }
                        break;
                    }
                    res.push(c);
                    self.advance();
                    proof {
                        assert(scan_ident(self.line(), old(self).at()).0 =~= res@ + scan_ident(
                            self.line(),
                            self.at(),
                        ).0);
                    }
                },
                None => {
                    proof {
                        assert(scan_ident(self.line(), old(self).at()).0 =~= res@);
                    }
                    break;
                },
            }
        }
        if crate::text::word_is(&res, "default") {
            Ok(Token::DefaultKw)
        } else if crate::text::word_is(&res, "empty") {
            Ok(Token::EmptyKw)
        } else if crate::text::word_is(&res, "title") {
            Ok(Token::Title)
        } else if crate::text::word_is(&res, "class") {
            Ok(Token::Class)
        } else if crate::text::word_is(&res, "reversed") {
            Ok(Token::Reversed)
        } else if crate::text::word_is(&res, "before_fmt") {
            Ok(Token::Before)
        } else if crate::text::word_is(&res, "fmt") {
            Ok(Token::Fmt)
        } else if crate::text::word_is(&res, "after_fmt") {
            Ok(Token::After)
        } else if crate::text::word_is(&res, "color") {
            Ok(Token::NormalColor)
        } else if crate::text::word_is(&res, "focused_color") {
            Ok(Token::FocusedColor)
        } else {
            Err(ParseError)
        }
    }

    fn next_token(&mut self) -> (t: Result<Token, ParseError>)
        requires
            old(self).in_line(),
        ensures
            final(self).line() == old(self).line(),
            final(self).in_line(),
            match tok_at(old(self).line(), old(self).at()) {
                Some((tv, p)) => t is Ok && t.unwrap()@ == tv && final(self).at() == p,
                None => t is Err,
            },
    {
        self.skip_whitespace();
        proof {
            lemma_nns(self.line(), old(self).at());
        }
        loop
            invariant
                self.in_line(),
                self.line() == old(self).line(),
                self.at() == nns(self.line(), self.at()),
                tok_at(self.line(), self.at()) == tok_at(old(self).line(), old(self).at()),
            ensures
                self.line() == old(self).line(),
                self.in_line(),
                self.at() == nns(self.line(), self.at()),
                tok_at(self.line(), self.at()) == tok_at(old(self).line(), old(self).at()),
                if 0 <= self.at() < self.line().len() {
                    !(self.line()[self.at()] == '#' && self.at() + 1 < self.line().len()
                        && self.line()[self.at() + 1] == '#')
                } else {
                    true
                },
            decreases self.line().len() - self.at(),
        {
            match self.get_current_char() {
                Some(c) => {
                    let two = self.peek();
                    if c == '#' && two == Some('#') {
                        let ghost before = self.at();
                        self.skip_comment();
                        proof {
                            lemma_find_char(self.line(), before + 1, '\n');
                        }
                        self.skip_whitespace();
                        proof {
                            let l = self.line();
                            lemma_nns(l, skip_comment_to(l, before));
                            assert(tok_at(l, before) == tok_at(l, skip_comment_to(l, before)));
                            assert(nns(l, self.at()) == self.at());
                            assert(tok_at(l, skip_comment_to(l, before)) == tok_at(l, self.at()));
                        }
                    } else {
                        break;
                    }
                },
                None => {
                    break;
                },
            }
        }
        match self.get_current_char() {
            Some(c) => {
                if c == '"' {
                    Ok(self.string())
                } else if c == '#' {
                    Ok(self.color())
                } else if crate::text::ascii_char(c) {
                    self.id()
                } else {
                    self.advance();
                    Ok(Token::Glyph(c))
                }
            },
            None => Ok(Token::End),
        }
    }
}

// ---------------------------------------------------------------------------
// The grammar, stated as spec-level recursive descent over the token stream.
// Each function takes the current token and the lexer position just past it,
// and yields the parsed value with the next token state, or nothing on a
// parse or lexical error. The executable parser mirrors these one for one.
// ---------------------------------------------------------------------------

/// An optional trailing `reversed` flag.
pub open spec fn sp_reversed(s: Seq<char>, cur: TokView, p: int) -> Option<(bool, TokView, int)> {
    if cur is Reversed {
        match tok_at(s, p) {
            Some((t, q)) => Some((true, t, q)),
            None => None,
        }
    } else {
        Some((false, cur, p))
    }
}

/// A color literal, demanded where one must stand.
pub open spec fn sp_color(s: Seq<char>, cur: TokView, p: int) -> Option<(Seq<char>, TokView, int)> {
    match cur {
        TokView::ColorLit(c) => match tok_at(s, p) {
            Some((t, q)) => Some((c, t, q)),
            None => None,
        },
        _ => None,
    }
}

/// An optional `color #<c>` clause.
pub open spec fn sp_color_normal(s: Seq<char>, cur: TokView, p: int) -> Option<
    (Option<Seq<char>>, TokView, int),
> {
    if cur is NormalColor {
        match tok_at(s, p) {
            Some((t1, q1)) => match sp_color(s, t1, q1) {
                Some((c, t2, q2)) => Some((Some(c), t2, q2)),
                None => None,
            },
            None => None,
        }
    } else {
        Some((None, cur, p))
    }
}

/// An optional `focused_color #<c>` clause.
pub open spec fn sp_color_focused(s: Seq<char>, cur: TokView, p: int) -> Option<
    (Option<Seq<char>>, TokView, int),
> {
    if cur is FocusedColor {
        match tok_at(s, p) {
            Some((t1, q1)) => match sp_color(s, t1, q1) {
                Some((c, t2, q2)) => Some((Some(c), t2, q2)),
                None => None,
            },
            None => None,
        }
    } else {
        Some((None, cur, p))
    }
}

/// A glyph character.
pub open spec fn sp_icon(s: Seq<char>, cur: TokView, p: int) -> Option<(char, TokView, int)> {
    match cur {
        TokView::Glyph(i) => match tok_at(s, p) {
            Some((t, q)) => Some((i, t, q)),
            None => None,
        },
        _ => None,
    }
}

/// A quoted string.
pub open spec fn sp_string(s: Seq<char>, cur: TokView, p: int) -> Option<
    (Seq<char>, TokView, int),
> {
    match cur {
        TokView::Str(r) => match tok_at(s, p) {
            Some((t, q)) => Some((r, t, q)),
            None => None,
        },
        _ => None,
    }
}

/// The glyph, optional colors and optional reversed flag shared by every
/// icon-bearing statement; the pattern slot is left empty.
pub open spec fn sp_icon_body(s: Seq<char>, cur: TokView, p: int) -> Option<
    (IconView, TokView, int),
> {
    match sp_icon(s, cur, p) {
        Some((g, t1, q1)) => match sp_color_normal(s, t1, q1) {
            Some((c, t2, q2)) => match sp_color_focused(s, t2, q2) {
                Some((fc, t3, q3)) => match sp_reversed(s, t3, q3) {
                    Some((rv, t4, q4)) => Some(
                        (
                            IconView {
                                glyph: g,
                                pattern: Seq::empty(),
                                color: c,
                                fcolor: fc,
                                reversed: rv,
                            },
                            t4,
                            q4,
                        ),
                    ),
                    None => None,
                },
                None => None,
            },
            None => None,
        },
        None => None,
    }
}

/// The body of a `class` or `title` statement: a pattern string, then the
/// common icon body.
pub open spec fn sp_icon_stmt(s: Seq<char>, cur: TokView, p: int) -> Option<
    (IconView, TokView, int),
> {
    match sp_string(s, cur, p) {
        Some((pat, t1, q1)) => match sp_icon_body(s, t1, q1) {
            Some((iv, t2, q2)) => Some((IconView { pattern: pat, ..iv }, t2, q2)),
            None => None,
        },
        None => None,
    }
}

/// One whole statement, selected by its leading token. Tokens after the
/// statement are left unread, except that the one-token lookahead must lex.
pub open spec fn sp_stmt(s: Seq<char>, cur: TokView, p: int) -> Option<StmtView> {
    match cur {
        TokView::DefaultKw => match tok_at(s, p) {
            Some((t1, q1)) => match sp_icon_body(s, t1, q1) {
                Some((iv, _, _)) => Some(StmtView::DefaultIcon(iv)),
                None => None,
            },
            None => None,
        },
        TokView::EmptyKw => match tok_at(s, p) {
            Some((t1, q1)) => match sp_icon_body(s, t1, q1) {
                Some((iv, _, _)) => Some(StmtView::EmptyIcon(iv)),
                None => None,
            },
            None => None,
        },
        TokView::Class => match tok_at(s, p) {
            Some((t1, q1)) => match sp_icon_stmt(s, t1, q1) {
                Some((iv, _, _)) => Some(StmtView::Class(iv)),
                None => None,
            },
            None => None,
        },
        TokView::Title => match tok_at(s, p) {
            Some((t1, q1)) => match sp_icon_stmt(s, t1, q1) {
                Some((iv, _, _)) => Some(StmtView::Title(iv)),
                None => None,
            },
            None => None,
        },
        TokView::Before => match tok_at(s, p) {
            Some((t1, q1)) => match sp_string(s, t1, q1) {
                Some((v, _, _)) => Some(StmtView::FmtBefore(v)),
                None => None,
            },
            None => None,
        },
        TokView::Fmt => match tok_at(s, p) {
            Some((t1, q1)) => match sp_string(s, t1, q1) {
                Some((v, _, _)) => Some(StmtView::Fmt(v)),
                None => None,
            },
            None => None,
        },
        TokView::After => match tok_at(s, p) {
            Some((t1, q1)) => match sp_string(s, t1, q1) {
                Some((v, _, _)) => Some(StmtView::FmtAfter(v)),
                None => None,
            },
            None => None,
        },
        TokView::End => Some(StmtView::Blank),
        _ => None,
    }
}

/// What one whole line parses to, or nothing on a parse or lexical error.
pub open spec fn sp_line(s: Seq<char>) -> Option<StmtView> {
    match tok_at(s, 0) {
        Some((t, p)) => sp_stmt(s, t, p),
        None => None,
    }
}

/// Whether a syntactically good statement also carries patterns that
/// compile: only then does parsing return it.
pub open spec fn stmt_ok(sv: StmtView) -> bool {
    match sv {
        StmtView::Class(i) => regex_ok(anchored(i.pattern)),
        StmtView::Title(i) => regex_ok(anchored(i.pattern)),
        StmtView::DefaultIcon(i) => regex_ok(anchored(i.pattern)),
        StmtView::EmptyIcon(i) => regex_ok(anchored(i.pattern)),
        _ => true,
    }
}

/// The statement parser: one line at a time, a one-token lookahead over the
/// lexer.
pub struct Parser {
    lexer: Lexer,
    current_token: Token,
}

impl Parser {
    pub closed spec fn line(self) -> Seq<char> {
        self.lexer.line()
    }

    pub closed spec fn cur(self) -> TokView {
        self.current_token@
    }

    pub closed spec fn at(self) -> int {
        self.lexer.at()
    }

    pub open spec fn pos_ok(self) -> bool {
        0 <= self.at() <= self.line().len()
    }

    /// A line has been fed and its first token read: parsing may start.
    pub open spec fn ready(self) -> bool {
        &&& self.pos_ok()
        &&& tok_at(self.line(), 0) == Some((self.cur(), self.at()))
    }

    pub fn new(lexer: Lexer) -> (p: Self)
        ensures
            p.cur() == TokView::End,
            p.line() == lexer.line(),
    {
        Parser { lexer, current_token: Token::End }
    }

    /// Feed one line and read its first token; a line whose first token
    /// does not lex is rejected here, before any statement is looked at.
    pub fn feed_next_line(&mut self, line: &str) -> (r: Result<(), ParseError>)
        ensures
            r is Ok <==> tok_at(line@, 0) is Some,
            r is Ok ==> final(self).ready() && final(self).line() == line@,
    {
        self.lexer.feed_next_line(line);
        match self.lexer.next_token() {
            Ok(t) => {
                self.current_token = t;
                Ok(())
            },
            Err(e) => Err(e),
        }
    }

    /// Read the next token into the lookahead slot.
    fn bump(&mut self) -> (r: Result<(), ParseError>)
        requires
            old(self).pos_ok(),
        ensures
            final(self).line() == old(self).line(),
            final(self).pos_ok(),
            match tok_at(old(self).line(), old(self).at()) {
                Some((t, q)) => r is Ok && final(self).cur() == t && final(self).at() == q,
                None => r is Err,
            },
    {
        match self.lexer.next_token() {
            Ok(t) => {
                self.current_token = t;
                Ok(())
            },
            Err(e) => Err(e),
        }
    }

    fn reversed(&mut self) -> (r: Result<bool, ParseError>)
        requires
            old(self).pos_ok(),
        ensures
            final(self).line() == old(self).line(),
            final(self).pos_ok(),
            match sp_reversed(old(self).line(), old(self).cur(), old(self).at()) {
                Some((b, t, q)) => r is Ok && r.unwrap() == b && final(self).cur() == t && final(self).at() == q,
                None => r is Err,
            },
    {
        match &self.current_token {
            Token::Reversed => {
                match self.bump() {
                    Ok(()) => Ok(true),
                    Err(e) => Err(e),
                }
            },
            _ => Ok(false),
        }
    }

    fn color(&mut self) -> (r: Result<String, ParseError>)
        requires
            old(self).pos_ok(),
        ensures
            final(self).line() == old(self).line(),
            final(self).pos_ok(),
            match sp_color(old(self).line(), old(self).cur(), old(self).at()) {
                Some((c, t, q)) => r is Ok && r.unwrap()@ == c && final(self).cur() == t && final(self).at() == q,
                None => r is Err,
            },
    {
        let mut t = Token::End;
        std::mem::swap(&mut t, &mut self.current_token);
        match t {
            Token::ColorLit(c) => {
                match self.bump() {
                    Ok(()) => Ok(c),
                    Err(e) => Err(e),
                }
            },
            other => {
                self.current_token = other;
                Err(ParseError)
            },
        }
    }

    fn color_normal(&mut self) -> (r: Result<Option<String>, ParseError>)
        requires
            old(self).pos_ok(),
        ensures
            final(self).line() == old(self).line(),
            final(self).pos_ok(),
            match sp_color_normal(old(self).line(), old(self).cur(), old(self).at()) {
                Some((c, t, q)) => r is Ok && crate::icons::opt_view(r.unwrap()) == c && final(self).cur() == t && final(self).at() == q,
                None => r is Err,
            },
    {
        match &self.current_token {
            Token::NormalColor => {
                match self.bump() {
                    Ok(()) => match self.color() {
                        Ok(c) => Ok(Some(c)),
                        Err(e) => Err(e),
                    },
                    Err(e) => Err(e),
                }
            },
            _ => Ok(None),
        }
    }

    fn color_focused(&mut self) -> (r: Result<Option<String>, ParseError>)
        requires
            old(self).pos_ok(),
        ensures
            final(self).line() == old(self).line(),
            final(self).pos_ok(),
            match sp_color_focused(old(self).line(), old(self).cur(), old(self).at()) {
                Some((c, t, q)) => r is Ok && crate::icons::opt_view(r.unwrap()) == c && final(self).cur() == t && final(self).at() == q,
                None => r is Err,
            },
    {
        match &self.current_token {
            Token::FocusedColor => {
                match self.bump() {
                    Ok(()) => match self.color() {
                        Ok(c) => Ok(Some(c)),
                        Err(e) => Err(e),
                    },
                    Err(e) => Err(e),
                }
            },
            _ => Ok(None),
        }
    }

    fn icon(&mut self) -> (r: Result<char, ParseError>)
        requires
            old(self).pos_ok(),
        ensures
            final(self).line() == old(self).line(),
            final(self).pos_ok(),
            match sp_icon(old(self).line(), old(self).cur(), old(self).at()) {
                Some((g, t, q)) => r is Ok && r.unwrap() == g && final(self).cur() == t && final(self).at() == q,
                None => r is Err,
            },
    {
        match &self.current_token {
            Token::Glyph(i) => {
                let g = *i;
                match self.bump() {
                    Ok(()) => Ok(g),
                    Err(e) => Err(e),
                }
            },
            _ => Err(ParseError),
        }
    }

    fn string(&mut self) -> (r: Result<String, ParseError>)
        requires
            old(self).pos_ok(),
        ensures
            final(self).line() == old(self).line(),
            final(self).pos_ok(),
            match sp_string(old(self).line(), old(self).cur(), old(self).at()) {
                Some((v, t, q)) => r is Ok && r.unwrap()@ == v && final(self).cur() == t && final(self).at() == q,
                None => r is Err,
            },
    {
        let mut t = Token::End;
        std::mem::swap(&mut t, &mut self.current_token);
        match t {
            Token::Str(v) => {
                match self.bump() {
                    Ok(()) => Ok(v),
                    Err(e) => Err(e),
                }
            },
            other => {
                self.current_token = other;
                Err(ParseError)
            },
        }
    }

    /// The glyph, colors and reversed flag common to every icon statement.
    fn icon_body(&mut self) -> (r: Result<(char, Option<String>, Option<String>, bool), ParseError>)
        requires
            old(self).pos_ok(),
        ensures
            final(self).line() == old(self).line(),
            final(self).pos_ok(),
            match sp_icon_body(old(self).line(), old(self).cur(), old(self).at()) {
                Some((iv, t, q)) => r is Ok && {
                    let (g, c, fc, rv) = r.unwrap();
                    &&& iv == (IconView {
                        glyph: g,
                        pattern: Seq::empty(),
                        color: crate::icons::opt_view(c),
                        fcolor: crate::icons::opt_view(fc),
                        reversed: rv,
                    })
                    &&& final(self).cur() == t
                    &&& final(self).at() == q
                },
                None => r is Err,
            },
    {
        let g = match self.icon() {
            Ok(g) => g,
            Err(e) => {
                return Err(e);
            },
        };
        let c = match self.color_normal() {
            Ok(c) => c,
            Err(e) => {
                return Err(e);
            },
        };
        let fc = match self.color_focused() {
            Ok(c) => c,
            Err(e) => {
                return Err(e);
            },
        };
        let rv = match self.reversed() {
            Ok(b) => b,
            Err(e) => {
                return Err(e);
            },
        };
        Ok((g, c, fc, rv))
    }

    fn icon_statement(&mut self) -> (r: Result<Icon, ParseError>)
        requires
            old(self).pos_ok(),
        ensures
            final(self).line() == old(self).line(),
            final(self).pos_ok(),
            match sp_icon_stmt(old(self).line(), old(self).cur(), old(self).at()) {
                Some((iv, t, q)) => {
                    &&& (r is Ok <==> regex_ok(anchored(iv.pattern)))
                    &&& (r is Ok ==> r.unwrap()@ == iv)
                },
                None => r is Err,
            },
    {
        let regex = match self.string() {
            Ok(v) => v,
            Err(e) => {
                return Err(e);
            },
        };
        let (g, c, fc, rv) = match self.icon_body() {
            Ok(b) => b,
            Err(e) => {
                return Err(e);
            },
        };
        Icon::new(g, regex.as_str(), c, fc, rv)
    }

    fn class_statement(&mut self) -> (r: Result<Stmt, ParseError>)
        requires
            old(self).pos_ok(),
            old(self).cur() is Class,
        ensures
            final(self).line() == old(self).line(),
            final(self).pos_ok(),
            match sp_stmt(old(self).line(), old(self).cur(), old(self).at()) {
                Some(sv) => (r is Ok <==> stmt_ok(sv)) && (r is Ok ==> r.unwrap()@ == sv),
                None => r is Err,
            },
    {
        match self.bump() {
            Ok(()) => {},
            Err(e) => {
                return Err(e);
            },
        }
        match self.icon_statement() {
            Ok(i) => Ok(Stmt::Class(i)),
            Err(e) => Err(e),
        }
    }

    fn title_statement(&mut self) -> (r: Result<Stmt, ParseError>)
        requires
            old(self).pos_ok(),
            old(self).cur() is Title,
        ensures
            final(self).line() == old(self).line(),
            final(self).pos_ok(),
            match sp_stmt(old(self).line(), old(self).cur(), old(self).at()) {
                Some(sv) => (r is Ok <==> stmt_ok(sv)) && (r is Ok ==> r.unwrap()@ == sv),
                None => r is Err,
            },
    {
        match self.bump() {
            Ok(()) => {},
            Err(e) => {
                return Err(e);
            },
        }
        match self.icon_statement() {
            Ok(i) => Ok(Stmt::Title(i)),
            Err(e) => Err(e),
        }
    }

    fn default_statement(&mut self) -> (r: Result<Stmt, ParseError>)
        requires
            old(self).pos_ok(),
            old(self).cur() is DefaultKw,
        ensures
            final(self).line() == old(self).line(),
            final(self).pos_ok(),
            match sp_stmt(old(self).line(), old(self).cur(), old(self).at()) {
                Some(sv) => (r is Ok <==> stmt_ok(sv)) && (r is Ok ==> r.unwrap()@ == sv),
                None => r is Err,
            },
    {
        match self.bump() {
            Ok(()) => {},
            Err(e) => {
                return Err(e);
            },
        }
        let (g, c, fc, rv) = match self.icon_body() {
            Ok(b) => b,
            Err(e) => {
                return Err(e);
            },
        };
        proof {
            reveal_strlit("");
            assert(""@ =~= Seq::<char>::empty());
        }
        match Icon::new(g, "", c, fc, rv) {
            Ok(i) => Ok(Stmt::DefaultIcon(i)),
            Err(e) => Err(e),
        }
    }

    fn empty_statement(&mut self) -> (r: Result<Stmt, ParseError>)
        requires
            old(self).pos_ok(),
            old(self).cur() is EmptyKw,
        ensures
            final(self).line() == old(self).line(),
            final(self).pos_ok(),
            match sp_stmt(old(self).line(), old(self).cur(), old(self).at()) {
                Some(sv) => (r is Ok <==> stmt_ok(sv)) && (r is Ok ==> r.unwrap()@ == sv),
                None => r is Err,
            },
    {
        match self.bump() {
            Ok(()) => {},
            Err(e) => {
                return Err(e);
            },
        }
        let (g, c, fc, rv) = match self.icon_body() {
            Ok(b) => b,
            Err(e) => {
                return Err(e);
            },
        };
        proof {
            reveal_strlit("");
            assert(""@ =~= Seq::<char>::empty());
        }
        match Icon::new(g, "", c, fc, rv) {
            Ok(i) => Ok(Stmt::EmptyIcon(i)),
            Err(e) => Err(e),
        }
    }

    fn before_statement(&mut self) -> (r: Result<Stmt, ParseError>)
        requires
            old(self).pos_ok(),
            old(self).cur() is Before,
        ensures
            final(self).line() == old(self).line(),
            final(self).pos_ok(),
            match sp_stmt(old(self).line(), old(self).cur(), old(self).at()) {
                Some(sv) => (r is Ok <==> stmt_ok(sv)) && (r is Ok ==> r.unwrap()@ == sv),
                None => r is Err,
            },
    {
        match self.bump() {
            Ok(()) => {},
            Err(e) => {
                return Err(e);
            },
        }
        match self.string() {
            Ok(v) => Ok(Stmt::FmtBefore(v)),
            Err(e) => Err(e),
        }
    }

    fn fmt_statement(&mut self) -> (r: Result<Stmt, ParseError>)
        requires
            old(self).pos_ok(),
            old(self).cur() is Fmt,
        ensures
            final(self).line() == old(self).line(),
            final(self).pos_ok(),
            match sp_stmt(old(self).line(), old(self).cur(), old(self).at()) {
                Some(sv) => (r is Ok <==> stmt_ok(sv)) && (r is Ok ==> r.unwrap()@ == sv),
                None => r is Err,
            },
    {
        match self.bump() {
            Ok(()) => {},
            Err(e) => {
                return Err(e);
            },
        }
        match self.string() {
            Ok(v) => Ok(Stmt::Fmt(v)),
            Err(e) => Err(e),
        }
    }

    fn after_statement(&mut self) -> (r: Result<Stmt, ParseError>)
        requires
            old(self).pos_ok(),
            old(self).cur() is After,
        ensures
            final(self).line() == old(self).line(),
            final(self).pos_ok(),
            match sp_stmt(old(self).line(), old(self).cur(), old(self).at()) {
                Some(sv) => (r is Ok <==> stmt_ok(sv)) && (r is Ok ==> r.unwrap()@ == sv),
                None => r is Err,
            },
    {
        match self.bump() {
            Ok(()) => {},
            Err(e) => {
                return Err(e);
            },
        }
        match self.string() {
            Ok(v) => Ok(Stmt::FmtAfter(v)),
            Err(e) => Err(e),
        }
    }

    /// Parse the fed line's one statement: exactly what the grammar says it
    /// holds, returned when its patterns also compile; a blank or
    /// comment-only line parses to the blank statement.
    pub fn parse(&mut self) -> (r: Result<Stmt, ParseError>)
        requires
            old(self).pos_ok(),
        ensures
            match sp_stmt(old(self).line(), old(self).cur(), old(self).at()) {
                Some(sv) => (r is Ok <==> stmt_ok(sv)) && (r is Ok ==> r.unwrap()@ == sv),
                None => r is Err,
            },
    {
        match &self.current_token {
            Token::DefaultKw => self.default_statement(),
            Token::EmptyKw => self.empty_statement(),
            Token::Class => self.class_statement(),
            Token::Title => self.title_statement(),
            Token::Before => self.before_statement(),
            Token::Fmt => self.fmt_statement(),
            Token::After => self.after_statement(),
            Token::End => Ok(Stmt::Blank),
            _ => Err(ParseError),
        }
    }
}

} // verus!
