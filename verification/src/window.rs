use vstd::prelude::*;

verus! {

/// A window's identity as the indicator shows it: its class and its title,
/// both produced by a live property query when the window becomes relevant.
pub struct KnownWindow {
    pub class: String,
    pub title: String,
}

impl KnownWindow {
    pub fn new_known(class: String, title: String) -> (w: Self)
        ensures
            w.class == class,
            w.title == title,
    {
        Self { class, title }
    }
}

/// What a class lookup decodes from the window manager's reply string: the
/// reply packs instance and class as fields separated by NUL characters, and
/// the class is the second field; when there is no second field, a sentinel
/// stands in for it.
pub open spec fn spec_class_field(s: Seq<char>) -> Seq<char> {
    let i = crate::text::find_char(s, 0, '\0');
    if i >= s.len() {
        "sus"@
    } else {
        s.subrange(i + 1, crate::text::find_char(s, i + 1, '\0'))
    }
}

/// Decode a window's class from the decoded text of a class-property reply:
/// the second NUL-separated field, or a sentinel when the reply has no
/// second field.
pub fn class_from_reply(reply: &str) -> (r: String)
    ensures
        r@ == spec_class_field(reply@),
{
    let v = crate::text::chars_of(reply);
    let n = v.len();
    let mut i: usize = 0;
    while i < n && v[i] != '\0'
        invariant
            n == v@.len(),
            v@ == reply@,
            i <= n,
            forall|k: int| 0 <= k < i ==> v@[k] != '\0',
        decreases n - i,
    {
        i = i + 1;
    }
    proof {
        crate::text::lemma_find_char(v@, 0, '\0');
        assert(crate::text::find_char(v@, 0, '\0') == i as int) by {
            if crate::text::find_char(v@, 0, '\0') < i as int {
                assert(v@[crate::text::find_char(v@, 0, '\0')] == '\0');
            }
        }
    }
    if i == n {
        return String::from_str("sus");
    }
    let start = i + 1;
    let mut j: usize = start;
    let mut out: Vec<char> = Vec::new();
    while j < n && v[j] != '\0'
        invariant
            n == v@.len(),
            v@ == reply@,
            start <= j <= n,
            forall|k: int| start <= k < j ==> v@[k] != '\0',
            out@ == v@.subrange(start as int, j as int),
        decreases n - j,
    {
        out.push(v[j]);
        j = j + 1;
        proof {
            assert(out@ =~= v@.subrange(start as int, j as int));
        }
    }
    proof {
        crate::text::lemma_find_char(v@, start as int, '\0');
        assert(crate::text::find_char(v@, start as int, '\0') == j as int) by {
            if crate::text::find_char(v@, start as int, '\0') < j as int {
                assert(v@[crate::text::find_char(v@, start as int, '\0')] == '\0');
            }
        }
    }
    crate::text::string_from_chars(&out)
}

// ---------------------------------------------------------------------------
// Template substitution and the renderer.
// ---------------------------------------------------------------------------

/// The values the per-desktop template may name.
pub struct VarsView {
    pub desktop: Seq<char>,
    pub icon: Seq<char>,
    pub focused: Seq<char>,
    pub occupied: Seq<char>,
    pub color: Seq<char>,
    pub window_class: Seq<char>,
    pub reversed: Seq<char>,
}

/// The executable carrier of the per-desktop placeholder values.
pub struct Vars {
    pub desktop: Vec<char>,
    pub icon: Vec<char>,
    pub focused: Vec<char>,
    pub occupied: Vec<char>,
    pub color: Vec<char>,
    pub window_class: Vec<char>,
    pub reversed: Vec<char>,
}

impl View for Vars {
    type V = VarsView;

    open spec fn view(&self) -> VarsView {
        VarsView {
            desktop: self.desktop@,
            icon: self.icon@,
            focused: self.focused@,
            occupied: self.occupied@,
            color: self.color@,
            window_class: self.window_class@,
            reversed: self.reversed@,
        }
    }
}

/// The value a placeholder name stands for, or nothing for an unknown name.
pub open spec fn var_lookup(name: Seq<char>, v: VarsView) -> Option<Seq<char>> {
    if name == "desktop"@ {
        Some(v.desktop)
    } else if name == "icon"@ {
        Some(v.icon)
    } else if name == "focused"@ {
        Some(v.focused)
    } else if name == "occupied"@ {
        Some(v.occupied)
    } else if name == "color"@ {
        Some(v.color)
    } else if name == "window_class"@ {
        Some(v.window_class)
    } else if name == "reversed"@ {
        Some(v.reversed)
    } else {
        None
    }
}

/// The template from position `i` on with its placeholders substituted: a
/// doubled brace is a literal brace, `{name}` becomes the named value, and
/// an unknown name, an unterminated placeholder or a lone closing brace
/// fails the whole substitution.
pub open spec fn spec_subst_from(t: Seq<char>, i: int, v: VarsView) -> Option<Seq<char>>
    decreases t.len() - i,
    via spec_subst_from_dec
{
    if !(0 <= i < t.len()) {
        Some(Seq::empty())
    } else {
        let c = t[i];
        if c == '{' {
            if i + 1 < t.len() && t[i + 1] == '{' {
                match spec_subst_from(t, i + 2, v) {
                    Some(r) => Some(seq!['{'] + r),
                    None => None,
                }
            } else {
                let k = crate::text::find_char(t, i + 1, '}');
                if k >= t.len() {
                    None
                } else {
                    match var_lookup(t.subrange(i + 1, k), v) {
                        Some(val) => match spec_subst_from(t, k + 1, v) {
                            Some(r) => Some(val + r),
                            None => None,
                        },
                        None => None,
                    }
                }
            }
        } else if c == '}' {
            if i + 1 < t.len() && t[i + 1] == '}' {
                match spec_subst_from(t, i + 2, v) {
                    Some(r) => Some(seq!['}'] + r),
                    None => None,
                }
            } else {
                None
            }
        } else {
            match spec_subst_from(t, i + 1, v) {
                Some(r) => Some(seq![c] + r),
                None => None,
            }
        }
    }
}

#[via_fn]
proof fn spec_subst_from_dec(t: Seq<char>, i: int, v: VarsView) {
    if 0 <= i < t.len() {
        crate::text::lemma_find_char(t, i + 1, '}');
    }
}

/// A whole template with its placeholders substituted.
pub open spec fn spec_subst(t: Seq<char>, v: VarsView) -> Option<Seq<char>> {
    spec_subst_from(t, 0, v)
}

fn lookup_var<'a>(name: &Vec<char>, v: &'a Vars) -> (r: Option<&'a Vec<char>>)
    ensures
        match r {
            Some(val) => var_lookup(name@, v@) == Some(val@),
            None => var_lookup(name@, v@) is None,
        },
{
    if crate::text::word_is(name, "desktop") {
        Some(&v.desktop)
    } else if crate::text::word_is(name, "icon") {
        Some(&v.icon)
    } else if crate::text::word_is(name, "focused") {
        Some(&v.focused)
    } else if crate::text::word_is(name, "occupied") {
        Some(&v.occupied)
    } else if crate::text::word_is(name, "color") {
        Some(&v.color)
    } else if crate::text::word_is(name, "window_class") {
        Some(&v.window_class)
    } else if crate::text::word_is(name, "reversed") {
        Some(&v.reversed)
    } else {
        None
    }
}

/// Substitute the placeholder values into one template.
fn subst(t: &Vec<char>, v: &Vars) -> (r: Option<Vec<char>>)
    ensures
        match r {
            Some(o) => spec_subst(t@, v@) == Some(o@),
            None => spec_subst(t@, v@) is None,
        },
{
    let n = t.len();
    let mut out: Vec<char> = Vec::new();
    let mut i: usize = 0;
    while i < n
        invariant
            n == t@.len(),
            i <= n,
            spec_subst(t@, v@) is Some <==> spec_subst_from(t@, i as int, v@) is Some,
            spec_subst(t@, v@) is Some ==> spec_subst(t@, v@).unwrap() == out@ + spec_subst_from(
                t@,
                i as int,
                v@,
            ).unwrap(),
        decreases n - i,
    {
        let c = t[i];
        if c == '{' {
            if i + 1 < n && t[i + 1] == '{' {
                out.push('{');
                i = i + 2;
                proof {
                    assert(spec_subst(t@, v@) is Some ==> spec_subst(t@, v@).unwrap() =~= out@
                        + spec_subst_from(t@, i as int, v@).unwrap());
                }
            } else {
                let mut k: usize = i + 1;
                let mut name: Vec<char> = Vec::new();
                while k < n && t[k] != '}'
                    invariant
                        n == t@.len(),
                        i + 1 <= k <= n,
                        forall|m: int| i + 1 <= m < k ==> t@[m] != '}',
                        name@ == t@.subrange(i as int + 1, k as int),
                    decreases n - k,
                {
                    name.push(t[k]);
                    k = k + 1;
                    proof {
                        assert(name@ =~= t@.subrange(i as int + 1, k as int));
                    }
                }
                proof {
                    crate::text::lemma_find_char(t@, i as int + 1, '}');
                    assert(crate::text::find_char(t@, i as int + 1, '}') == k as int) by {
                        if crate::text::find_char(t@, i as int + 1, '}') < k as int {
                            assert(t@[crate::text::find_char(t@, i as int + 1, '}')] == '}');
                        }
                    }
                }
                if k == n {
                    return None;
                }
                match lookup_var(&name, v) {
                    Some(val) => {
                        crate::text::push_all(&mut out, val);
                        i = k + 1;
                        proof {
                            assert(spec_subst(t@, v@) is Some ==> spec_subst(t@, v@).unwrap() =~= out@
                                + spec_subst_from(t@, i as int, v@).unwrap());
                        }
                    },
                    None => {
                        return None;
                    },
                }
            }
        } else if c == '}' {
            if i + 1 < n && t[i + 1] == '}' {
                out.push('}');
                i = i + 2;
                proof {
                    assert(spec_subst(t@, v@) is Some ==> spec_subst(t@, v@).unwrap() =~= out@
                        + spec_subst_from(t@, i as int, v@).unwrap());
                }
            } else {
                return None;
            }
        } else {
            out.push(c);
            i = i + 1;
            proof {
                assert(spec_subst(t@, v@) is Some ==> spec_subst(t@, v@).unwrap() =~= out@
                    + spec_subst_from(t@, i as int, v@).unwrap());
            }
        }
    }
    proof {
        assert(spec_subst(t@, v@) is Some ==> spec_subst(t@, v@).unwrap() =~= out@);
    }
    Some(out)
}

/// The icon a desktop resolves to: the empty icon when no window occupies
/// it (rules are never consulted then), else the first matching rule's
/// icon, else the default icon.
pub open spec fn spec_icon_for(d: crate::engine::Desk, t: crate::icons::TableView) -> crate::icons::IconView {
    match d.window {
        Some(w) => match crate::icons::first_match(t.rules, w.class@, w.title@) {
            Some(ic) => ic,
            None => t.dflt,
        },
        None => t.empty,
    }
}

/// A color slot resolved at render time: an icon without its own color
/// inherits the default icon's corresponding color.
pub open spec fn resolved_color(ic: crate::icons::IconView, t: crate::icons::TableView) -> Option<
    Seq<char>,
> {
    match ic.color {
        Some(c) => Some(c),
        None => t.dflt.color,
    }
}

pub open spec fn resolved_fcolor(ic: crate::icons::IconView, t: crate::icons::TableView) -> Option<
    Seq<char>,
> {
    match ic.fcolor {
        Some(c) => Some(c),
        None => t.dflt.fcolor,
    }
}

/// The placeholder values one desktop renders with, or nothing when a
/// needed color resolves to no value at all: the desktop's label, the
/// resolved glyph, the focused and occupied markers, the color for the
/// focus state (the two colors swapped when the rule is reversed), the
/// window's class and the reversed marker.
pub open spec fn spec_vars(d: crate::engine::Desk, focused: bool, t: crate::icons::TableView) -> Option<
    VarsView,
> {
    let ic = spec_icon_for(d, t);
    match (resolved_color(ic, t), resolved_fcolor(ic, t)) {
        (Some(c0), Some(f0)) => {
            let c = if ic.reversed {
                f0
            } else {
                c0
            };
            let f = if ic.reversed {
                c0
            } else {
                f0
            };
            Some(
                VarsView {
                    desktop: d.name@,
                    icon: seq![ic.glyph],
                    focused: if focused {
                        "focused"@
                    } else {
                        Seq::empty()
                    },
                    occupied: if d.window is Some {
                        "occupied"@
                    } else {
                        Seq::empty()
                    },
                    color: if focused {
                        f
                    } else {
                        c
                    },
                    window_class: match d.window {
                        Some(w) => w.class@,
                        None => Seq::empty(),
                    },
                    reversed: seq![if ic.reversed {
                        'r'
                    } else {
                        ' '
                    }],
                },
            )
        },
        _ => None,
    }
}

/// The concatenation of the per-desktop template, filled in for each
/// desktop in the given order: one segment per desktop, or nothing as soon
/// as one desktop fails to render.
pub open spec fn spec_render_items(
    ds: Seq<crate::engine::Desk>,
    focused: u32,
    t: crate::icons::TableView,
) -> Option<Seq<char>>
    decreases ds.len(),
{
    if ds.len() == 0 {
        Some(Seq::empty())
    } else {
        match spec_vars(ds[0], ds[0].id == focused, t) {
            Some(vv) => match spec_subst(t.fmt, vv) {
                Some(item) => match spec_render_items(ds.drop_first(), focused, t) {
                    Some(rest) => Some(item + rest),
                    None => None,
                },
                None => None,
            },
            None => None,
        }
    }
}

/// A whole render: the before template verbatim, one filled per-desktop
/// segment per tracked desktop in order, then the after template verbatim.
pub open spec fn spec_render(
    ds: Seq<crate::engine::Desk>,
    focused: u32,
    t: crate::icons::TableView,
) -> Option<Seq<char>> {
    match spec_render_items(ds, focused, t) {
        Some(items) => Some(t.before + items + t.after),
        None => None,
    }
}

/// The placeholder values for one desktop, executable side.
fn vars_for(d: &crate::engine::Desk, focused: bool, icons: &crate::icons::Icons) -> (r: Option<
    Vars,
>)
    ensures
        match r {
            Some(vs) => spec_vars(*d, focused, icons@) == Some(vs@),
            None => spec_vars(*d, focused, icons@) is None,
        },
{
    let ic: &crate::icons::Icon = match &d.window {
        Some(w) => {
            match icons.get_icon(w.class.as_str(), w.title.as_str()) {
                Some(t) => t,
                None => icons.get_default(),
            }
        },
        None => icons.get_empty(),
    };
    let c0: String = match ic.get_color() {
        Some(c) => c.clone(),
        None => {
            match icons.get_default().get_color() {
                Some(c) => c.clone(),
                None => {
                    return None;
                },
            }
        },
    };
    let f0: String = match ic.get_fcolor() {
        Some(c) => c.clone(),
        None => {
            match icons.get_default().get_fcolor() {
                Some(c) => c.clone(),
                None => {
                    return None;
                },
            }
        },
    };
    let rev = ic.reversed_class() == 'r';
    let used = if focused {
        if rev {
            c0
        } else {
            f0
        }
    } else {
        if rev {
            f0
        } else {
            c0
        }
    };
    let mut glyph: Vec<char> = Vec::new();
    glyph.push(ic.get_glyph());
    let mut revmark: Vec<char> = Vec::new();
    revmark.push(ic.reversed_class());
    let vs = Vars {
        desktop: crate::text::chars_of(d.name.as_str()),
        icon: glyph,
        focused: if focused {
            crate::text::chars_of("focused")
        } else {
            Vec::new()
        },
        occupied: match &d.window {
            Some(_) => crate::text::chars_of("occupied"),
            None => Vec::new(),
        },
        color: crate::text::chars_of(used.as_str()),
        window_class: match &d.window {
            Some(w) => crate::text::chars_of(w.class.as_str()),
            None => Vec::new(),
        },
        reversed: revmark,
    };
    proof {
        assert(vs@.icon =~= spec_vars(*d, focused, icons@).unwrap().icon);
        assert(vs@.reversed =~= spec_vars(*d, focused, icons@).unwrap().reversed);
    }
    Some(vs)
}

/// Render the whole indicator line for the given desktops, focus and rule
/// table; nothing when a template does not substitute or a color cannot be
/// resolved.
pub fn render_icons(desks: &Vec<crate::engine::Desk>, focused: u32, icons: &crate::icons::Icons) -> (r:
    Option<String>)
    ensures
        match r {
            Some(s) => spec_render(desks@, focused, icons@) == Some(s@),
            None => spec_render(desks@, focused, icons@) is None,
        },
{
    let fmt = crate::text::chars_of(icons.get_fmt());
    let mut body: Vec<char> = Vec::new();
    let mut i: usize = 0;
    let ghost tv = icons@;
    proof {
        assert(desks@.skip(0) =~= desks@);
    }
    while i < desks.len()
        invariant
            i <= desks@.len(),
            tv == icons@,
            fmt@ == tv.fmt,
            spec_render_items(desks@, focused, tv) is Some <==> spec_render_items(
                desks@.skip(i as int),
                focused,
                tv,
            ) is Some,
            spec_render_items(desks@, focused, tv) is Some ==> spec_render_items(
                desks@,
                focused,
                tv,
            ).unwrap() == body@ + spec_render_items(desks@.skip(i as int), focused, tv).unwrap(),
        decreases desks@.len() - i,
    {
        proof {
            assert(desks@.skip(i as int)[0] == desks@[i as int]);
            assert(desks@.skip(i as int).drop_first() =~= desks@.skip(i as int + 1));
        }
        let d = &desks[i];
        let vs = match vars_for(d, d.id == focused, icons) {
            Some(vs) => vs,
            None => {
                return None;
            },
        };
        let item = match subst(&fmt, &vs) {
            Some(o) => o,
            None => {
                return None;
            },
        };
        crate::text::push_all(&mut body, &item);
        i = i + 1;
        proof {
            assert(spec_render_items(desks@, focused, tv) is Some ==> spec_render_items(
                desks@,
                focused,
                tv,
            ).unwrap() =~= body@ + spec_render_items(desks@.skip(i as int), focused, tv).unwrap());
        }
    }
    proof {
        assert(desks@.skip(i as int) =~= Seq::<crate::engine::Desk>::empty());
        assert(spec_render_items(desks@, focused, tv) is Some ==> spec_render_items(
            desks@,
            focused,
            tv,
        ).unwrap() =~= body@);
    }
    let mut out = crate::text::chars_of(icons.get_before());
    crate::text::push_all(&mut out, &body);
    let after = crate::text::chars_of(icons.get_after());
    crate::text::push_all(&mut out, &after);
    proof {
        assert(out@ =~= tv.before + body@ + tv.after);
    }
    Some(crate::text::string_from_chars(&out))
}

/// An empty desktop never consults the class/title rules: its icon is the
/// configured empty icon, and two tables that agree on the empty icon, the
/// default icon and the per-desktop template render it identically,
/// whatever their rules.
pub proof fn lemma_empty_ignores_rules(
    d: crate::engine::Desk,
    focused: bool,
    t1: crate::icons::TableView,
    t2: crate::icons::TableView,
)
    requires
        d.window is None,
        t1.empty == t2.empty,
        t1.dflt == t2.dflt,
        t1.fmt == t2.fmt,
    ensures
        spec_icon_for(d, t1) == t1.empty,
        spec_vars(d, focused, t1) == spec_vars(d, focused, t2),
        match spec_vars(d, focused, t1) {
            Some(vv) => spec_subst(t1.fmt, vv) == spec_subst(t2.fmt, vv),
            None => true,
        },
{
}

} // verus!
