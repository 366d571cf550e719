use vstd::prelude::*;
use crate::icons::{default_table, Icons, TableView};
use crate::parser::{sp_line, stmt_ok, Lexer, ParseError, Parser, Stmt, StmtView};
use crate::text::{find_char, lemma_find_char};

verus! {

/// A line segment with one carriage return stripped from its end, as line
/// splitting does for lines that end in a carriage return and a line feed.
pub open spec fn strip_cr(l: Seq<char>) -> Seq<char> {
    if l.len() > 0 && l[l.len() - 1] == '\r' {
        l.drop_last()
    } else {
        l
    }
}

/// The lines of the text from position `i` on: split at line feeds, a
/// carriage return before a line feed dropped, and a final line ending
/// yielding no extra empty line.
pub open spec fn spec_lines_from(s: Seq<char>, i: int) -> Seq<Seq<char>>
    decreases s.len() - i,
    via spec_lines_from_dec
{
    if !(0 <= i < s.len()) {
        Seq::empty()
    } else {
        let k = find_char(s, i, '\n');
        if k >= s.len() {
            seq![s.subrange(i, s.len() as int)]
        } else {
            seq![strip_cr(s.subrange(i, k))] + spec_lines_from(s, k + 1)
        }
    }
}

#[via_fn]
proof fn spec_lines_from_dec(s: Seq<char>, i: int) {
    if 0 <= i < s.len() {
        lemma_find_char(s, i, '\n');
    }
}

/// The lines of a whole configuration text.
pub open spec fn spec_lines(s: Seq<char>) -> Seq<Seq<char>> {
    spec_lines_from(s, 0)
}

/// One statement applied to the table: icon rules are appended in order,
/// while the default icon, the empty icon and each template slot are
/// overwritten, last write winning; a blank line changes nothing.
pub open spec fn apply_stmt(t: TableView, sv: StmtView) -> TableView {
    match sv {
        StmtView::Class(_) => TableView { rules: t.rules.push(sv), ..t },
        StmtView::Title(_) => TableView { rules: t.rules.push(sv), ..t },
        StmtView::DefaultIcon(i) => TableView { dflt: i, ..t },
        StmtView::EmptyIcon(i) => TableView { empty: i, ..t },
        StmtView::FmtBefore(v) => TableView { before: v, ..t },
        StmtView::Fmt(v) => TableView { fmt: v, ..t },
        StmtView::FmtAfter(v) => TableView { after: v, ..t },
        StmtView::Blank => t,
    }
}

/// The table after the given lines, statement by statement, or nothing as
/// soon as one line fails to parse or carries a pattern that does not
/// compile: a single bad line discards the whole load.
pub open spec fn spec_load_from(t: TableView, lines: Seq<Seq<char>>) -> Option<TableView>
    decreases lines.len(),
{
    if lines.len() == 0 {
        Some(t)
    } else {
        match sp_line(lines[0]) {
            Some(sv) => if stmt_ok(sv) {
                spec_load_from(apply_stmt(t, sv), lines.drop_first())
            } else {
                None
            },
            None => None,
        }
    }
}

/// The table a whole configuration text loads to, starting from the
/// built-in table, or nothing when any of its lines is bad.
pub open spec fn spec_load(text: Seq<char>) -> Option<TableView> {
    spec_load_from(default_table(), spec_lines(text))
}

/// The text split into lines, exactly as the line-by-line loader walks
/// them.
fn split_lines(v: &Vec<char>) -> (r: Vec<String>)
    ensures
        r.deep_view() == spec_lines(v@),
{
    let mut out: Vec<String> = Vec::new();
    let mut pos: usize = 0;
    let n = v.len();
    proof {
        assert(out.deep_view() + spec_lines_from(v@, 0) =~= spec_lines(v@));
    }
    while pos < n
        invariant
            n == v@.len(),
            pos <= n,
            out.deep_view() + spec_lines_from(v@, pos as int) =~= spec_lines(v@),
        ensures
            n == v@.len(),
            pos == n,
            out.deep_view() + spec_lines_from(v@, pos as int) =~= spec_lines(v@),
        decreases n - pos,
    {
        let mut k: usize = pos;
        let mut seg: Vec<char> = Vec::new();
        while k < n && v[k] != '\n'
            invariant
                n == v@.len(),
                pos <= k <= n,
                forall|m: int| pos <= m < k ==> v@[m] != '\n',
                seg@ == v@.subrange(pos as int, k as int),
            decreases n - k,
        {
            seg.push(v[k]);
            k = k + 1;
            proof {
                assert(seg@ =~= v@.subrange(pos as int, k as int));
            }
        }
        proof {
            lemma_find_char(v@, pos as int, '\n');
            assert(find_char(v@, pos as int, '\n') == k as int) by {
                if find_char(v@, pos as int, '\n') < k as int {
                    assert(v@[find_char(v@, pos as int, '\n')] == '\n');
                }
            }
        }
        let ghost old_out = out.deep_view();
        if k == n {
            proof {
                assert(seg@ =~= v@.subrange(pos as int, n as int));
            }
            out.push(crate::text::string_from_chars(&seg));
            proof {
                assert(out.deep_view() =~= old_out.push(seg@));
                assert(out.deep_view() + spec_lines_from(v@, k as int) =~= spec_lines(v@));
            }
            pos = k;
            proof {
                assert(spec_lines_from(v@, pos as int) =~= Seq::<Seq<char>>::empty());
                assert(out.deep_view() + spec_lines_from(v@, pos as int) =~= spec_lines(v@));
            }
            break;
        } else {
            let stripped = if seg.len() > 0 && seg[seg.len() - 1] == '\r' {
                let mut s2 = seg;
                s2.pop();
                proof {
                    assert(s2@ =~= strip_cr(v@.subrange(pos as int, k as int)));
                }
                s2
            } else {
                proof {
                    assert(seg@ =~= strip_cr(v@.subrange(pos as int, k as int)));
                }
                seg
            };
            out.push(crate::text::string_from_chars(&stripped));
            pos = k + 1;
            proof {
                assert(out.deep_view() =~= old_out.push(stripped@));
                assert(out.deep_view() + spec_lines_from(v@, pos as int) =~= spec_lines(v@));
            }
        }
    }
    proof {
        assert(spec_lines_from(v@, pos as int) =~= Seq::<Seq<char>>::empty());
        assert(out.deep_view() + spec_lines_from(v@, pos as int) =~= out.deep_view());
        assert(out.deep_view() =~= spec_lines(v@));
    }
    out
}

/// Build a rule table from configuration text: every line is parsed and
/// applied in order, and the whole load fails on the first bad line.
pub fn load_config(text: &str) -> (r: Result<Icons, ParseError>)
    ensures
        r is Ok <==> spec_load(text@) is Some,
        r is Ok ==> r.unwrap()@ == spec_load(text@).unwrap(),
{
    let chars = crate::text::chars_of(text);
    let lines = split_lines(&chars);
    let ghost ls = spec_lines(text@);
    let mut icons = Icons::new();
    let lexer = Lexer::new();
    let mut parser = Parser::new(lexer);
    let mut i: usize = 0;
    proof {
        assert(ls.skip(0) =~= ls);
    }
    while i < lines.len()
        invariant
            lines.deep_view() == ls,
            i <= ls.len(),
            spec_load(text@) == spec_load_from(icons@, ls.skip(i as int)),
        decreases ls.len() - i,
    {
        proof {
            assert(ls.skip(i as int)[0] == ls[i as int]);
            assert(ls.skip(i as int).drop_first() =~= ls.skip(i as int + 1));
            assert(lines@[i as int]@ == ls[i as int]);
        }
        match parser.feed_next_line(lines[i].as_str()) {
            Ok(()) => {},
            Err(e) => {
                return Err(e);
            },
        }
        match parser.parse() {
            Ok(stmt) => {
                match stmt {
                    Stmt::DefaultIcon(ic) => icons.set_default(ic),
                    Stmt::EmptyIcon(ic) => icons.set_empty(ic),
                    Stmt::FmtBefore(f) => icons.set_before(f),
                    Stmt::Fmt(f) => icons.set_fmt(f),
                    Stmt::FmtAfter(f) => icons.set_after(f),
                    Stmt::Blank => {},
                    Stmt::Class(ic) => icons.set_icon(Stmt::Class(ic)),
                    Stmt::Title(ic) => icons.set_icon(Stmt::Title(ic)),
                }
            },
            Err(e) => {
                return Err(e);
            },
        }
        i = i + 1;
    }
    proof {
        assert(ls.skip(i as int) =~= Seq::<Seq<char>>::empty());
    }
    Ok(icons)
}

/// Reload the table from configuration text. On any failure the table is
/// left exactly as it was: a bad reload is discarded in full, and the
/// previous table stays authoritative.
pub fn reload_table(table: &mut Icons, text: &str) -> (ok: bool)
    ensures
        ok <==> spec_load(text@) is Some,
        ok ==> final(table)@ == spec_load(text@).unwrap(),
        !ok ==> *final(table) == *old(table),
{
    match load_config(text) {
        Ok(t) => {
            *table = t;
            true
        },
        Err(_) => false,
    }
}

} // verus!
