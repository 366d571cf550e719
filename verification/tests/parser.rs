use wsicons::parser::{Lexer, Parser, Stmt};

fn parse_line(line: &str) -> Result<Stmt, wsicons::parser::ParseError> {
    let lexer = Lexer::new();
    let mut parser = Parser::new(lexer);
    parser.feed_next_line(line)?;
    parser.parse()
}

#[test]
fn each_statement_kind_parses() {
    assert!(matches!(parse_line("class \"a\" \u{e020}"), Ok(Stmt::Class(_))));
    assert!(matches!(parse_line("title \"a\" \u{e020}"), Ok(Stmt::Title(_))));
    assert!(matches!(parse_line("default \u{e020}"), Ok(Stmt::DefaultIcon(_))));
    assert!(matches!(parse_line("empty \u{e020}"), Ok(Stmt::EmptyIcon(_))));
    assert!(matches!(parse_line("before_fmt \"b\""), Ok(Stmt::FmtBefore(s)) if s == "b"));
    assert!(matches!(parse_line("fmt \"f\""), Ok(Stmt::Fmt(s)) if s == "f"));
    assert!(matches!(parse_line("after_fmt \"a\""), Ok(Stmt::FmtAfter(s)) if s == "a"));
    assert!(matches!(parse_line(""), Ok(Stmt::Blank)));
    assert!(matches!(parse_line("   "), Ok(Stmt::Blank)));
    assert!(matches!(parse_line("## only a comment"), Ok(Stmt::Blank)));
}

#[test]
fn unknown_leading_token_is_an_error() {
    assert!(parse_line("frobnicate \u{e021}").is_err());
    assert!(parse_line("\"just a string\"").is_err());
    assert!(parse_line("#abc").is_err());
}

#[test]
fn statement_pieces_out_of_order_are_errors() {
    assert!(parse_line("class \u{e022} \"pattern-after-glyph\"").is_err());
    assert!(parse_line("class \"a\" \u{e022} color").is_err());
    assert!(parse_line("before_fmt \u{e022}").is_err());
}

#[test]
fn bad_pattern_is_rejected_at_parse_time() {
    assert!(parse_line("class \"(\" \u{e023}").is_err());
}

#[test]
fn quote_after_escaped_backslash_closes_the_string() {
    // the backslash pair is one escaped backslash; the quote after it is
    // unescaped and ends the string
    match parse_line("fmt \"a\\\\\"") {
        Ok(Stmt::Fmt(s)) => assert_eq!(s, "a\\"),
        _ => panic!("expected a fmt statement"),
    }
}

#[test]
fn escapes_in_strings() {
    match parse_line("fmt \"a\\\\b\\\"c\"") {
        Ok(Stmt::Fmt(s)) => assert_eq!(s, "a\\b\"c"),
        _ => panic!("expected a fmt statement"),
    }
}
