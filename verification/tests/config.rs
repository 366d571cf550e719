use wsicons::config::{load_config, reload_table};
use wsicons::icons::Icons;

#[test]
fn class_rules_first_match_wins() {
    let text = "class \"firefox\" \u{e001}\nclass \".*\" \u{e002}\n";
    let icons = load_config(text).unwrap();
    let a = icons.get_icon("firefox", "whatever").unwrap();
    assert_eq!(a.get_glyph(), '\u{e001}');
    let b = icons.get_icon("other", "whatever").unwrap();
    assert_eq!(b.get_glyph(), '\u{e002}');
}

#[test]
fn rules_match_the_whole_string_only() {
    let text = "class \"term\" \u{e003}\n";
    let icons = load_config(text).unwrap();
    assert!(icons.get_icon("terminal", "t").is_none());
    assert!(icons.get_icon("term", "t").is_some());
}

#[test]
fn alternation_is_still_matched_whole_string() {
    let text = "class \"fire|water\" \u{e030}\n";
    let icons = load_config(text).unwrap();
    assert!(icons.get_icon("fire", "t").is_some());
    assert!(icons.get_icon("water", "t").is_some());
    assert!(icons.get_icon("firewood", "t").is_none());
    assert!(icons.get_icon("seawater", "t").is_none());
}

#[test]
fn title_rules_match_titles_not_classes() {
    let text = "title \"song.*\" \u{e004}\n";
    let icons = load_config(text).unwrap();
    assert!(icons.get_icon("song-player", "other").is_none());
    let hit = icons.get_icon("player", "song of the day").unwrap();
    assert_eq!(hit.get_glyph(), '\u{e004}');
}

#[test]
fn failed_reload_keeps_previous_table() {
    let mut table = load_config("class \"firefox\" \u{e005}\n").unwrap();
    let before = table.get_icon("firefox", "t").unwrap().get_glyph();
    let ok = reload_table(&mut table, "class \"firefox\" \u{e006}\nnonsense line\n");
    assert!(!ok);
    let after = table.get_icon("firefox", "t").unwrap().get_glyph();
    assert_eq!(before, after);
    assert_eq!(after, '\u{e005}');
}

#[test]
fn successful_reload_replaces_table() {
    let mut table = load_config("class \"firefox\" \u{e005}\n").unwrap();
    let ok = reload_table(&mut table, "class \"firefox\" \u{e006}\n");
    assert!(ok);
    assert_eq!(table.get_icon("firefox", "t").unwrap().get_glyph(), '\u{e006}');
}

#[test]
fn bad_regex_fails_the_load() {
    assert!(load_config("class \"[\" \u{e007}\n").is_err());
}

#[test]
fn unknown_keyword_fails_the_load() {
    assert!(load_config("garbage \u{e007}\n").is_err());
}

#[test]
fn missing_pattern_fails_the_load() {
    assert!(load_config("class \u{e007}\n").is_err());
}

#[test]
fn comments_and_blank_lines_are_ignored() {
    let text = "## a comment line\n\nclass \"x\" \u{e008} ## trailing comment\n";
    let icons = load_config(text).unwrap();
    assert_eq!(icons.get_icon("x", "t").unwrap().get_glyph(), '\u{e008}');
}

#[test]
fn colors_and_reversed_are_parsed() {
    let text = "class \"x\" \u{e009} color #ff0000 focused_color #00ff00 reversed\n";
    let icons = load_config(text).unwrap();
    let ic = icons.get_icon("x", "t").unwrap();
    assert_eq!(ic.get_color().as_deref(), Some("#ff0000"));
    assert_eq!(ic.get_fcolor().as_deref(), Some("#00ff00"));
    assert_eq!(ic.reversed_class(), 'r');
}

#[test]
fn default_and_empty_statements_overwrite_last_write_wins() {
    let text = "default \u{e00a}\ndefault \u{e00b} color #123\nempty \u{e00c}\n";
    let icons = load_config(text).unwrap();
    assert_eq!(icons.get_default().get_glyph(), '\u{e00b}');
    assert_eq!(icons.get_default().get_color().as_deref(), Some("#123"));
    assert_eq!(icons.get_empty().get_glyph(), '\u{e00c}');
}

#[test]
fn format_statements_set_templates() {
    let text = "before_fmt \"<<\"\nfmt \"{icon}\"\nafter_fmt \">>\"\n";
    let icons = load_config(text).unwrap();
    assert_eq!(icons.get_before(), "<<");
    assert_eq!(icons.get_fmt(), "{icon}");
    assert_eq!(icons.get_after(), ">>");
}

#[test]
fn escaped_quote_stays_in_the_pattern() {
    let text = "title \"a\\\"b\" \u{e00d}\n";
    let icons = load_config(text).unwrap();
    assert!(icons.get_icon("c", "a\"b").is_some());
    assert!(icons.get_icon("c", "ab").is_none());
}

#[test]
fn empty_text_loads_the_builtin_table() {
    let icons = load_config("").unwrap();
    assert_eq!(icons.get_before(), "[");
    assert_eq!(icons.get_fmt(), " {icon} ");
    assert_eq!(icons.get_after(), "]");
    assert!(icons.get_icon("anything", "t").is_none());
}

#[test]
fn default_table_matches_fresh_icons() {
    let fresh = Icons::new();
    let loaded = load_config("").unwrap();
    assert_eq!(fresh.get_before(), loaded.get_before());
    assert_eq!(fresh.get_default().get_glyph(), loaded.get_default().get_glyph());
}
