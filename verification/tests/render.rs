use wsicons::config::load_config;
use wsicons::engine::Desk;
use wsicons::icons::{Icon, Icons};
use wsicons::window::{class_from_reply, render_icons, KnownWindow};

fn desk(id: u32, name: &str, window: Option<KnownWindow>) -> Desk {
    Desk { id, name: name.to_string(), window }
}

fn win(class: &str, title: &str) -> KnownWindow {
    KnownWindow::new_known(class.to_string(), title.to_string())
}

#[test]
fn round_trip_renders_exactly() {
    let mut icons = Icons::new();
    icons.set_before("<".to_string());
    icons.set_fmt("{desktop}:{icon} ".to_string());
    icons.set_after(">".to_string());
    let rule = Icon::new('*', "X", None, None, false).unwrap();
    icons.set_icon(wsicons::parser::Stmt::Class(rule));
    let desks = vec![desk(1, "1", Some(win("X", "Y")))];
    let out = render_icons(&desks, 1, &icons).unwrap();
    assert_eq!(out, "<1:* >");
}

#[test]
fn one_segment_per_desktop_in_order() {
    let mut icons = Icons::new();
    icons.set_before("".to_string());
    icons.set_fmt("[{desktop}]".to_string());
    icons.set_after("".to_string());
    let desks = vec![desk(1, "a", None), desk(2, "b", None), desk(3, "c", None)];
    assert_eq!(render_icons(&desks, 2, &icons).unwrap(), "[a][b][c]");
}

#[test]
fn empty_desktop_uses_empty_icon_even_if_a_rule_matches_empty() {
    let text = "empty \u{e010}\nclass \"\" \u{e011}\nclass \".*\" \u{e012}\nfmt \"{icon}\"\nbefore_fmt \"\"\nafter_fmt \"\"\n";
    let icons = load_config(text).unwrap();
    let desks = vec![desk(1, "1", None)];
    assert_eq!(render_icons(&desks, 1, &icons).unwrap(), "\u{e010}");
}

#[test]
fn focused_and_occupied_markers() {
    let mut icons = Icons::new();
    icons.set_before("".to_string());
    icons.set_fmt("({focused}|{occupied})".to_string());
    icons.set_after("".to_string());
    let desks = vec![desk(1, "1", Some(win("c", "t"))), desk(2, "2", None)];
    assert_eq!(render_icons(&desks, 1, &icons).unwrap(), "(focused|occupied)(|)");
}

#[test]
fn color_swaps_for_reversed_rule_on_focused_desktop() {
    let text = "default \u{e013} color #def focused_color #fde\nclass \"x\" \u{e014} color #aaa focused_color #bbb reversed\nbefore_fmt \"\"\nafter_fmt \"\"\nfmt \"{color}\"\n";
    let icons = load_config(text).unwrap();
    let occupied = vec![desk(1, "1", Some(win("x", "t")))];
    // focused + reversed: the normal color is shown where the focused one would be
    assert_eq!(render_icons(&occupied, 1, &icons).unwrap(), "#aaa");
    // unfocused + reversed: the focused color is shown
    assert_eq!(render_icons(&occupied, 9, &icons).unwrap(), "#bbb");
}

#[test]
fn rule_without_color_inherits_current_default() {
    let text = "default \u{e015} color #111 focused_color #222\nclass \"x\" \u{e016}\nbefore_fmt \"\"\nafter_fmt \"\"\nfmt \"{color}\"\n";
    let icons = load_config(text).unwrap();
    let desks = vec![desk(1, "1", Some(win("x", "t")))];
    assert_eq!(render_icons(&desks, 9, &icons).unwrap(), "#111");
    assert_eq!(render_icons(&desks, 1, &icons).unwrap(), "#222");
}

#[test]
fn window_class_and_reversed_placeholders() {
    let text = "class \"brave\" \u{e017} reversed\nbefore_fmt \"\"\nafter_fmt \"\"\nfmt \"{window_class}{reversed}\"\n";
    let icons = load_config(text).unwrap();
    let desks = vec![desk(1, "1", Some(win("brave", "t")))];
    assert_eq!(render_icons(&desks, 9, &icons).unwrap(), "braver");
    let empty = vec![desk(1, "1", None)];
    assert_eq!(render_icons(&empty, 9, &icons).unwrap(), " ");
}

#[test]
fn doubled_braces_render_literal_braces() {
    let mut icons = Icons::new();
    icons.set_before("".to_string());
    icons.set_fmt("{{{desktop}}}".to_string());
    icons.set_after("".to_string());
    let desks = vec![desk(1, "d", None)];
    assert_eq!(render_icons(&desks, 1, &icons).unwrap(), "{d}");
}

#[test]
fn unknown_placeholder_fails_the_render() {
    let mut icons = Icons::new();
    icons.set_fmt("{nonsense}".to_string());
    let desks = vec![desk(1, "1", None)];
    assert!(render_icons(&desks, 1, &icons).is_none());
}

#[test]
fn unterminated_placeholder_fails_the_render() {
    let mut icons = Icons::new();
    icons.set_fmt("{desktop".to_string());
    let desks = vec![desk(1, "1", None)];
    assert!(render_icons(&desks, 1, &icons).is_none());
}

#[test]
fn unmatched_rule_falls_back_to_default_icon() {
    let text = "default \u{e018} color #000 focused_color #000\nclass \"x\" \u{e019}\nbefore_fmt \"\"\nafter_fmt \"\"\nfmt \"{icon}\"\n";
    let icons = load_config(text).unwrap();
    let desks = vec![desk(1, "1", Some(win("y", "t")))];
    assert_eq!(render_icons(&desks, 1, &icons).unwrap(), "\u{e018}");
}

#[test]
fn class_reply_decodes_second_field() {
    assert_eq!(class_from_reply("instance\0Navigator\0rest"), "Navigator");
    assert_eq!(class_from_reply("instance\0Navigator"), "Navigator");
    assert_eq!(class_from_reply("lonely\0"), "");
    assert_eq!(class_from_reply("no-separator"), "sus");
}
