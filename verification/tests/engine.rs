use wsicons::engine::{Monitor, WmEvent};
use wsicons::window::KnownWindow;

fn win(class: &str, title: &str) -> KnownWindow {
    KnownWindow::new_known(class.to_string(), title.to_string())
}

fn tracked_two() -> Monitor {
    let mut m = Monitor::new();
    m.track(1, "one".to_string(), None);
    m.track(2, "two".to_string(), Some(win("init", "t")));
    m
}

#[test]
fn tracking_keeps_one_entry_per_desktop() {
    let mut m = tracked_two();
    assert_eq!(m.tracked_count(), 2);
    let events = vec![
        WmEvent::NodeAdd { desktop: 1, window: win("a", "b") },
        WmEvent::NodeAdd { desktop: 99, window: win("x", "y") },
        WmEvent::NodeRemove { desktop: 2, top: None },
        WmEvent::NodeRemove { desktop: 77, top: Some(win("q", "r")) },
        WmEvent::NodeTransfer { src: 1, src_top: None, dst: 55, window: win("m", "n") },
        WmEvent::DesktopFocus { desktop: 2 },
        WmEvent::NodeFocus { desktop: 44, window: win("z", "z") },
    ];
    for e in events {
        m.step(e);
    }
    assert_eq!(m.tracked_count(), 2);
    assert!(m.is_tracked(1));
    assert!(m.is_tracked(2));
    assert!(!m.is_tracked(99));
    assert!(!m.is_tracked(55));
}

#[test]
fn remove_then_add_matches_direct_add() {
    let mut a = tracked_two();
    let mut b = tracked_two();
    a.step(WmEvent::NodeRemove { desktop: 2, top: None });
    a.step(WmEvent::NodeAdd { desktop: 2, window: win("firefox", "page") });
    b.step(WmEvent::NodeAdd { desktop: 2, window: win("firefox", "page") });
    let wa = a.window_of(2).unwrap().as_ref().unwrap();
    let wb = b.window_of(2).unwrap().as_ref().unwrap();
    assert_eq!(wa.class, wb.class);
    assert_eq!(wa.title, wb.title);
    assert_eq!(wa.class, "firefox");
    assert_eq!(a.focused_id(), b.focused_id());
}

#[test]
fn untracked_focus_leaves_focus_unchanged() {
    let mut m = tracked_two();
    assert_eq!(m.focused_id(), 1);
    m.step(WmEvent::DesktopFocus { desktop: 2 });
    assert_eq!(m.focused_id(), 2);
    m.step(WmEvent::DesktopFocus { desktop: 99 });
    assert_eq!(m.focused_id(), 2);
}

#[test]
fn first_tracked_desktop_takes_initial_focus() {
    let mut m = Monitor::new();
    assert_eq!(m.focused_id(), 0);
    m.track(7, "seven".to_string(), None);
    m.track(3, "three".to_string(), None);
    assert_eq!(m.focused_id(), 7);
}

#[test]
fn node_events_update_tracked_window() {
    let mut m = tracked_two();
    m.step(WmEvent::NodeAdd { desktop: 1, window: win("term", "sh") });
    assert_eq!(m.window_of(1).unwrap().as_ref().unwrap().class, "term");
    m.step(WmEvent::NodeFocus { desktop: 1, window: win("editor", "f") });
    assert_eq!(m.window_of(1).unwrap().as_ref().unwrap().class, "editor");
    m.step(WmEvent::NodeRemove { desktop: 1, top: None });
    assert!(m.window_of(1).unwrap().is_none());
    m.step(
        WmEvent::NodeTransfer { src: 2, src_top: None, dst: 1, window: win("moved", "w") },
    );
    assert_eq!(m.window_of(1).unwrap().as_ref().unwrap().class, "moved");
    assert!(m.window_of(2).unwrap().is_none());
}

#[test]
fn untracked_node_events_change_nothing() {
    let mut m = tracked_two();
    m.step(WmEvent::NodeAdd { desktop: 50, window: win("a", "b") });
    assert!(m.window_of(50).is_none());
    assert!(m.window_of(1).unwrap().is_none());
    assert_eq!(m.window_of(2).unwrap().as_ref().unwrap().class, "init");
}

#[test]
fn tracking_same_desktop_twice_replaces_entry() {
    let mut m = Monitor::new();
    m.track(4, "four".to_string(), None);
    m.track(4, "four".to_string(), Some(win("c", "t")));
    assert_eq!(m.tracked_count(), 1);
    assert_eq!(m.window_of(4).unwrap().as_ref().unwrap().class, "c");
}
