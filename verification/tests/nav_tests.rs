use file_panes::nav::{Action, Focus, Key, NavState, Pending};
use file_panes::pane::PaneState;

fn strings(names: &[&str]) -> Vec<String> {
    names.iter().map(|n| n.to_string()).collect()
}

fn home_state() -> NavState {
    NavState::new(
        "/home/alice".to_string(),
        strings(&["docs", "file.txt"]),
        strings(&["docs", "file.txt"]),
    )
}

#[test]
fn startup_roots_both_panes_at_home() {
    let nav = home_state();
    assert_eq!(nav.left.current_path, "/home/alice");
    assert_eq!(nav.right.current_path, "/home/alice");
    assert_eq!(nav.left.selected_index, Some(0));
    assert_eq!(nav.right.selected_index, Some(0));
    assert_eq!(nav.focus, Focus::Left);
}

#[test]
fn startup_with_empty_listing_selects_nothing() {
    let nav = NavState::new("/home/alice".to_string(), Vec::new(), Vec::new());
    assert_eq!(nav.left.selected_index, None);
    assert_eq!(nav.right.selected_index, None);
}

#[test]
fn tab_flips_focus_and_keeps_selection_then_escape_quits() {
    let mut nav = home_state();
    let a = nav.step(Key::Tab);
    assert_eq!(a, Action::Continue);
    assert_eq!(nav.focus, Focus::Right);
    assert_eq!(nav.left.selected_index, Some(0));
    assert_eq!(nav.left.current_path, "/home/alice");
    let before = nav.clone();
    let a = nav.step(Key::Esc);
    assert_eq!(a, Action::Quit);
    assert_eq!(nav, before);
}

#[test]
fn only_the_focused_pane_is_highlighted() {
    let mut nav = home_state();
    assert_eq!(nav.highlight_index(Focus::Left), Some(0));
    assert_eq!(nav.highlight_index(Focus::Right), None);
    nav.step(Key::Tab);
    assert_eq!(nav.highlight_index(Focus::Left), None);
    assert_eq!(nav.highlight_index(Focus::Right), Some(0));
}

#[test]
fn down_and_up_move_the_selection() {
    let mut nav = home_state();
    assert_eq!(nav.step(Key::Down), Action::Continue);
    assert_eq!(nav.left.selected_index, Some(1));
    assert_eq!(nav.step(Key::Up), Action::Continue);
    assert_eq!(nav.left.selected_index, Some(0));
}

#[test]
fn up_at_top_is_a_noop() {
    let mut nav = home_state();
    let before = nav.clone();
    assert_eq!(nav.step(Key::Up), Action::Continue);
    assert_eq!(nav, before);
}

#[test]
fn down_at_last_entry_is_a_noop() {
    let mut nav = home_state();
    nav.step(Key::Down);
    let before = nav.clone();
    assert_eq!(nav.step(Key::Down), Action::Continue);
    assert_eq!(nav, before);
}

#[test]
fn up_down_enter_on_empty_listing_are_noops() {
    let mut nav = NavState::new("/home/alice".to_string(), Vec::new(), Vec::new());
    let before = nav.clone();
    assert_eq!(nav.step(Key::Up), Action::Continue);
    assert_eq!(nav.step(Key::Down), Action::Continue);
    assert_eq!(nav.step(Key::Enter), Action::Continue);
    assert_eq!(nav, before);
}

#[test]
fn unrecognised_key_is_a_noop() {
    let mut nav = home_state();
    let before = nav.clone();
    assert_eq!(nav.step(Key::Other), Action::Continue);
    assert_eq!(nav, before);
}

#[test]
fn enter_on_a_file_is_a_noop() {
    let mut nav = home_state();
    nav.step(Key::Down);
    let before = nav.clone();
    let a = nav.step(Key::Enter);
    assert_eq!(a, Action::ProbeDir("/home/alice/file.txt".to_string()));
    nav.resolve(false, Vec::new());
    let mut expected = before;
    expected.pending = Pending::Idle;
    assert_eq!(nav, expected);
}

#[test]
fn enter_on_a_directory_descends() {
    let mut nav = home_state();
    let a = nav.step(Key::Enter);
    assert_eq!(a, Action::ProbeDir("/home/alice/docs".to_string()));
    nav.resolve(true, strings(&["reports"]));
    assert_eq!(nav.left.current_path, "/home/alice/docs");
    assert_eq!(nav.left.entries, strings(&["reports"]));
    assert_eq!(nav.left.selected_index, Some(0));
    assert_eq!(nav.right.current_path, "/home/alice");

    let a = nav.step(Key::Enter);
    assert_eq!(a, Action::ProbeDir("/home/alice/docs/reports".to_string()));
    nav.resolve(true, Vec::new());
    assert_eq!(nav.left.current_path, "/home/alice/docs/reports");
    assert_eq!(nav.left.entries, Vec::<String>::new());
    assert_eq!(nav.left.selected_index, None);
}

#[test]
fn enter_acts_on_the_focused_pane_only() {
    let mut nav = home_state();
    nav.step(Key::Tab);
    let a = nav.step(Key::Enter);
    assert_eq!(a, Action::ProbeDir("/home/alice/docs".to_string()));
    nav.resolve(true, strings(&["reports"]));
    assert_eq!(nav.right.current_path, "/home/alice/docs");
    assert_eq!(nav.left.current_path, "/home/alice");
}

#[test]
fn backspace_at_the_home_boundary_is_a_noop() {
    let mut nav = home_state();
    let before = nav.clone();
    assert_eq!(nav.step(Key::Backspace), Action::Continue);
    assert_eq!(nav, before);
}

#[test]
fn backspace_returns_to_the_parent_inside_home() {
    let mut nav = home_state();
    nav.step(Key::Enter);
    nav.resolve(true, strings(&["reports"]));
    assert_eq!(nav.left.current_path, "/home/alice/docs");
    let a = nav.step(Key::Backspace);
    assert_eq!(a, Action::ReadDir("/home/alice".to_string()));
    nav.resolve(true, strings(&["docs", "file.txt"]));
    assert_eq!(nav.left.current_path, "/home/alice");
    assert_eq!(nav.left.selected_index, Some(0));
}

#[test]
fn backspace_at_the_root_is_a_noop() {
    let mut nav = NavState::new("/".to_string(), strings(&["etc"]), Vec::new());
    let before = nav.clone();
    assert_eq!(nav.step(Key::Backspace), Action::Continue);
    assert_eq!(nav, before);
}

#[test]
fn backspace_follows_the_guard_lexicographically() {
    // The guard compares whole path strings: "/home/bob" sorts after
    // "/home/alice", so ascending out of a sibling of home is allowed.
    let left = PaneState {
        current_path: "/home/bob/music".to_string(),
        entries: strings(&["a.ogg"]),
        selected_index: Some(0),
    };
    let right = PaneState {
        current_path: "/home/alice".to_string(),
        entries: Vec::new(),
        selected_index: None,
    };
    let mut nav = NavState {
        left,
        right,
        focus: Focus::Left,
        home: "/home/alice".to_string(),
        pending: Pending::Idle,
    };
    let a = nav.step(Key::Backspace);
    assert_eq!(a, Action::ReadDir("/home/bob".to_string()));
    nav.resolve(true, Vec::new());
    assert_eq!(nav.left.current_path, "/home/bob");
    // ... but "/home" sorts before "/home/alice" and is not the root,
    // so the next ascent is refused.
    let before = nav.clone();
    assert_eq!(nav.step(Key::Backspace), Action::Continue);
    assert_eq!(nav, before);
}
