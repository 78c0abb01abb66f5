use glassbar::switcher::{
    anchor_rotation, cancel, commit_current, commit_index, initial_index, is_open, open_session,
    pending_script, run, session_shown, set_index, step, step_index, thumbnails_wanted, Signal,
    Switcher, SwitcherAction, WindowInfo,
};

#[test]
fn initial_forward_picks_second() {
    assert_eq!(initial_index(1, 5), 1);
}

#[test]
fn initial_forward_single_window_picks_only() {
    assert_eq!(initial_index(1, 1), 0);
}

#[test]
fn initial_reverse_picks_last() {
    assert_eq!(initial_index(-1, 5), 4);
}

#[test]
fn step_wraps_forward() {
    assert_eq!(step_index(4, 1, 5), 0);
}

#[test]
fn step_wraps_backward() {
    assert_eq!(step_index(0, -1, 5), 4);
}

#[test]
fn step_multi_delta() {
    assert_eq!(step_index(0, 3, 5), 3);
    assert_eq!(step_index(1, -3, 5), 3);
}

#[test]
fn anchor_rotation_finds_foreground() {
    let ids = [100, 200, 300];
    assert_eq!(anchor_rotation(&ids, 100), Some(0));
    assert_eq!(anchor_rotation(&ids, 300), Some(2));
}

#[test]
fn anchor_rotation_absent_anchor_is_none() {
    let ids = [100, 200, 300];
    assert_eq!(anchor_rotation(&ids, 999), None);
}

#[test]
fn rotate_then_preselect_picks_window_after_foreground() {
    // Foreground at index 2; after rotate_left(2) it leads, and forward
    // pre-select (index 1) is the window that was right after it in Z-order.
    let mut ids = vec![10, 20, 30, 40];
    let pos = anchor_rotation(&ids, 30).unwrap();
    ids.rotate_left(pos);
    assert_eq!(ids, vec![30, 40, 10, 20]);
    assert_eq!(initial_index(1, ids.len()), 1); // -> id 40, the previous window
}

fn windows(ids: &[isize]) -> Option<Vec<WindowInfo>> {
    Some(
        ids.iter()
            .map(|&hwnd| WindowInfo {
                hwnd,
                title: format!("window {hwnd}"),
                exe_path: format!("app{hwnd}.exe"),
                minimized: hwnd == 20,
            })
            .collect(),
    )
}

fn open(ids: &[isize], dir: i32, anchor: isize) -> Switcher {
    let mut s = Switcher::new();
    let pending = open_session(&mut s, dir, anchor, windows(ids)).unwrap();
    assert!(session_shown(&mut s, pending, true));
    s
}

fn item_ids(s: &Switcher) -> Vec<i64> {
    s.session.as_ref().unwrap().items.iter().map(|it| it.id).collect()
}

#[test]
fn opening_turns_the_ring_to_the_foreground_window() {
    let s = open(&[10, 20, 30, 40], 1, 30);
    assert_eq!(item_ids(&s), vec![30, 40, 10, 20]);
    let session = s.session.as_ref().unwrap();
    assert_eq!(session.index, 1);
    assert_eq!(session.anchor, 30);
    assert_eq!(session.items[3].title, "window 20");
    assert_eq!(session.items[3].exe_path, "app20.exe");
    assert!(session.items[3].minimized);
    assert!(!session.items[0].minimized);
}

#[test]
fn opening_in_reverse_selects_the_last_window() {
    let s = open(&[10, 20, 30, 40], -1, 30);
    assert_eq!(s.session.as_ref().unwrap().index, 3);
}

#[test]
fn opening_without_a_known_foreground_selects_the_top() {
    let s = open(&[10, 20, 30], -1, 999);
    assert_eq!(item_ids(&s), vec![10, 20, 30]);
    assert_eq!(s.session.as_ref().unwrap().index, 0);
}

#[test]
fn nothing_opens_without_windows() {
    let mut s = Switcher::new();
    assert!(open_session(&mut s, 1, 10, Some(Vec::new())).is_none());
    assert!(open_session(&mut s, 1, 10, None).is_none());
    assert_eq!(s.generation, 0);
    assert!(!is_open(&s));
}

#[test]
fn a_ring_that_cannot_be_shown_leaves_no_session() {
    let mut s = Switcher::new();
    let pending = open_session(&mut s, 1, 10, windows(&[10])).unwrap();
    assert_eq!(pending.generation, 1);
    assert!(!session_shown(&mut s, pending, false));
    assert!(!is_open(&s));
    assert!(thumbnails_wanted(&s, 1));
}

#[test]
fn a_quick_tap_switches_to_the_previous_window() {
    let mut s = open(&[10, 20, 30], 1, 10);
    assert_eq!(commit_current(&mut s), Some(20));
    assert!(!is_open(&s));
    assert_eq!(commit_current(&mut s), None);
}

#[test]
fn one_window_is_focused_again() {
    let mut s = open(&[10], 1, 10);
    assert_eq!(commit_current(&mut s), Some(10));
}

#[test]
fn steps_go_around_and_back() {
    let mut s = open(&[10, 20, 30], 1, 10);
    assert_eq!(step(&mut s, 2), Some(0));
    assert_eq!(step(&mut s, -1), Some(2));
    assert_eq!(step(&mut s, 7), Some(0));
    assert_eq!(step(&mut s, -7), Some(2));
    let mut closed = Switcher::new();
    assert_eq!(step(&mut closed, 1), None);
}

#[test]
fn the_mouse_selects_only_what_is_there() {
    let mut s = open(&[10, 20, 30], 1, 10);
    assert_eq!(set_index(&mut s, 2), Some(2));
    assert_eq!(set_index(&mut s, 3), None);
    assert_eq!(s.session.as_ref().unwrap().index, 2);
    assert_eq!(commit_index(&mut s, 99), Some(30));
    let mut t = open(&[10, 20, 30], 1, 10);
    assert_eq!(commit_index(&mut t, 0), Some(10));
    assert_eq!(set_index(&mut t, 0), None);
}

#[test]
fn cancelling_returns_to_the_anchor() {
    let mut s = open(&[10, 20, 30], 1, 10);
    step(&mut s, 1);
    assert_eq!(cancel(&mut s), Some(10));
    assert!(!is_open(&s));
    assert_eq!(cancel(&mut s), None);
}

#[test]
fn signals_lead_to_actions() {
    let mut s = open(&[10, 20, 30], 1, 10);
    assert_eq!(run(&mut s, Signal::Step(0)), SwitcherAction::Nothing);
    assert_eq!(run(&mut s, Signal::Step(1)), SwitcherAction::Select(2));
    assert_eq!(run(&mut s, Signal::Cancel(false)), SwitcherAction::Nothing);
    assert_eq!(run(&mut s, Signal::Commit(false)), SwitcherAction::Nothing);
    assert_eq!(run(&mut s, Signal::AltDown(true)), SwitcherAction::Nothing);
    assert_eq!(run(&mut s, Signal::AltDown(false)), SwitcherAction::Close(Some(30)));
    assert_eq!(run(&mut s, Signal::AltDown(false)), SwitcherAction::Nothing);
    assert_eq!(run(&mut s, Signal::Commit(true)), SwitcherAction::Close(None));
    let mut t = open(&[10, 20, 30], 1, 10);
    assert_eq!(run(&mut t, Signal::Cancel(true)), SwitcherAction::Close(Some(10)));
    assert_eq!(run(&mut t, Signal::Step(1)), SwitcherAction::Nothing);
}

#[test]
fn newer_sessions_end_older_thumbnails() {
    let mut s = open(&[10, 20], 1, 10);
    assert!(thumbnails_wanted(&s, 1));
    let pending = open_session(&mut s, 1, 10, windows(&[10, 20])).unwrap();
    assert!(!thumbnails_wanted(&s, 1));
    assert!(thumbnails_wanted(&s, pending.generation));
}

#[test]
fn the_pending_script_holds_the_payload() {
    assert_eq!(
        pending_script("{\"a\":1}"),
        "window.__switcherPending = {\"a\":1}; window.__switcherApply && window.__switcherApply(window.__switcherPending);"
    );
}
