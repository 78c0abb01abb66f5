use glassbar::icon::{icon_line, quoted_icon_line, TrayIcon, GENERIC_TRAY_ICON};
use glassbar::notify::{Activation, Post, WM_NULL};
use glassbar::tray_mirror::{
    activate, button_line, button_text_units, count_line, data_line, diagnostics,
    find_tray_toolbar, focus_needed, icon_data_url, open_menu, parse_shown_button,
    parse_tray_data, poll_is_current, read_button_text, read_one_button, read_tray_icons,
    scan_step, search_class, search_parent, start, stop, ButtonReads, ScanAction, ScanEvent,
    ScanRun, SearchAction, SearchStage, TbButton, TrayData, TrayPoller,
};

fn text_bytes(s: &str) -> Vec<u8> {
    s.encode_utf16().flat_map(|u| u.to_le_bytes()).collect()
}

fn button_bytes(id: i32, state: u8, data: u64) -> Vec<u8> {
    let mut b = vec![0u8; 32];
    b[4..8].copy_from_slice(&id.to_le_bytes());
    b[8] = state;
    b[16..24].copy_from_slice(&data.to_le_bytes());
    b
}

fn data_bytes(hwnd: u64, uid: u32, cb: u32, state: u32, version: u32, hicon: u64) -> Vec<u8> {
    let mut b = vec![0u8; 32];
    b[0..8].copy_from_slice(&hwnd.to_le_bytes());
    b[8..12].copy_from_slice(&uid.to_le_bytes());
    b[12..16].copy_from_slice(&cb.to_le_bytes());
    b[16..20].copy_from_slice(&state.to_le_bytes());
    b[20..24].copy_from_slice(&version.to_le_bytes());
    b[24..32].copy_from_slice(&hicon.to_le_bytes());
    b
}

fn reads() -> ButtonReads {
    ButtonReads {
        button: Some(button_bytes(3, 4, 0x9000)),
        data: Some(data_bytes(0x100, 7, 0x401, 0, 4, 0x55)),
        text_len: 3,
        text: Some(text_bytes("Tip")),
        pid: 42,
        exe_path: "C:\\app.exe".to_string(),
        rendered: Some("data:x".to_string()),
        exe_icon: Some("data:exe".to_string()),
    }
}

fn failure(a: SearchAction) -> String {
    match a {
        SearchAction::Failed(e) => e,
        other => panic!("{other:?}"),
    }
}

fn next_stage(stage: SearchStage, found: Result<isize, String>) -> SearchStage {
    match find_tray_toolbar(stage, found) {
        SearchAction::Find(next) => next,
        other => panic!("{other:?}"),
    }
}

fn refused() -> Result<isize, String> {
    Err("gone".to_string())
}

#[test]
fn the_toolbar_is_found_in_the_pager() {
    let stage = next_stage(SearchStage::Shell, Ok(1));
    assert_eq!(stage, SearchStage::Notify { shell: 1 });
    let stage = next_stage(stage, Ok(2));
    assert_eq!(stage, SearchStage::Pager { notify: 2 });
    let stage = next_stage(stage, Ok(3));
    assert_eq!(stage, SearchStage::PagerToolbar { notify: 2, pager: 3 });
    assert!(matches!(find_tray_toolbar(stage, Ok(4)), SearchAction::Found(4)));
}

#[test]
fn the_toolbar_is_looked_for_without_a_pager_too() {
    let direct = SearchStage::Toolbar { notify: 2 };
    assert_eq!(next_stage(SearchStage::Pager { notify: 2 }, refused()), direct);
    let in_pager = SearchStage::PagerToolbar { notify: 2, pager: 3 };
    assert_eq!(next_stage(in_pager, refused()), direct);
    assert!(matches!(find_tray_toolbar(direct, Ok(9)), SearchAction::Found(9)));
}

#[test]
fn a_missing_toolbar_is_reported() {
    assert_eq!(
        failure(find_tray_toolbar(SearchStage::Shell, refused())),
        "Shell_TrayWnd not found: gone"
    );
    assert_eq!(
        failure(find_tray_toolbar(SearchStage::Notify { shell: 1 }, refused())),
        "TrayNotifyWnd not found: gone"
    );
    assert_eq!(
        failure(find_tray_toolbar(SearchStage::Toolbar { notify: 2 }, refused())),
        "tray ToolbarWindow32 not found: gone"
    );
}

#[test]
fn each_stage_names_what_it_looks_for() {
    let pager = SearchStage::PagerToolbar { notify: 2, pager: 3 };
    assert_eq!((search_parent(SearchStage::Shell), search_class(SearchStage::Shell)), (None, "Shell_TrayWnd"));
    let notify = SearchStage::Notify { shell: 1 };
    assert_eq!((search_parent(notify), search_class(notify)), (Some(1), "TrayNotifyWnd"));
    let in_notify = SearchStage::Pager { notify: 2 };
    assert_eq!((search_parent(in_notify), search_class(in_notify)), (Some(2), "SysPager"));
    assert_eq!((search_parent(pager), search_class(pager)), (Some(3), "ToolbarWindow32"));
    let direct = SearchStage::Toolbar { notify: 2 };
    assert_eq!((search_parent(direct), search_class(direct)), (Some(2), "ToolbarWindow32"));
}

#[test]
fn a_scan_goes_through_its_steps() {
    let mut run = ScanRun::new();
    assert!(matches!(scan_step(&mut run, ScanEvent::Toolbar(Ok(5))), ScanAction::ResolveOwner(5)));
    assert!(matches!(scan_step(&mut run, ScanEvent::Owner(12)), ScanAction::OpenProcess(12)));
    let opened = ScanEvent::Process { pid: 12, refused: None };
    assert!(matches!(scan_step(&mut run, opened), ScanAction::CountButtons));
    assert!(matches!(scan_step(&mut run, ScanEvent::Count(3)), ScanAction::AllocateScratch { count: 3 }));
    let ready = ScanEvent::Scratch { count: 3, allocated: true };
    assert!(matches!(scan_step(&mut run, ready), ScanAction::ReadButtons { count: 3 }));
    assert_eq!(run, ScanRun { process: true, scratch: true });
    assert!(matches!(scan_step(&mut run, ScanEvent::Count(0)), ScanAction::Empty));
    assert!(matches!(scan_step(&mut run, ScanEvent::Count(-1)), ScanAction::Empty));
}

fn scan_failure(event: ScanEvent) -> String {
    match scan_step(&mut ScanRun::new(), event) {
        ScanAction::Failed(e) => e,
        other => panic!("{other:?}"),
    }
}

#[test]
fn a_scan_names_each_failure() {
    assert_eq!(scan_failure(ScanEvent::Toolbar(refused())), "gone");
    assert_eq!(
        scan_failure(ScanEvent::Owner(0)),
        "could not resolve explorer pid for tray toolbar"
    );
    assert_eq!(
        scan_failure(ScanEvent::Process { pid: 77, refused: Some("denied".to_string()) }),
        "OpenProcess(explorer pid 77) failed: denied"
    );
    assert_eq!(
        scan_failure(ScanEvent::Scratch { count: 3, allocated: false }),
        "VirtualAllocEx in explorer failed"
    );
}

#[test]
fn buttons_are_read_at_their_offsets() {
    assert_eq!(
        parse_shown_button(&button_bytes(-2, 4, 0x9000)),
        Some(TbButton { id_command: -2, fs_state: 4, dw_data: 0x9000 })
    );
    assert_eq!(parse_shown_button(&button_bytes(1, 0x0c, 0x9000)), None);
    assert_eq!(parse_shown_button(&button_bytes(1, 4, 0)), None);
    assert_eq!(parse_shown_button(&[0; 31]), None);
}

#[test]
fn tray_data_is_read_at_its_offsets() {
    assert_eq!(
        parse_tray_data(&data_bytes(0x100, 7, 0x401, 2, 4, 0x55)),
        Some(TrayData { hwnd: 0x100, uid: 7, callback_msg: 0x401, dw_state: 2, u_version: 4, hicon: 0x55 })
    );
    assert_eq!(parse_tray_data(&[0; 31]), None);
}

#[test]
fn texts_are_read_up_to_their_length() {
    assert_eq!(button_text_units(-1), 0);
    assert_eq!(button_text_units(7), 7);
    assert_eq!(button_text_units(9999), 480);
    assert_eq!(read_button_text(3, &Some(text_bytes("Tip"))), "Tip");
    assert_eq!(read_button_text(0, &Some(text_bytes("Tip"))), "");
    assert_eq!(read_button_text(3, &None), "");
    assert_eq!(read_button_text(2, &Some(vec![0x3d, 0xd8, 0x00, 0xde])), "\u{1F600}");
    assert_eq!(read_button_text(1, &Some(vec![0x3d, 0xd8])), "\u{FFFD}");
}

#[test]
fn pictures_fall_back_step_by_step() {
    let x = Some("data:x".to_string());
    let exe = Some("data:exe".to_string());
    assert_eq!(icon_data_url(5, &x, "a.exe", &exe), "data:x");
    assert_eq!(icon_data_url(0, &x, "a.exe", &exe), "data:exe");
    assert_eq!(icon_data_url(5, &None, "a.exe", &exe), "data:exe");
    assert_eq!(icon_data_url(5, &None, "", &exe), GENERIC_TRAY_ICON);
    assert_eq!(icon_data_url(5, &None, "a.exe", &None), GENERIC_TRAY_ICON);
}

#[test]
fn a_button_becomes_an_icon() {
    let icon = read_one_button(&reads()).unwrap();
    assert_eq!(icon.id, "256:7");
    assert_eq!(icon.owner_hwnd, 0x100);
    assert_eq!((icon.uid, icon.callback_msg, icon.version, icon.pid), (7, 0x401, 4, 42));
    assert_eq!(icon.tooltip, "Tip");
    assert_eq!(icon.exe_path, "C:\\app.exe");
    assert_eq!(icon.icon, "data:x");
    let odd = ButtonReads { data: Some(data_bytes(0x100, 7, 0x401, 0, 9, 0x55)), ..reads() };
    assert_eq!(read_one_button(&odd).unwrap().version, 0);
}

#[test]
fn buttons_that_are_no_icons_are_skipped() {
    assert!(read_one_button(&ButtonReads { button: None, ..reads() }).is_none());
    assert!(read_one_button(&ButtonReads { data: None, ..reads() }).is_none());
    let hidden = ButtonReads { button: Some(button_bytes(1, 8, 1)), ..reads() };
    assert!(read_one_button(&hidden).is_none());
    let ownerless = ButtonReads { data: Some(data_bytes(0, 7, 1, 0, 4, 0)), ..reads() };
    assert!(read_one_button(&ownerless).is_none());
    let second = ButtonReads { data: Some(data_bytes(0x200, 1, 1, 0, 4, 0)), ..reads() };
    let icons = read_tray_icons(Ok(vec![reads(), hidden, second])).unwrap();
    let ids: Vec<String> = icons.into_iter().map(|i| i.id).collect();
    assert_eq!(ids, vec!["256:7", "512:1"]);
    assert_eq!(read_tray_icons(Err("down".to_string())).err(), Some("down".to_string()));
}

#[test]
fn mirrored_clicks_are_encoded() {
    match activate(0x100, 7, 0x401, 4, 5, 6) {
        Ok(Activation::Send(posts)) => {
            assert_eq!(posts, vec![Post { msg: 0x401, wparam: 0x6_0005, lparam: 0x7_0400 }])
        }
        other => panic!("{other:?}"),
    }
    assert!(matches!(activate(0x100, 7, 0, 4, 5, 6), Ok(Activation::Focus)));
    assert_eq!(
        activate(0, 7, 1, 4, 5, 6).err(),
        Some("tray_activate: null owner hwnd".to_string())
    );
    assert_eq!(
        open_menu(0x100, 7, 0x401, 4, 5, 6),
        Ok(vec![
            Post { msg: 0x401, wparam: 0x6_0005, lparam: 0x7_007B },
            Post { msg: WM_NULL, wparam: 0, lparam: 0 },
        ])
    );
    assert_eq!(
        open_menu(0, 7, 1, 4, 5, 6),
        Err("tray_open_menu: null owner hwnd".to_string())
    );
}

#[test]
fn a_legacy_click_needs_both_halves() {
    assert!(!focus_needed(4, &vec![true]));
    assert!(focus_needed(4, &vec![false]));
    assert!(!focus_needed(3, &vec![true, true]));
    assert!(focus_needed(3, &vec![true, false]));
    assert!(!focus_needed(0, &vec![true, false, false]));
    assert!(!focus_needed(0, &vec![false, true, true]));
    assert!(focus_needed(0, &vec![false, true, false]));
}

#[test]
fn polls_end_when_a_newer_one_begins() {
    let mut poller = TrayPoller::new();
    let first = start(&mut poller);
    assert!(poll_is_current(&poller, first));
    let second = start(&mut poller);
    assert!(!poll_is_current(&poller, first));
    assert!(poll_is_current(&poller, second));
    stop(&mut poller);
    assert!(!poll_is_current(&poller, second));
}

#[test]
fn scan_lines_are_readable() {
    assert_eq!(count_line(-1), "[tray] TB_BUTTONCOUNT = -1");
    let b = TbButton { id_command: -2, fs_state: 4, dw_data: 0xABC };
    assert_eq!(
        button_line(1, b, &[1, 2, 0xfe]),
        "[tray] #1 idCommand=-2 fsState=0x04 dwData=0xabc TRAYDATA raw=[0102fe]"
    );
    let d = TrayData { hwnd: -1, uid: 7, callback_msg: 0x401, dw_state: 2, u_version: 4, hicon: 0x55 };
    assert_eq!(
        data_line(1, d),
        "[tray] #1 parsed hwnd=0xffffffffffffffff uid=7 cb=0x401 state=0x2 ver=4 hicon=0x55"
    );
}

#[test]
fn mirror_diagnostics_dump_icons_or_the_failure() {
    let icon: TrayIcon = read_one_button(&reads()).unwrap();
    let line = icon_line("[tray]", &icon);
    assert_eq!(
        line,
        "[tray] icon id=256:7 hwnd=0x100 uid=7 cb=0x401 ver=4 pid=42 exe=C:\\app.exe \
         tooltip=\"Tip\" iconBytes=6"
    );
    assert_eq!(quoted_icon_line("[tray]", &icon, "\"Tip\""), line);
    let report = diagnostics(vec!["[tray] TB_BUTTONCOUNT = 1".to_string()], &Ok(vec![icon]));
    assert_eq!(
        report.lines,
        vec![
            "[tray] ===== tray_diagnostics begin =====".to_string(),
            "[tray] TB_BUTTONCOUNT = 1".to_string(),
            line,
            "[tray] ===== tray_diagnostics end (1 icons) =====".to_string(),
        ]
    );
    assert_eq!(
        report.summary,
        "tray_diagnostics: 1 icon(s) enumerated — raw TRAYDATA byte dumps written to debug.log"
    );
    let report = diagnostics(vec![], &Err("down".to_string()));
    assert_eq!(report.lines.len(), 2);
    assert_eq!(report.lines[1], "[tray] tray_diagnostics FAILED: down");
    assert_eq!(report.summary, "tray unavailable: down");
}
