use glassbar::icon::{make_id, GENERIC_TRAY_ICON};
use glassbar::notify::{
    activate_messages, focus_needed, loword_hiword, make_lparam, menu_messages, Activation, Post,
    NIN_SELECT, WM_CONTEXTMENU, WM_LBUTTONDOWN, WM_LBUTTONUP, WM_NULL, WM_RBUTTONDOWN,
    WM_RBUTTONUP,
};
use glassbar::registry::{
    handle_from, handle_tray_copydata, lookup_request, mark_changed, parse_command, remove_entry,
    set_version, store_last_raw, upsert, Lookup, TrayCommand, TrayHost, NID_HICON, NID_HWND,
    NID_SZTIP, NID_UCALLBACK, NID_UFLAGS, NID_UID, NID_UVERSION, NIF_ICON, NIF_MESSAGE, NIF_TIP,
    NIM_ADD, NIM_DELETE, NIM_MODIFY, NIM_SETVERSION, OFF_DWMESSAGE, SZTIP_CHARS,
};
use glassbar::tray_host::{
    activate, diagnostics, emitter_due, fallback_work, host_hwnd, host_running, host_thread,
    open_menu, resolve, shutdown, shutdown_waits, snapshot, window_reply, wndproc, CopyData,
    FallbackResult, HostAction, HostEvent, WindowAction, WM_COPYDATA, WM_DESTROY,
    WM_TRAYHOST_SHUTDOWN,
};
use glassbar::wire::{read_u32, read_u64, read_wstr};

/// Build a synthetic SHELLTRAYDATA buffer with known values at the
/// documented 64-bit offsets. Tooltip is a non-PII placeholder.
fn make_buf(
    msg: u32,
    hwnd: u64,
    uid: u32,
    flags: u32,
    cb: u32,
    hicon: u64,
    tip: &str,
    ver: u32,
) -> Vec<u8> {
    let mut b = vec![0u8; 1484];
    b[OFF_DWMESSAGE..OFF_DWMESSAGE + 4].copy_from_slice(&msg.to_le_bytes());
    b[NID_HWND..NID_HWND + 8].copy_from_slice(&hwnd.to_le_bytes());
    b[NID_UID..NID_UID + 4].copy_from_slice(&uid.to_le_bytes());
    b[NID_UFLAGS..NID_UFLAGS + 4].copy_from_slice(&flags.to_le_bytes());
    b[NID_UCALLBACK..NID_UCALLBACK + 4].copy_from_slice(&cb.to_le_bytes());
    b[NID_HICON..NID_HICON + 8].copy_from_slice(&hicon.to_le_bytes());
    for (i, c) in tip.encode_utf16().enumerate() {
        let o = NID_SZTIP + i * 2;
        b[o..o + 2].copy_from_slice(&c.to_le_bytes());
    }
    b[NID_UVERSION..NID_UVERSION + 4].copy_from_slice(&ver.to_le_bytes());
    b
}

#[test]
fn parses_documented_offsets() {
    let buf = make_buf(
        NIM_ADD,
        0x0000_0001_2345_6789,
        7,
        NIF_MESSAGE | NIF_ICON | NIF_TIP,
        0x401,
        0xDEAD_BEEF,
        "TestTip",
        4,
    );
    assert_eq!(read_u32(&buf, OFF_DWMESSAGE), Some(NIM_ADD));
    assert_eq!(read_u64(&buf, NID_HWND), Some(0x0000_0001_2345_6789));
    assert_eq!(read_u32(&buf, NID_UID), Some(7));
    assert_eq!(
        read_u32(&buf, NID_UFLAGS),
        Some(NIF_MESSAGE | NIF_ICON | NIF_TIP)
    );
    assert_eq!(read_u32(&buf, NID_UCALLBACK), Some(0x401));
    assert_eq!(read_u64(&buf, NID_HICON), Some(0xDEAD_BEEF));
    assert_eq!(read_wstr(&buf, NID_SZTIP, SZTIP_CHARS), "TestTip");
    assert_eq!(read_u32(&buf, NID_UVERSION), Some(4));
}

#[test]
fn readers_are_bounds_checked() {
    let small = vec![0u8; 10];
    assert_eq!(read_u32(&small, 8), None); // would need bytes 8..12
    assert_eq!(read_u64(&small, 4), None); // would need bytes 4..12
    assert_eq!(read_wstr(&small, 8, 128), ""); // truncates safely
}

#[test]
fn id_formatting_is_stable() {
    assert_eq!(make_id(0x1234, 7), "4660:7");
    assert_eq!(make_id(0, 0), "0:0");
}

#[test]
fn loword_hiword_packs_correctly() {
    assert_eq!(loword_hiword(0x0400, 7), 0x0007_0400);
    assert_eq!(loword_hiword(0, 0), 0);
    assert_eq!(loword_hiword(0xFFFF, 0xFFFF), 0xFFFF_FFFF);
}

#[test]
fn activate_v4_sends_single_select() {
    let msgs = activate_messages(4, 100, 200, 7);
    assert_eq!(msgs.len(), 1);
    assert_eq!(
        msgs[0],
        (
            loword_hiword(100, 200) as usize,
            loword_hiword(NIN_SELECT as u16, 7)
        )
    );
}

#[test]
fn activate_legacy_sends_down_up() {
    let msgs = activate_messages(3, 0, 0, 7);
    assert_eq!(
        msgs,
        vec![(7usize, WM_LBUTTONDOWN), (7usize, WM_LBUTTONUP)]
    );
}

#[test]
fn activate_unknown_sends_both() {
    // version 0 (unknown) → v4 packing + legacy down/up = 3 messages.
    let msgs = activate_messages(0, 5, 6, 9);
    assert_eq!(msgs.len(), 3);
    assert_eq!(msgs[0].0, loword_hiword(5, 6) as usize);
    assert_eq!(msgs[1], (9usize, WM_LBUTTONDOWN));
    assert_eq!(msgs[2], (9usize, WM_LBUTTONUP));
}

#[test]
fn menu_v4_uses_contextmenu() {
    let msgs = menu_messages(4, 10, 20, 3);
    assert_eq!(msgs.len(), 1);
    assert_eq!(msgs[0].1, loword_hiword(WM_CONTEXTMENU as u16, 3));
}

#[test]
fn menu_legacy_uses_rbutton() {
    let msgs = menu_messages(3, 0, 0, 3);
    assert_eq!(
        msgs,
        vec![(3usize, WM_RBUTTONDOWN), (3usize, WM_RBUTTONUP)]
    );
}

fn lookup(rendered: Option<&str>) -> Lookup {
    Lookup {
        rendered: rendered.map(|s| s.to_string()),
        pid: 42,
        exe_path: "C:\\app.exe".to_string(),
    }
}

const ALL: u32 = NIF_MESSAGE | NIF_ICON | NIF_TIP;

fn host_with_icon() -> TrayHost {
    let mut host = TrayHost::new();
    let buf = make_buf(NIM_ADD, 0x100, 7, ALL, 0x401, 0x55, "Tip", 0);
    handle_tray_copydata(&mut host, &buf, lookup(Some("data:x")), 1000);
    host
}

#[test]
fn negative_and_large_cursor_positions_keep_their_low_words() {
    let msgs = activate_messages(4, -1, 0x1_0002, 0x1_0007);
    assert_eq!(msgs, vec![(0x0002_FFFF, loword_hiword(NIN_SELECT as u16, 7))]);
    assert_eq!(make_lparam(0xFFFF_007B), -65413);
    assert_eq!(make_lparam(0x7FFF_FFFF), 0x7FFF_FFFF);
}

#[test]
fn an_added_icon_is_listed() {
    let mut host = host_with_icon();
    let icons = snapshot(&mut host, &vec![]);
    assert_eq!(icons.len(), 1);
    assert_eq!(icons[0].id, "256:7");
    assert_eq!(icons[0].owner_hwnd, 0x100);
    assert_eq!(icons[0].uid, 7);
    assert_eq!(icons[0].callback_msg, 0x401);
    assert_eq!(icons[0].version, 0);
    assert_eq!(icons[0].tooltip, "Tip");
    assert_eq!(icons[0].exe_path, "C:\\app.exe");
    assert_eq!(icons[0].pid, 42);
    assert_eq!(icons[0].icon, "data:x");
    assert_eq!(host.change_seq, 1);
    assert_eq!(host.last_change_ms, 1000);
    assert_eq!(host.last_cbdata, 1484);
    assert_eq!(host.last_raw.len(), 1024);
}

#[test]
fn unflagged_fields_stay() {
    let mut host = host_with_icon();
    let buf = make_buf(NIM_MODIFY, 0x100, 7, NIF_TIP, 0x999, 0x66, "New", 0);
    handle_tray_copydata(&mut host, &buf, lookup(Some("data:y")), 2000);
    assert_eq!(host.entries.len(), 1);
    let e = &host.entries[0];
    assert_eq!((e.callback_msg, e.tip.as_str(), e.icon_url.as_str()), (0x401, "New", "data:x"));
    assert_eq!(host.change_seq, 2);
}

#[test]
fn an_icon_that_does_not_render_keeps_the_old_picture() {
    let mut host = host_with_icon();
    let buf = make_buf(NIM_MODIFY, 0x100, 7, NIF_ICON, 0, 0x66, "", 0);
    handle_tray_copydata(&mut host, &buf, lookup(None), 2000);
    assert_eq!(host.entries[0].icon_url, "data:x");
    assert!(host.entries[0].needs_exe_icon);
    let buf = make_buf(NIM_MODIFY, 0x100, 7, NIF_ICON, 0, 0x66, "", 0);
    handle_tray_copydata(&mut host, &buf, lookup(Some("data:z")), 2001);
    assert_eq!(host.entries[0].icon_url, "data:z");
    assert!(!host.entries[0].needs_exe_icon);
}

#[test]
fn icons_keep_the_order_of_their_registration() {
    let mut host = host_with_icon();
    for (hwnd, uid) in [(0x200u64, 1u32), (0x100, 8), (0x100, 7)] {
        let buf = make_buf(NIM_ADD, hwnd, uid, ALL, 0x500, 0, "", 0);
        handle_tray_copydata(&mut host, &buf, lookup(None), 5);
    }
    let ids: Vec<String> =
        snapshot(&mut host, &vec![]).into_iter().map(|icon| icon.id).collect();
    assert_eq!(ids, vec!["256:7", "512:1", "256:8"]);
}

#[test]
fn deleting_takes_one_icon_out() {
    let mut host = host_with_icon();
    let other = make_buf(NIM_ADD, 0x100, 8, ALL, 0x500, 0, "", 0);
    handle_tray_copydata(&mut host, &other, lookup(None), 5);
    let gone = make_buf(NIM_DELETE, 0x100, 7, 0, 0, 0, "", 0);
    handle_tray_copydata(&mut host, &gone, lookup(None), 6);
    assert_eq!(host.entries.len(), 1);
    assert_eq!(host.entries[0].uid, 8);
    assert_eq!(host.change_seq, 3);
    handle_tray_copydata(&mut host, &gone, lookup(None), 7);
    assert_eq!(host.change_seq, 3);
    assert_eq!(host.last_change_ms, 6);
    remove_entry(&mut host, 0x100, 8, 9);
    assert!(host.entries.is_empty());
}

#[test]
fn a_version_is_stored_for_its_icon() {
    let mut host = host_with_icon();
    let buf = make_buf(NIM_SETVERSION, 0x100, 7, 0, 0, 0, "", 4);
    handle_tray_copydata(&mut host, &buf, lookup(None), 9);
    assert_eq!(host.entries[0].version, 4);
    assert_eq!(resolve(&host, 0x100, 7, 1, 1), (0x401, 4));
    set_version(&mut host, 0x100, 99, 3, 10);
    assert_eq!(host.entries[0].version, 4);
}

#[test]
fn a_version_before_the_icon_is_dropped() {
    let mut host = TrayHost::new();
    set_version(&mut host, 0x100, 7, 4, 1);
    assert_eq!(host.change_seq, 0);
    let buf = make_buf(NIM_ADD, 0x100, 7, ALL, 0x401, 0, "", 4);
    handle_tray_copydata(&mut host, &buf, lookup(None), 2);
    assert_eq!(host.entries[0].version, 0);
}

#[test]
fn malformed_blocks_change_no_entry() {
    let mut host = host_with_icon();
    handle_tray_copydata(&mut host, &[1, 2, 3], lookup(None), 9);
    let no_owner = make_buf(NIM_DELETE, 0, 7, 0, 0, 0, "", 0);
    handle_tray_copydata(&mut host, &no_owner, lookup(None), 9);
    let focus = make_buf(3, 0x100, 7, 0, 0, 0, "", 0);
    handle_tray_copydata(&mut host, &focus, lookup(None), 9);
    assert_eq!(host.entries.len(), 1);
    assert_eq!(host.change_seq, 1);
    assert!(matches!(parse_command(&[0; 20]), TrayCommand::Ignore));
}

#[test]
fn a_short_block_may_lack_the_icon() {
    let mut host = TrayHost::new();
    let buf = make_buf(NIM_ADD, 0x100, 7, ALL, 0x401, 0x55, "Tip", 0);
    handle_tray_copydata(&mut host, &buf[..36], lookup(Some("data:x")), 1);
    let e = &host.entries[0];
    assert_eq!((e.callback_msg, e.tip.as_str(), e.icon_url.as_str()), (0x401, "", ""));
    assert!(e.needs_exe_icon);
    assert_eq!(host.last_cbdata, 36);
    assert_eq!(host.last_raw, &buf[..36]);
}

#[test]
fn only_what_is_needed_is_looked_up() {
    let host = host_with_icon();
    let known = make_buf(NIM_MODIFY, 0x100, 7, ALL, 0, 0x77, "", 0);
    let r = lookup_request(&host, &known);
    assert_eq!((r.icon, r.owner), (Some(0x77), None));
    let new = make_buf(NIM_ADD, 0x200, 7, NIF_TIP, 0, 0x77, "", 0);
    let r = lookup_request(&host, &new);
    assert_eq!((r.icon, r.owner), (None, Some(0x200)));
    let gone = make_buf(NIM_DELETE, 0x100, 7, ALL, 0, 0x77, "", 0);
    let r = lookup_request(&host, &gone);
    assert_eq!((r.icon, r.owner), (None, None));
}

#[test]
fn registrations_can_be_taken_in_directly() {
    let mut host = TrayHost::new();
    let buf = make_buf(NIM_ADD, 1, 1, NIF_MESSAGE, 0x777, 0, "", 0);
    upsert(&mut host, 5, 6, NIF_MESSAGE, &buf, lookup(None), 3);
    assert_eq!((host.entries[0].owner_hwnd, host.entries[0].uid), (5, 6));
    assert_eq!(host.entries[0].callback_msg, 0x777);
    assert!(host.entries[0].needs_exe_icon);
    mark_changed(&mut host, 8);
    assert_eq!((host.change_seq, host.last_change_ms), (2, 8));
    store_last_raw(&mut host, &[9; 2000]);
    assert_eq!(host.last_raw, vec![9; 1024]);
}

#[test]
fn handles_are_signed_words() {
    assert_eq!(handle_from(7), 7);
    assert_eq!(handle_from(u64::MAX), -1);
}

#[test]
fn owed_pictures_are_resolved() {
    let mut host = TrayHost::new();
    for uid in [1u32, 2, 3] {
        let buf = make_buf(NIM_ADD, 0x100, uid, NIF_MESSAGE, 0x401, 0, "", 0);
        handle_tray_copydata(&mut host, &buf, lookup(None), 1);
    }
    host.entries[2].exe_path = String::new();
    let jobs = fallback_work(&host);
    assert_eq!(jobs.len(), 3);
    assert_eq!(jobs[0].exe_path, "C:\\app.exe");
    let results: Vec<FallbackResult> = jobs
        .into_iter()
        .map(|job| FallbackResult {
            rendered: if job.uid == 2 { None } else { Some(format!("data:{}", job.uid)) },
            job,
        })
        .collect();
    let pictures: Vec<String> =
        snapshot(&mut host, &results).into_iter().map(|icon| icon.icon).collect();
    assert_eq!(pictures, vec!["data:1", GENERIC_TRAY_ICON, GENERIC_TRAY_ICON]);
    assert!(fallback_work(&host).is_empty());
    // The outcome of a job for an icon that is gone is dropped.
    remove_entry(&mut host, 0x100, 1, 2);
    snapshot(&mut host, &results);
    assert_eq!(host.entries.len(), 2);
}

#[test]
fn a_pass_settles_only_what_is_owed() {
    let mut host = host_with_icon();
    let bare = make_buf(NIM_ADD, 0x200, 9, NIF_TIP, 0, 0, "Bare", 0);
    handle_tray_copydata(&mut host, &bare, lookup(None), 5);
    let results: Vec<FallbackResult> = fallback_work(&host)
        .into_iter()
        .map(|job| FallbackResult { rendered: Some(format!("data:{}", job.uid)), job })
        .collect();
    assert_eq!(results.len(), 1);
    let icons = snapshot(&mut host, &results);
    assert_eq!((icons[0].id.as_str(), icons[0].icon.as_str()), ("256:7", "data:x"));
    assert_eq!((icons[1].id.as_str(), icons[1].icon.as_str()), ("512:9", "data:9"));
    assert_eq!((icons[1].tooltip.as_str(), icons[1].pid), ("Bare", 42));
}

#[test]
fn window_messages_are_sorted_out() {
    let block = CopyData { dw_data: 1, has_data: true, cb_data: 36 };
    assert_eq!(wndproc(WM_COPYDATA, Some(block)), WindowAction::HandleBlock);
    let appbar = CopyData { dw_data: 0, ..block };
    assert_eq!(wndproc(WM_COPYDATA, Some(appbar)), WindowAction::Acknowledge);
    let short = CopyData { cb_data: 35, ..block };
    assert_eq!(wndproc(WM_COPYDATA, Some(short)), WindowAction::Acknowledge);
    let empty = CopyData { has_data: false, ..block };
    assert_eq!(wndproc(WM_COPYDATA, Some(empty)), WindowAction::Acknowledge);
    assert_eq!(wndproc(WM_COPYDATA, None), WindowAction::Acknowledge);
    assert_eq!(wndproc(WM_TRAYHOST_SHUTDOWN, None), WindowAction::Destroy);
    assert_eq!(wndproc(WM_DESTROY, None), WindowAction::Quit);
    assert_eq!(wndproc(0x1234, Some(block)), WindowAction::PassOn);
    assert_eq!(window_reply(WindowAction::HandleBlock), Some(1));
    assert_eq!(window_reply(WindowAction::Acknowledge), Some(1));
    assert_eq!(window_reply(WindowAction::Destroy), Some(0));
    assert_eq!(window_reply(WindowAction::Quit), Some(0));
    assert_eq!(window_reply(WindowAction::PassOn), None);
}

#[test]
fn the_host_runs_while_it_has_a_window() {
    let mut host = TrayHost::new();
    let began = HostEvent::Began { module_found: true };
    assert_eq!(host_thread(&mut host, began), HostAction::RegisterClass);
    let registered = HostEvent::ClassRegistered { atom: 5 };
    assert_eq!(host_thread(&mut host, registered), HostAction::CreateWindow);
    assert!(!host_running(&host));
    let created = HostEvent::WindowCreated { hwnd: Some(77) };
    assert_eq!(host_thread(&mut host, created), HostAction::AnnounceAndPump);
    assert!(host_running(&host));
    assert_eq!(host_hwnd(&host), 77);
    let message = HostEvent::Pumped { result: 1 };
    assert_eq!(host_thread(&mut host, message), HostAction::DispatchAndPump);
    assert_eq!(shutdown(&mut host), Some(77));
    assert!(shutdown_waits(&host, 399));
    assert!(!shutdown_waits(&host, 400));
    let quit = HostEvent::Pumped { result: 0 };
    assert_eq!(host_thread(&mut host, quit), HostAction::HandBack);
    assert_eq!((host_hwnd(&host), host_running(&host)), (0, false));
    assert_eq!(host_thread(&mut host, HostEvent::HandedBack), HostAction::Stop);
    assert!(!shutdown_waits(&host, 0));
    assert_eq!(shutdown(&mut host), None);
}

#[test]
fn a_host_that_cannot_start_stops() {
    let mut host = TrayHost::new();
    let lost = HostEvent::Began { module_found: false };
    assert_eq!(host_thread(&mut host, lost), HostAction::Stop);
    let refused = HostEvent::ClassRegistered { atom: 0 };
    assert_eq!(host_thread(&mut host, refused), HostAction::Stop);
    let none = HostEvent::WindowCreated { hwnd: None };
    assert_eq!(host_thread(&mut host, none), HostAction::UnregisterAndStop);
    let failed = HostEvent::Pumped { result: -1 };
    assert_eq!(host_thread(&mut host, failed), HostAction::HandBack);
    assert!(!host_running(&host));
}

#[test]
fn changes_are_announced_once_they_settle() {
    let host = host_with_icon();
    assert_eq!(emitter_due(&host, 0, 1149), None);
    assert_eq!(emitter_due(&host, 0, 1150), Some(1));
    assert_eq!(emitter_due(&host, 1, 9999), None);
    assert_eq!(emitter_due(&host, 0, 10), None);
}

#[test]
fn clicks_go_by_what_the_owner_registered() {
    let mut host = host_with_icon();
    set_version(&mut host, 0x100, 7, 3, 1);
    match activate(&host, 0x100, 7, 0x999, 4, 5, 6) {
        Ok(Activation::Send(posts)) => assert_eq!(
            posts,
            vec![
                Post { msg: 0x401, wparam: 7, lparam: 0x201 },
                Post { msg: 0x401, wparam: 7, lparam: 0x202 },
            ]
        ),
        other => panic!("{other:?}"),
    }
    assert_eq!(
        open_menu(&host, 0x100, 7, 0x999, 4, 5, 6),
        Ok(vec![
            Post { msg: 0x401, wparam: 7, lparam: 0x204 },
            Post { msg: 0x401, wparam: 7, lparam: 0x205 },
            Post { msg: WM_NULL, wparam: 0, lparam: 0 },
        ])
    );
    assert_eq!(resolve(&host, 1, 2, 3, 4), (3, 4));
}

#[test]
fn clicks_without_an_owner_or_callback() {
    let host = TrayHost::new();
    assert_eq!(
        activate(&host, 0, 7, 1, 4, 5, 6).err(),
        Some("tray_activate: null owner hwnd".to_string())
    );
    assert_eq!(
        open_menu(&host, 0, 7, 1, 4, 5, 6),
        Err("tray_open_menu: null owner hwnd".to_string())
    );
    assert!(matches!(activate(&host, 9, 7, 0, 4, 5, 6), Ok(Activation::Focus)));
    assert_eq!(open_menu(&host, 9, 7, 0, 4, 5, 6), Ok(vec![]));
    assert!(focus_needed(&vec![false, false]));
    assert!(!focus_needed(&vec![false, true]));
    assert!(focus_needed(&vec![]));
}

#[test]
fn diagnostics_dump_the_host() {
    let mut host = host_with_icon();
    host.entries[0].tip = "a \"b\"\n".to_string();
    let report = diagnostics(&mut host, &vec![]);
    assert_eq!(report.lines.len(), 6);
    assert_eq!(report.lines[0], "[tray_host] ===== tray_diagnostics begin =====");
    assert_eq!(
        report.lines[1],
        "[tray_host] host_running=false host_hwnd=0x0 last_cbData=1484 (expect ~1484)"
    );
    assert_eq!(
        report.lines[2],
        "[tray_host] raw[0..48]=[0000000000000000 0000000000000000 0001000000000000 \
         0700000007000000 0104000000000000 5500000000000000]"
    );
    assert_eq!(
        report.lines[3],
        "[tray_host] parsed: dwMessage=0 nid.cbSize=0 hWnd=0x100 uID=7 uFlags=0x7 cb=0x401 \
         hIcon=0x55 uVersion=0"
    );
    assert_eq!(
        report.lines[4],
        "[tray_host] icon id=256:7 hwnd=0x100 uid=7 cb=0x401 ver=0 pid=42 exe=C:\\app.exe \
         tooltip=\"a \\\"b\\\"\\n\" iconBytes=6"
    );
    assert_eq!(report.lines[5], "[tray_host] ===== tray_diagnostics end (1 icons) =====");
    assert_eq!(
        report.summary,
        "tray host not running (Shell_TrayWnd registration failed) — see debug.log"
    );
    host.running = true;
    host.last_raw.clear();
    let report = diagnostics(&mut host, &vec![]);
    assert_eq!(report.lines.len(), 4);
    assert_eq!(
        report.summary,
        "tray_host: 1 icon(s) live; raw SHELLTRAYDATA + parsed offsets written to debug.log"
    );
}
