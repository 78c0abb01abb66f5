//! The tray host: what its window does with messages, what the user interface is told, and
//! what is posted back when an icon is clicked.

use vstd::prelude::*;

use crate::icon;
pub use crate::icon::TrayIcon;
use crate::icon::{Report, GENERIC_TRAY_ICON};
use crate::notify;
use crate::notify::Post;
use crate::registry;
use crate::registry::{TrayEntry, TrayHost};
use crate::text;
use crate::wire;

verus! {

/// How long the registry must have been quiet before a change is announced.
pub const DEBOUNCE_MS: u64 = 150;

/// How long a request to shut down waits for the window thread.
pub const SHUTDOWN_WAIT_MS: u64 = 400;

pub const WM_DESTROY: u32 = 0x0002;

pub const WM_COPYDATA: u32 = 0x004A;

/// Private message: the window thread is to destroy its window.
pub const WM_TRAYHOST_SHUTDOWN: u32 = 0x8001;

/// The kind of data block that carries a notify-icon registration.
pub const NOTIFY_ICON_BLOCK: usize = 1;

// ---------------------------------------------------------------- window messages

/// The header of a data block that came with a message.
#[derive(Clone, Copy, Debug)]
pub struct CopyData {
    /// Kind of the block.
    pub dw_data: usize,
    /// Whether the block points at data.
    pub has_data: bool,
    /// Length of the data.
    pub cb_data: u32,
}

/// What the window does with a message.
#[derive(Clone, Copy, Debug, PartialEq, Eq, Structural)]
pub enum WindowAction {
    /// Handle the data block as a registration and answer 1.
    HandleBlock,
    /// Answer 1 and do nothing.
    Acknowledge,
    /// Destroy the window and answer 0.
    Destroy,
    /// End the message loop and answer 0.
    Quit,
    /// Leave the message to the system.
    PassOn,
}

/// What the window does with a message. Every data block is acknowledged; only one of the
/// right kind that is long enough is handled.
pub open spec fn window_action(msg: u32, block: Option<CopyData>) -> WindowAction {
    if msg == WM_COPYDATA {
        match block {
            Some(b) if b.dw_data == NOTIFY_ICON_BLOCK && b.has_data && b.cb_data
                >= registry::MIN_TRAY_BUF => WindowAction::HandleBlock,
            _ => WindowAction::Acknowledge,
        }
    } else if msg == WM_TRAYHOST_SHUTDOWN {
        WindowAction::Destroy
    } else if msg == WM_DESTROY {
        WindowAction::Quit
    } else {
        WindowAction::PassOn
    }
}

/// Decides what the window does with a message.
pub fn wndproc(msg: u32, block: Option<CopyData>) -> (a: WindowAction)
    ensures
        a == window_action(msg, block),
{
    if msg == WM_COPYDATA {
        match block {
            Some(b) => if b.dw_data == NOTIFY_ICON_BLOCK && b.has_data && b.cb_data as usize
                >= registry::MIN_TRAY_BUF {
                WindowAction::HandleBlock
            } else {
                WindowAction::Acknowledge
            },
            None => WindowAction::Acknowledge,
        }
    } else if msg == WM_TRAYHOST_SHUTDOWN {
        WindowAction::Destroy
    } else if msg == WM_DESTROY {
        WindowAction::Quit
    } else {
        WindowAction::PassOn
    }
}

/// The answer that goes with an action; none where the system answers.
pub open spec fn reply_of(a: WindowAction) -> Option<isize> {
    match a {
        WindowAction::HandleBlock | WindowAction::Acknowledge => Some(1),
        WindowAction::Destroy | WindowAction::Quit => Some(0),
        WindowAction::PassOn => None,
    }
}

/// The answer that the window gives.
pub fn window_reply(a: WindowAction) -> (r: Option<isize>)
    ensures
        r == reply_of(a),
{
    match a {
        WindowAction::HandleBlock | WindowAction::Acknowledge => Some(1),
        WindowAction::Destroy | WindowAction::Quit => Some(0),
        WindowAction::PassOn => None,
    }
}

// ---------------------------------------------------------------- window thread

/// What happened on the window thread.
#[derive(Clone, Copy, Debug)]
pub enum HostEvent {
    /// The thread began; whether the module handle was found.
    Began { module_found: bool },
    /// The window class was registered under this number; 0 is failure.
    ClassRegistered { atom: u16 },
    /// The window was created, or could not be.
    WindowCreated { hwnd: Option<isize> },
    /// Waiting for a message gave this result.
    Pumped { result: i32 },
    /// The icons were handed back and the class is unregistered.
    HandedBack,
}

/// What the window thread does next.
#[derive(Clone, Copy, Debug, PartialEq, Eq, Structural)]
pub enum HostAction {
    RegisterClass,
    CreateWindow,
    /// Raise the window, ask every application to register again, hide the system's taskbar,
    /// and wait for messages.
    AnnounceAndPump,
    /// Dispatch the message and wait for the next.
    DispatchAndPump,
    /// Ask every application to register with the system's tray again and unregister the class.
    HandBack,
    /// Unregister the class and end.
    UnregisterAndStop,
    /// End.
    Stop,
}

/// The next step of the window thread.
pub open spec fn host_next(event: HostEvent) -> HostAction {
    match event {
        HostEvent::Began { module_found } => if module_found {
            HostAction::RegisterClass
        } else {
            HostAction::Stop
        },
        HostEvent::ClassRegistered { atom } => if atom != 0 {
            HostAction::CreateWindow
        } else {
            HostAction::Stop
        },
        HostEvent::WindowCreated { hwnd } => if hwnd is Some {
            HostAction::AnnounceAndPump
        } else {
            HostAction::UnregisterAndStop
        },
        HostEvent::Pumped { result } => if result > 0 {
            HostAction::DispatchAndPump
        } else {
            HostAction::HandBack
        },
        HostEvent::HandedBack => HostAction::Stop,
    }
}

/// The host after an event on its window thread: it runs from the creation of the window to the
/// end of the message loop, and is shut down once the icons were handed back.
pub open spec fn host_after(host: registry::HostView, event: HostEvent) -> registry::HostView {
    match event {
        HostEvent::WindowCreated { hwnd: Some(hwnd) } => registry::HostView {
            hwnd,
            running: true,
            ..host
        },
        HostEvent::Pumped { result } if result <= 0 => registry::HostView {
            hwnd: 0,
            running: false,
            ..host
        },
        HostEvent::HandedBack => registry::HostView { shutdown_done: true, ..host },
        _ => host,
    }
}

/// Takes an event of the window thread in and says what the thread does next.
pub fn host_thread(host: &mut TrayHost, event: HostEvent) -> (a: HostAction)
    ensures
        a == host_next(event),
        final(host)@ == host_after(old(host)@, event),
{
    match event {
        HostEvent::Began { module_found } => if module_found {
            HostAction::RegisterClass
        } else {
            HostAction::Stop
        },
        HostEvent::ClassRegistered { atom } => if atom != 0 {
            HostAction::CreateWindow
        } else {
            HostAction::Stop
        },
        HostEvent::WindowCreated { hwnd } => match hwnd {
            Some(h) => {
                host.hwnd = h;
                host.running = true;
                HostAction::AnnounceAndPump
            },
            None => HostAction::UnregisterAndStop,
        },
        HostEvent::Pumped { result } => if result > 0 {
            HostAction::DispatchAndPump
        } else {
            host.hwnd = 0;
            host.running = false;
            HostAction::HandBack
        },
        HostEvent::HandedBack => {
            host.shutdown_done = true;
            HostAction::Stop
        },
    }
}

/// The host window, or 0 while there is none.
pub fn host_hwnd(host: &TrayHost) -> (hwnd: isize)
    ensures
        hwnd == host@.hwnd,
{
    host.hwnd
}

/// Whether the host window is up.
pub fn host_running(host: &TrayHost) -> (r: bool)
    ensures
        r == host@.running,
{
    host.running
}

/// Asks for the end of the host. Gives the window that has to be told, if there is one.
pub fn shutdown(host: &mut TrayHost) -> (target: Option<isize>)
    ensures
        old(host)@.hwnd == 0 ==> target is None && final(host)@ == old(host)@,
        old(host)@.hwnd != 0 ==> {
            &&& target == Some(old(host)@.hwnd)
            &&& final(host)@ == (registry::HostView { shutdown_done: false, ..old(host)@ })
        },
{
    if host.hwnd == 0 {
        return None;
    }
    host.shutdown_done = false;
    Some(host.hwnd)
}

/// Whether a request to shut down goes on waiting.
pub fn shutdown_waits(host: &TrayHost, elapsed_ms: u64) -> (r: bool)
    ensures
        r == (!host@.shutdown_done && elapsed_ms < SHUTDOWN_WAIT_MS),
{
    !host.shutdown_done && elapsed_ms < SHUTDOWN_WAIT_MS
}

// ---------------------------------------------------------------- announcements

/// Whether changes are to be announced: there are some since the last announcement, and the
/// last of them is long enough ago.
pub open spec fn announcement_due(host: registry::HostView, last: u64, now_ms: u64) -> bool {
    &&& host.change_seq != last
    &&& now_ms >= host.last_change_ms + DEBOUNCE_MS
}

/// Decides whether the current list is announced, and up to which change it then counts.
pub fn emitter_due(host: &TrayHost, last: u64, now_ms: u64) -> (r: Option<u64>)
    ensures
        r == (if announcement_due(host@, last, now_ms) {
            Some(host@.change_seq)
        } else {
            None
        }),
{
    if host.change_seq == last {
        return None;
    }
    if now_ms.saturating_sub(host.last_change_ms) < DEBOUNCE_MS {
        return None;
    }
    Some(host.change_seq)
}

// ---------------------------------------------------------------- pictures of executables

/// An entry that still owes the icon of its executable.
#[derive(Debug)]
pub struct FallbackJob {
    pub owner_hwnd: isize,
    pub uid: u32,
    pub exe_path: String,
}

/// The value of a `FallbackJob`.
#[verifier::ext_equal]
pub struct JobView {
    pub owner_hwnd: isize,
    pub uid: u32,
    pub exe_path: Seq<char>,
}

impl View for FallbackJob {
    type V = JobView;

    open spec fn view(&self) -> JobView {
        JobView { owner_hwnd: self.owner_hwnd, uid: self.uid, exe_path: self.exe_path@ }
    }
}

/// A job together with what rendering the executable's icon gave.
#[derive(Debug)]
pub struct FallbackResult {
    pub job: FallbackJob,
    pub rendered: Option<String>,
}

/// The value of a `FallbackResult`.
#[verifier::ext_equal]
pub struct ResultView {
    pub job: JobView,
    pub rendered: Option<Seq<char>>,
}

impl View for FallbackResult {
    type V = ResultView;

    open spec fn view(&self) -> ResultView {
        ResultView { job: self.job@, rendered: registry::opt_text(self.rendered) }
    }
}

/// The jobs of a list of entries: one for each entry that owes an icon, in their order.
pub open spec fn pending_jobs(entries: Seq<registry::EntryView>) -> Seq<JobView> {
    entries.filter(|e: registry::EntryView| e.needs_exe_icon).map_values(
        |e: registry::EntryView| job_of(e),
    )
}

/// The job of one entry.
pub open spec fn job_of(e: registry::EntryView) -> JobView {
    JobView { owner_hwnd: e.owner_hwnd, uid: e.uid, exe_path: e.exe_path }
}

/// Lists the icons of executables that are still owed.
pub fn fallback_work(host: &TrayHost) -> (jobs: Vec<FallbackJob>)
    ensures
        jobs@.map_values(|j: FallbackJob| j@) == pending_jobs(host@.entries),
{
    let ghost entries = host@.entries;
    let ghost wants = |e: registry::EntryView| e.needs_exe_icon;
    let mut jobs: Vec<FallbackJob> = Vec::new();
    let mut i: usize = 0;
    proof {
        reveal(Seq::filter);
        assert(entries.take(0).filter(wants) =~= seq![]);
        assert(jobs@.map_values(|j: FallbackJob| j@) =~= pending_jobs(entries.take(0)));
    }
    while i < host.entries.len()
        invariant
            i <= host.entries.len(),
            entries == host@.entries,
            jobs@.map_values(|j: FallbackJob| j@) == pending_jobs(entries.take(i as int)),
        decreases host.entries.len() - i,
    {
        let ghost before = jobs@;
        let e = &host.entries[i];
        proof {
            reveal(Seq::filter);
            assert(entries.take(i + 1).drop_last() =~= entries.take(i as int));
            assert(entries[i as int] == e@);
        }
        if e.needs_exe_icon {
            let job = FallbackJob {
                owner_hwnd: e.owner_hwnd,
                uid: e.uid,
                exe_path: e.exe_path.clone(),
            };
            assert(job@ == job_of(e@));
            jobs.push(job);
            assert(jobs@.map_values(|j: FallbackJob| j@) =~= before.map_values(
                |j: FallbackJob| j@,
            ).push(job@));
            assert(pending_jobs(entries.take(i + 1)) =~= pending_jobs(entries.take(i as int)).push(
                job@,
            ));
        }
        i += 1;
    }
    assert(entries.take(i as int) =~= entries);
    jobs
}

/// The picture for a finished job: the rendered icon of the executable, or the placeholder
/// where the executable is unknown or could not be rendered.
pub open spec fn fallback_url(r: ResultView) -> Seq<char> {
    match r.rendered {
        Some(url) if r.job.exe_path.len() > 0 => url,
        _ => GENERIC_TRAY_ICON@,
    }
}

/// The entries after one finished job: the picture is stored if the entry is still there and
/// still wants it.
pub open spec fn fallback_stored(entries: Seq<registry::EntryView>, r: ResultView) -> Seq<
    registry::EntryView,
> {
    match registry::position(entries, r.job.owner_hwnd, r.job.uid) {
        Some(i) if entries[i].needs_exe_icon => entries.update(
            i,
            registry::EntryView {
                icon_url: fallback_url(r),
                needs_exe_icon: false,
                ..entries[i]
            },
        ),
        _ => entries,
    }
}

/// The entries after a list of finished jobs, in their order.
pub open spec fn fallbacks_stored(
    entries: Seq<registry::EntryView>,
    results: Seq<ResultView>,
) -> Seq<registry::EntryView>
    decreases results.len(),
{
    if results.len() == 0 {
        entries
    } else {
        fallback_stored(fallbacks_stored(entries, results.drop_last()), results.last())
    }
}

/// The values of a list of results.
pub open spec fn result_views(results: Seq<FallbackResult>) -> Seq<ResultView> {
    results.map_values(|r: FallbackResult| r@)
}

proof fn lemma_fallback_unique(entries: Seq<registry::EntryView>, r: ResultView)
    requires
        registry::unique_keys(entries),
    ensures
        registry::unique_keys(fallback_stored(entries, r)),
{
    registry::position_finds_first_match(entries, r.job.owner_hwnd, r.job.uid);
}

/// Stores the outcome of one job.
pub fn store_fallback(host: &mut TrayHost, r: &FallbackResult)
    ensures
        final(host)@ == (registry::HostView {
            entries: fallback_stored(old(host)@.entries, r@),
            ..old(host)@
        }),
        old(host)@.wf() ==> final(host)@.wf(),
{
    let ghost before = host@;
    let url: String = match &r.rendered {
        Some(u) => if r.job.exe_path.as_str().is_empty() {
            GENERIC_TRAY_ICON.to_owned()
        } else {
            u.clone()
        },
        None => GENERIC_TRAY_ICON.to_owned(),
    };
    proof {
        if before.wf() {
            lemma_fallback_unique(before.entries, r@);
        }
    }
    if let Some(i) = registry::find_entry(&host.entries, r.job.owner_hwnd, r.job.uid) {
        assert(before.entries[i as int] == host.entries@[i as int]@);
        if host.entries[i].needs_exe_icon {
            host.entries[i].icon_url = url;
            host.entries[i].needs_exe_icon = false;
        }
    }
    assert(host@.entries =~= fallback_stored(before.entries, r@));
}

/// Stores the outcomes of a list of jobs.
pub fn resolve_fallback_icons(host: &mut TrayHost, results: &Vec<FallbackResult>)
    ensures
        final(host)@ == (registry::HostView {
            entries: fallbacks_stored(old(host)@.entries, result_views(results@)),
            ..old(host)@
        }),
        old(host)@.wf() ==> final(host)@.wf(),
{
    let ghost before = host@;
    let ghost views = result_views(results@);
    let mut i: usize = 0;
    while i < results.len()
        invariant
            i <= results.len(),
            views == result_views(results@),
            host@ == (registry::HostView {
                entries: fallbacks_stored(before.entries, views.take(i as int)),
                ..before
            }),
            before.wf() ==> host@.wf(),
        decreases results.len() - i,
    {
        assert(views.take(i + 1).drop_last() =~= views.take(i as int));
        assert(views[i as int] == results@[i as int]@);
        store_fallback(host, &results[i]);
        i += 1;
    }
    assert(views.take(i as int) =~= views);
}

// ---------------------------------------------------------------- the list

/// The icons of a list of entries.
pub open spec fn icons_of(entries: Seq<registry::EntryView>) -> Seq<icon::TrayIconView> {
    entries.map_values(|e: registry::EntryView| e.to_icon())
}

/// The current icons, after the outcomes of pending jobs were stored. No picture is empty.
pub fn snapshot(host: &mut TrayHost, results: &Vec<FallbackResult>) -> (icons: Vec<TrayIcon>)
    ensures
        final(host)@ == (registry::HostView {
            entries: fallbacks_stored(old(host)@.entries, result_views(results@)),
            ..old(host)@
        }),
        icon::icon_views(icons@) == icons_of(final(host)@.entries),
        forall|i: int| 0 <= i < icons.len() ==> (#[trigger] icons@[i]).icon@.len() > 0,
        old(host)@.wf() ==> final(host)@.wf(),
{
    resolve_fallback_icons(host, results);
    let ghost entries = host@.entries;
    let mut icons: Vec<TrayIcon> = Vec::new();
    let mut i: usize = 0;
    while i < host.entries.len()
        invariant
            i <= host.entries.len(),
            entries == host@.entries,
            icons.len() == i,
            forall|j: int| 0 <= j < i ==> (#[trigger] icons@[j])@ == entries[j].to_icon(),
            forall|j: int| 0 <= j < i ==> (#[trigger] icons@[j]).icon@.len() > 0,
        decreases host.entries.len() - i,
    {
        assert(entries[i as int] == host.entries@[i as int]@);
        icons.push(host.entries[i].to_icon());
        i += 1;
    }
    assert(icon::icon_views(icons@) =~= icons_of(entries));
    icons
}

// ---------------------------------------------------------------- clicks

/// The callback message and version that a click goes by: those of the entry, where there is
/// one, and else those that the user interface passed. An entry without a callback message
/// takes the one that was passed.
pub open spec fn resolved(
    entries: Seq<registry::EntryView>,
    owner: isize,
    uid: u32,
    cb_arg: u32,
    ver_arg: u32,
) -> (u32, u32) {
    match registry::position(entries, owner, uid) {
        Some(i) => (
            if entries[i].callback_msg != 0 {
                entries[i].callback_msg
            } else {
                cb_arg
            },
            entries[i].version,
        ),
        None => (cb_arg, ver_arg),
    }
}

/// Looks the callback message and version of an icon up.
pub fn resolve(host: &TrayHost, owner: isize, uid: u32, cb_arg: u32, ver_arg: u32) -> (r: (
    u32,
    u32,
))
    ensures
        r == resolved(host@.entries, owner, uid, cb_arg, ver_arg),
{
    match registry::find_entry(&host.entries, owner, uid) {
        Some(i) => {
            let e: &TrayEntry = &host.entries[i];
            assert(host@.entries[i as int] == e@);
            let cb: u32 = if e.callback_msg != 0 {
                e.callback_msg
            } else {
                cb_arg
            };
            (cb, e.version)
        },
        None => (cb_arg, ver_arg),
    }
}

/// Forwards a left click: what to post to the owner, or that the owner's window is to be
/// brought up because it has no callback. After posting, `notify::focus_needed` says whether
/// the window is to be brought up in the end.
pub fn activate(
    host: &TrayHost,
    owner_hwnd: isize,
    uid: u32,
    callback_msg: u32,
    version: u32,
    x: i32,
    y: i32,
) -> (r: Result<notify::Activation, String>)
    ensures
        match r {
            Ok(a) => owner_hwnd != 0 && a@ == notify::activation_plan(
                resolved(host@.entries, owner_hwnd, uid, callback_msg, version).0,
                resolved(host@.entries, owner_hwnd, uid, callback_msg, version).1,
                x,
                y,
                uid,
            ),
            Err(e) => owner_hwnd == 0 && e@ == "tray_activate: null owner hwnd"@,
        },
{
    if owner_hwnd == 0 {
        return Err("tray_activate: null owner hwnd".to_owned());
    }
    let (cb, ver): (u32, u32) = resolve(host, owner_hwnd, uid, callback_msg, version);
    Ok(notify::plan_activation(cb, ver, x, y, uid))
}

/// Forwards a right click: what to post to the owner once its window is in the foreground.
pub fn open_menu(
    host: &TrayHost,
    owner_hwnd: isize,
    uid: u32,
    callback_msg: u32,
    version: u32,
    x: i32,
    y: i32,
) -> (r: Result<Vec<Post>, String>)
    ensures
        match r {
            Ok(posts) => owner_hwnd != 0 && posts@ == notify::menu_plan(
                resolved(host@.entries, owner_hwnd, uid, callback_msg, version).0,
                resolved(host@.entries, owner_hwnd, uid, callback_msg, version).1,
                x,
                y,
                uid,
            ),
            Err(e) => owner_hwnd == 0 && e@ == "tray_open_menu: null owner hwnd"@,
        },
{
    if owner_hwnd == 0 {
        return Err("tray_open_menu: null owner hwnd".to_owned());
    }
    let (cb, ver): (u32, u32) = resolve(host, owner_hwnd, uid, callback_msg, version);
    Ok(notify::plan_menu(cb, ver, x, y, uid))
}

// ---------------------------------------------------------------- diagnostics

/// The line on the state of the host.
pub open spec fn status_line(host: registry::HostView) -> Seq<char> {
    "[tray_host] host_running="@ + (if host.running {
        "true"@
    } else {
        "false"@
    }) + " host_hwnd=0x"@ + text::hexadecimal(text::word_bits(host.hwnd)) + " last_cbData="@
        + text::decimal(host.last_cbdata as int) + " (expect ~1484)"@
}

/// How many bytes of the last block are dumped: everything before the hover text.
pub open spec fn dumped_len(raw: Seq<u8>) -> nat {
    if raw.len() < registry::NID_SZTIP {
        raw.len()
    } else {
        registry::NID_SZTIP as nat
    }
}

/// The line with the bytes of the last block.
pub open spec fn raw_line(raw: Seq<u8>) -> Seq<char> {
    "[tray_host] raw[0.."@ + text::decimal(dumped_len(raw) as int) + "]=["@ + text::hex_dump(
        raw.take(dumped_len(raw) as int),
    ) + "]"@
}

/// The line with the fields of the last block.
pub open spec fn parsed_line(raw: Seq<u8>) -> Seq<char> {
    "[tray_host] parsed: dwMessage="@ + text::decimal(
        registry::u32_or_zero(raw, registry::OFF_DWMESSAGE as int) as int,
    ) + " nid.cbSize="@ + text::decimal(
        registry::u32_or_zero(raw, registry::NID_CBSIZE as int) as int,
    ) + " hWnd=0x"@ + text::hexadecimal(
        registry::u64_or_zero(raw, registry::NID_HWND as int) as nat,
    ) + " uID="@ + text::decimal(registry::u32_or_zero(raw, registry::NID_UID as int) as int)
        + " uFlags=0x"@ + text::hexadecimal(
        registry::u32_or_zero(raw, registry::NID_UFLAGS as int) as nat,
    ) + " cb=0x"@ + text::hexadecimal(
        registry::u32_or_zero(raw, registry::NID_UCALLBACK as int) as nat,
    ) + " hIcon=0x"@ + text::hexadecimal(
        registry::u64_or_zero(raw, registry::NID_HICON as int) as nat,
    ) + " uVersion="@ + text::decimal(
        registry::u32_or_zero(raw, registry::NID_UVERSION as int) as int,
    )
}

/// The lines on the last block; none before the first.
pub open spec fn raw_lines(raw: Seq<u8>) -> Seq<Seq<char>> {
    if raw.len() == 0 {
        seq![]
    } else {
        seq![raw_line(raw), parsed_line(raw)]
    }
}

/// The last line of the dump.
pub open spec fn end_line(count: nat) -> Seq<char> {
    "[tray_host] ===== tray_diagnostics end ("@ + text::decimal(count as int) + " icons) ====="@
}

/// The whole dump, for a host whose pending jobs are stored.
pub open spec fn dump_lines(host: registry::HostView) -> Seq<Seq<char>> {
    seq!["[tray_host] ===== tray_diagnostics begin ====="@, status_line(host)] + raw_lines(
        host.last_raw,
    ) + icon::icon_lines("[tray_host]"@, icons_of(host.entries)) + seq![
        end_line(host.entries.len()),
    ]
}

/// The answer that goes with the dump.
pub open spec fn dump_summary(host: registry::HostView) -> Seq<char> {
    if host.running {
        "tray_host: "@ + text::decimal(host.entries.len() as int)
            + " icon(s) live; raw SHELLTRAYDATA + parsed offsets written to debug.log"@
    } else {
        "tray host not running (Shell_TrayWnd registration failed) — see debug.log"@
    }
}

fn make_status_line(host: &TrayHost) -> (line: String)
    ensures
        line@ == status_line(host@),
{
    let mut line = "[tray_host] host_running=".to_owned();
    if host.running {
        line.append("true");
    } else {
        line.append("false");
    }
    line.append(" host_hwnd=0x");
    text::push_hex_handle(&mut line, host.hwnd);
    line.append(" last_cbData=");
    text::push_decimal(&mut line, host.last_cbdata as i128);
    line.append(" (expect ~1484)");
    line
}

fn make_raw_line(raw: &Vec<u8>) -> (line: String)
    ensures
        line@ == raw_line(raw@),
{
    let mut head: Vec<u8> = Vec::new();
    let mut i: usize = 0;
    while i < raw.len() && i < registry::NID_SZTIP
        invariant
            i <= dumped_len(raw@),
            head@ =~= raw@.take(i as int),
        decreases raw.len() - i,
    {
        head.push(raw[i]);
        i += 1;
    }
    let mut line = "[tray_host] raw[0..".to_owned();
    text::push_decimal(&mut line, head.len() as i128);
    line.append("]=[");
    line.append(text::hex(head.as_slice()).as_str());
    line.append("]");
    line
}

fn make_parsed_line(raw: &Vec<u8>) -> (line: String)
    ensures
        line@ == parsed_line(raw@),
{
    let buf: &[u8] = raw.as_slice();
    let mut line = "[tray_host] parsed: dwMessage=".to_owned();
    text::push_decimal(&mut line, registry::read_u32_or_zero(buf, registry::OFF_DWMESSAGE) as i128);
    line.append(" nid.cbSize=");
    text::push_decimal(&mut line, registry::read_u32_or_zero(buf, registry::NID_CBSIZE) as i128);
    line.append(" hWnd=0x");
    text::push_hex(&mut line, registry::read_u64_or_zero(buf, registry::NID_HWND));
    line.append(" uID=");
    text::push_decimal(&mut line, registry::read_u32_or_zero(buf, registry::NID_UID) as i128);
    line.append(" uFlags=0x");
    text::push_hex(&mut line, registry::read_u32_or_zero(buf, registry::NID_UFLAGS) as u64);
    line.append(" cb=0x");
    text::push_hex(&mut line, registry::read_u32_or_zero(buf, registry::NID_UCALLBACK) as u64);
    line.append(" hIcon=0x");
    text::push_hex(&mut line, registry::read_u64_or_zero(buf, registry::NID_HICON));
    line.append(" uVersion=");
    text::push_decimal(&mut line, registry::read_u32_or_zero(buf, registry::NID_UVERSION) as i128);
    line
}

/// Dumps the host for the log, after the outcomes of pending jobs were stored.
pub fn diagnostics(host: &mut TrayHost, results: &Vec<FallbackResult>) -> (report: Report)
    ensures
        final(host)@ == (registry::HostView {
            entries: fallbacks_stored(old(host)@.entries, result_views(results@)),
            ..old(host)@
        }),
        icon::line_texts(report.lines@) == dump_lines(final(host)@),
        report.summary@ == dump_summary(final(host)@),
        old(host)@.wf() ==> final(host)@.wf(),
{
    let icons = snapshot(host, results);
    let mut lines: Vec<String> = Vec::new();
    lines.push("[tray_host] ===== tray_diagnostics begin =====".to_owned());
    lines.push(make_status_line(host));
    assert(icon::line_texts(lines@) =~= seq![
        "[tray_host] ===== tray_diagnostics begin ====="@,
        status_line(host@),
    ]);
    if host.last_raw.len() > 0 {
        lines.push(make_raw_line(&host.last_raw));
        lines.push(make_parsed_line(&host.last_raw));
    }
    assert(icon::line_texts(lines@) =~= seq![
        "[tray_host] ===== tray_diagnostics begin ====="@,
        status_line(host@),
    ] + raw_lines(host@.last_raw));
    icon::push_icon_lines(&mut lines, "[tray_host]", &icons);
    assert(icons.len() == host@.entries.len()) by {
        assert(icon::icon_views(icons@).len() == icons_of(host@.entries).len());
    }
    let mut end = "[tray_host] ===== tray_diagnostics end (".to_owned();
    text::push_decimal(&mut end, icons.len() as i128);
    end.append(" icons) =====");
    lines.push(end);
    assert(icon::line_texts(lines@) =~= dump_lines(host@));
    let summary: String = if host.running {
        let mut s = "tray_host: ".to_owned();
        text::push_decimal(&mut s, icons.len() as i128);
        s.append(" icon(s) live; raw SHELLTRAYDATA + parsed offsets written to debug.log");
        s
    } else {
        "tray host not running (Shell_TrayWnd registration failed) — see debug.log".to_owned()
    };
    Report { lines, summary }
}

// ---------------------------------------------------------------- laws

proof fn lemma_stored_keys(entries: Seq<registry::EntryView>, results: Seq<ResultView>)
    requires
        registry::unique_keys(entries),
    ensures
        fallbacks_stored(entries, results).len() == entries.len(),
        registry::unique_keys(fallbacks_stored(entries, results)),
        forall|i: int|
            0 <= i < entries.len() ==> {
                let e = #[trigger] fallbacks_stored(entries, results)[i];
                &&& e.owner_hwnd == entries[i].owner_hwnd
                &&& e.uid == entries[i].uid
                &&& e.needs_exe_icon ==> entries[i].needs_exe_icon
            },
    decreases results.len(),
{
    if results.len() > 0 {
        let before = fallbacks_stored(entries, results.drop_last());
        lemma_stored_keys(entries, results.drop_last());
        lemma_fallback_unique(before, results.last());
        registry::position_finds_first_match(
            before,
            results.last().job.owner_hwnd,
            results.last().job.uid,
        );
    }
}

proof fn lemma_stored_settles(
    entries: Seq<registry::EntryView>,
    results: Seq<ResultView>,
    i: int,
    k: int,
)
    requires
        registry::unique_keys(entries),
        0 <= i < entries.len(),
        0 <= k < results.len(),
        entries[i].matches(results[k].job.owner_hwnd, results[k].job.uid),
    ensures
        !fallbacks_stored(entries, results)[i].needs_exe_icon,
    decreases results.len(),
{
    let front = results.drop_last();
    let before = fallbacks_stored(entries, front);
    let last = results.last();
    lemma_stored_keys(entries, front);
    assert(before[i].owner_hwnd == entries[i].owner_hwnd);
    registry::position_finds_first_match(before, last.job.owner_hwnd, last.job.uid);
    if k == results.len() - 1 {
        assert(before[i].matches(last.job.owner_hwnd, last.job.uid));
        registry::position_with_unique_keys(before, last.job.owner_hwnd, last.job.uid, i);
    } else {
        assert(front[k] == results[k]);
        lemma_stored_settles(entries, front, i, k);
    }
}

/// Once every job of the current work list has its outcome, whatever the outcomes were, no entry
/// is left owing an icon.
pub proof fn fallback_pass_is_complete(
    entries: Seq<registry::EntryView>,
    results: Seq<ResultView>,
)
    requires
        registry::unique_keys(entries),
        results.len() == pending_jobs(entries).len(),
        forall|k: int|
            0 <= k < results.len() ==> (#[trigger] results[k]).job == pending_jobs(entries)[k],
    ensures
        forall|i: int|
            0 <= i < entries.len() ==> !(#[trigger] fallbacks_stored(
                entries,
                results,
            )[i]).needs_exe_icon,
        pending_jobs(fallbacks_stored(entries, results)).len() == 0,
{
    let wants = |e: registry::EntryView| e.needs_exe_icon;
    let wanting = entries.filter(wants);
    let stored = fallbacks_stored(entries, results);
    lemma_stored_keys(entries, results);
    assert forall|i: int| 0 <= i < entries.len() implies !(#[trigger] stored[i]).needs_exe_icon by {
        if entries[i].needs_exe_icon {
            entries.lemma_filter_contains(wants, i);
            let k = choose|k: int| 0 <= k < wanting.len() && wanting[k] == entries[i];
            assert(pending_jobs(entries)[k] == job_of(entries[i]));
            assert(results[k].job == pending_jobs(entries)[k]);
            lemma_stored_settles(entries, results, i, k);
        }
    }
    assert(stored.filter(wants).len() == 0) by {
        if stored.filter(wants).len() > 0 {
            stored.lemma_filter_pred(wants, 0);
            assert(stored.filter(wants).contains(stored.filter(wants)[0]));
            stored.lemma_filter_contains_rev(wants, stored.filter(wants)[0]);
            let i = choose|i: int| 0 <= i < stored.len() && stored[i] == stored.filter(wants)[0];
            assert(!stored[i].needs_exe_icon);
        }
    }
}

/// A pass over pending jobs keeps the icons and their order.
pub proof fn fallback_pass_keeps_order(
    entries: Seq<registry::EntryView>,
    results: Seq<ResultView>,
)
    requires
        registry::unique_keys(entries),
    ensures
        fallbacks_stored(entries, results).len() == entries.len(),
        forall|i: int|
            0 <= i < entries.len() ==> {
                let e = #[trigger] fallbacks_stored(entries, results)[i];
                e.owner_hwnd == entries[i].owner_hwnd && e.uid == entries[i].uid
            },
{
    lemma_stored_keys(entries, results);
}

/// A click on a registered icon goes by what the owner registered, whatever the user interface
/// passes.
pub proof fn registration_decides_clicks(
    entries: Seq<registry::EntryView>,
    owner: isize,
    uid: u32,
    flags: u32,
    buf: Seq<u8>,
    rendered: Option<Seq<char>>,
    pid: u32,
    exe_path: Seq<char>,
    version: u32,
    cb_arg: u32,
    ver_arg: u32,
)
    requires
        registry::unique_keys(entries),
        registry::has_flag(flags, registry::NIF_MESSAGE),
        registry::u32_or_zero(buf, registry::NID_UCALLBACK as int) != 0,
    ensures
        ({
            let update = registry::block_update(flags, buf, rendered);
            let added = registry::upserted(entries, owner, uid, update, pid, exe_path);
            let stated = registry::versioned(added, owner, uid, version);
            resolved(stated, owner, uid, cb_arg, ver_arg) == (
                registry::u32_or_zero(buf, registry::NID_UCALLBACK as int),
                version,
            )
        }),
{
    let update = registry::block_update(flags, buf, rendered);
    let added = registry::upserted(entries, owner, uid, update, pid, exe_path);
    registry::position_finds_first_match(entries, owner, uid);
    registry::registration_is_found(entries, owner, uid, update, pid, exe_path);
    registry::position_finds_first_match(added, owner, uid);
    let stated = registry::versioned(added, owner, uid, version);
    let i = registry::position(added, owner, uid)->0;
    registry::versions_keep_unique_keys(added, owner, uid, version);
    registry::position_with_unique_keys(stated, owner, uid, i);
}

/// After an announcement, nothing is due until the registry changes again; and a change is due
/// once it has settled, at the latest, whatever was announced before it.
pub proof fn each_change_is_announced_once(
    host: registry::HostView,
    last: u64,
    now_ms: u64,
    entries: Seq<registry::EntryView>,
    later_ms: u64,
    much_later_ms: u64,
)
    requires
        announcement_due(host, last, now_ms),
        much_later_ms >= later_ms + DEBOUNCE_MS,
    ensures
        !announcement_due(host, host.change_seq, much_later_ms),
        announcement_due(host.changed(entries, later_ms), host.change_seq, much_later_ms),
        !announcement_due(
            host.changed(entries, later_ms),
            host.change_seq,
            (later_ms + DEBOUNCE_MS - 1) as u64,
        ),
{
}

/// The host runs exactly while it has its window: from the creation of the window to the end of
/// the message loop.
pub proof fn host_runs_while_it_has_a_window(host: registry::HostView, event: HostEvent)
    requires
        host.running <==> host.hwnd != 0,
        event matches HostEvent::WindowCreated { hwnd: Some(h) } ==> h != 0,
    ensures
        host_after(host, event).running <==> host_after(host, event).hwnd != 0,
{
}

proof fn lemma_stored_entry(
    entries: Seq<registry::EntryView>,
    results: Seq<ResultView>,
    i: int,
)
    requires
        registry::unique_keys(entries),
        0 <= i < entries.len(),
    ensures
        ({
            let e = fallbacks_stored(entries, results)[i];
            ||| e == entries[i]
            ||| {
                &&& entries[i].needs_exe_icon
                &&& exists|k: int|
                    0 <= k < results.len() && entries[i].matches(
                        (#[trigger] results[k]).job.owner_hwnd,
                        results[k].job.uid,
                    ) && e == settled(entries[i], results[k])
            }
        }),
    decreases results.len(),
{
    if results.len() > 0 {
        let front = results.drop_last();
        let last = results.last();
        let before = fallbacks_stored(entries, front);
        lemma_stored_entry(entries, front, i);
        lemma_stored_keys(entries, front);
        assert(before[i].owner_hwnd == entries[i].owner_hwnd);
        registry::position_finds_first_match(before, last.job.owner_hwnd, last.job.uid);
        if before[i] != entries[i] {
            let k = choose|k: int|
                0 <= k < front.len() && entries[i].matches(
                    (#[trigger] front[k]).job.owner_hwnd,
                    front[k].job.uid,
                ) && before[i] == settled(entries[i], front[k]);
            assert(results[k] == front[k]);
        } else if fallbacks_stored(entries, results)[i] != before[i] {
            assert(results[results.len() - 1] == last);
            assert(before[i].matches(last.job.owner_hwnd, last.job.uid));
        }
    }
}

/// An entry that owed its icon and got the picture of a job.
pub open spec fn settled(e: registry::EntryView, r: ResultView) -> registry::EntryView {
    registry::EntryView { icon_url: fallback_url(r), needs_exe_icon: false, ..e }
}

/// A pass over the current work list leaves the entries alone that owe nothing. Each of the others
/// gets the picture of its own job, and nothing else of it changes.
pub proof fn fallback_pass_settles_each_entry(
    entries: Seq<registry::EntryView>,
    results: Seq<ResultView>,
    i: int,
)
    requires
        registry::unique_keys(entries),
        results.len() == pending_jobs(entries).len(),
        forall|k: int|
            0 <= k < results.len() ==> (#[trigger] results[k]).job == pending_jobs(entries)[k],
        0 <= i < entries.len(),
    ensures
        !entries[i].needs_exe_icon ==> fallbacks_stored(entries, results)[i] == entries[i],
        entries[i].needs_exe_icon ==> exists|k: int|
            0 <= k < results.len() && (#[trigger] results[k]).job == job_of(entries[i])
                && fallbacks_stored(entries, results)[i] == settled(entries[i], results[k]),
{
    lemma_stored_entry(entries, results, i);
    fallback_pass_is_complete(entries, results);
    let stored = fallbacks_stored(entries, results);
    lemma_stored_keys(entries, results);
    if entries[i].needs_exe_icon {
        assert(!stored[i].needs_exe_icon);
        let k = choose|k: int|
            0 <= k < results.len() && entries[i].matches(
                (#[trigger] results[k]).job.owner_hwnd,
                results[k].job.uid,
            ) && stored[i] == settled(entries[i], results[k]);
        let wants = |e: registry::EntryView| e.needs_exe_icon;
        let wanting = entries.filter(wants);
        assert(results[k].job == job_of(wanting[k]));
        assert(wanting.contains(wanting[k]));
        entries.lemma_filter_contains_rev(wants, wanting[k]);
        let j = choose|j: int| 0 <= j < entries.len() && entries[j] == wanting[k];
        assert(j == i);
    }
}

/// No two icons of the list share a key.
pub proof fn listed_icons_have_distinct_ids(entries: Seq<registry::EntryView>, i: int, j: int)
    requires
        registry::unique_keys(entries),
        0 <= i < j < entries.len(),
    ensures
        icons_of(entries)[i].id != icons_of(entries)[j].id,
{
    let a = entries[i];
    let b = entries[j];
    if icons_of(entries)[i].id == icons_of(entries)[j].id {
        icon::id_is_unique(a.owner_hwnd, a.uid, b.owner_hwnd, b.uid);
    }
}

/// The event is one that the action can lead to.
pub open spec fn answers(a: HostAction, event: HostEvent) -> bool {
    match a {
        HostAction::RegisterClass => event is ClassRegistered,
        HostAction::CreateWindow => event is WindowCreated,
        HostAction::AnnounceAndPump | HostAction::DispatchAndPump => event is Pumped,
        HostAction::HandBack => event is HandedBack,
        HostAction::UnregisterAndStop | HostAction::Stop => false,
    }
}

/// The events are those of a window thread from its beginning on.
pub open spec fn is_run(events: Seq<HostEvent>) -> bool {
    &&& events.len() > 0
    &&& events[0] is Began
    &&& forall|i: int|
        0 <= i < events.len() - 1 ==> answers(host_next(#[trigger] events[i]), events[i + 1])
}

/// The window thread ends with the last of the events.
pub open spec fn is_whole_run(events: Seq<HostEvent>) -> bool {
    &&& is_run(events)
    &&& host_next(events.last()) is Stop || host_next(events.last()) is UnregisterAndStop
}

/// The host after all of `events`.
pub open spec fn host_after_all(host: registry::HostView, events: Seq<HostEvent>) -> registry::HostView
    decreases events.len(),
{
    if events.len() == 0 {
        host
    } else {
        host_after(host_after_all(host, events.drop_last()), events.last())
    }
}

/// How often the thread takes an action.
pub open spec fn times(events: Seq<HostEvent>, a: HostAction) -> nat
    decreases events.len(),
{
    if events.len() == 0 {
        0
    } else {
        times(events.drop_last(), a) + if host_next(events.last()) == a {
            1nat
        } else {
            0nat
        }
    }
}

/// The event hands over the window.
pub open spec fn gives_window(event: HostEvent) -> bool {
    event matches HostEvent::WindowCreated { hwnd } && hwnd is Some
}

/// The window was created.
pub open spec fn window_created(events: Seq<HostEvent>) -> bool {
    exists|i: int| 0 <= i < events.len() && gives_window(#[trigger] events[i])
}

/// Where a thread stands after its last event.
spec fn stands(host: registry::HostView, events: Seq<HostEvent>) -> bool {
    let after = host_after_all(host, events);
    let announced = times(events, HostAction::AnnounceAndPump);
    let handed_back = times(events, HostAction::HandBack);
    match events.last() {
        HostEvent::Began { .. } | HostEvent::ClassRegistered { .. } | HostEvent::WindowCreated {
            hwnd: None,
        } => !window_created(events) && announced == 0 && handed_back == 0 && after == host,
        HostEvent::WindowCreated { hwnd: Some(h) } => window_created(events) && announced == 1
            && handed_back == 0 && after == (registry::HostView { hwnd: h, running: true, ..host }),
        HostEvent::Pumped { result } => window_created(events) && announced == 1 && if result > 0 {
            handed_back == 0 && after == (registry::HostView {
                hwnd: after.hwnd,
                running: true,
                ..host
            })
        } else {
            handed_back == 1 && after == (registry::HostView { hwnd: 0, running: false, ..host })
        },
        HostEvent::HandedBack => window_created(events) && announced == 1 && handed_back == 1
            && after == (registry::HostView {
            hwnd: 0,
            running: false,
            shutdown_done: true,
            ..host
        }),
    }
}

proof fn lemma_run_stands(host: registry::HostView, events: Seq<HostEvent>)
    requires
        is_run(events),
        host.hwnd == 0,
        !host.running,
    ensures
        stands(host, events),
    decreases events.len(),
{
    let last = events.last();
    let front = events.drop_last();
    assert(last == events[events.len() - 1]);
    if front.len() == 0 {
        assert(host_after_all(host, front) == host);
        assert(times(front, HostAction::AnnounceAndPump) == 0);
        assert(times(front, HostAction::HandBack) == 0);
    } else {
        let n = front.len() as int;
        assert forall|i: int| 0 <= i < front.len() - 1 implies answers(
            host_next(#[trigger] front[i]),
            front[i + 1],
        ) by {
            assert(events[i] == front[i]);
        }
        lemma_run_stands(host, front);
        assert(events[n - 1] == front.last());
        assert(answers(host_next(events[n - 1]), events[n - 1 + 1]));
        if window_created(front) {
            let i = choose|i: int| 0 <= i < front.len() && gives_window(#[trigger] front[i]);
            assert(events[i] == front[i]);
        }
        assert forall|i: int|
            0 <= i < events.len() && gives_window(#[trigger] events[i]) implies window_created(
            front,
        ) || gives_window(last) by {
            if i < front.len() {
                assert(front[i] == events[i]);
            }
        }
    }
}

/// However a run of the window thread goes, it ends without a window and not running, with the
/// icons as they were. Applications are asked to register here, and later to register with the
/// system's tray again, once each exactly if the window was created.
pub proof fn the_host_ends_as_it_began(host: registry::HostView, events: Seq<HostEvent>)
    requires
        is_whole_run(events),
        host.hwnd == 0,
        !host.running,
    ensures
        host_after_all(host, events) == (registry::HostView {
            shutdown_done: host.shutdown_done || window_created(events),
            ..host
        }),
        times(events, HostAction::AnnounceAndPump) == (if window_created(events) {
            1nat
        } else {
            0nat
        }),
        times(events, HostAction::HandBack) == (if window_created(events) {
            1nat
        } else {
            0nat
        }),
{
    lemma_run_stands(host, events);
}

// ---------------------------------------------------------------- what each step is for

/// A data block is always answered with 1, and handled exactly if it is a registration that has
/// data, of at least 36 bytes. The host's own message destroys the window, the end of the window
/// ends the loop, and every other message is the system's.
pub proof fn only_registrations_are_handled(msg: u32, block: Option<CopyData>)
    ensures
        ({
            let a = window_action(msg, block);
            &&& a is HandleBlock <==> msg == 0x004A && block is Some && block->0.dw_data == 1
                && block->0.has_data && block->0.cb_data >= 36
            &&& a is Acknowledge <==> msg == 0x004A && !(a is HandleBlock)
            &&& a is Destroy <==> msg == 0x8001
            &&& a is Quit <==> msg == 0x0002
            &&& msg == 0x004A ==> reply_of(a) == Some(1isize)
            &&& msg == 0x8001 || msg == 0x0002 ==> reply_of(a) == Some(0isize)
            &&& msg != 0x004A && msg != 0x8001 && msg != 0x0002 ==> a is PassOn && reply_of(a)
                is None
        }),
{
}

/// The window thread goes on only after a success, and hands back whenever its loop ends.
pub proof fn the_thread_goes_on_after_success(event: HostEvent)
    ensures
        event matches HostEvent::Began { module_found } ==> if module_found {
            host_next(event) is RegisterClass
        } else {
            host_next(event) is Stop
        },
        event matches HostEvent::ClassRegistered { atom } ==> if atom != 0 {
            host_next(event) is CreateWindow
        } else {
            host_next(event) is Stop
        },
        event matches HostEvent::WindowCreated { hwnd } ==> if hwnd is Some {
            host_next(event) is AnnounceAndPump
        } else {
            host_next(event) is UnregisterAndStop
        },
        event matches HostEvent::Pumped { result } ==> if result > 0 {
            host_next(event) is DispatchAndPump
        } else {
            host_next(event) is HandBack
        },
        event is HandedBack ==> host_next(event) is Stop,
{
}

/// The window thread touches nothing of the registry, and its window is the one that was created.
pub proof fn the_thread_keeps_the_registry(host: registry::HostView, event: HostEvent)
    ensures
        ({
            let after = host_after(host, event);
            &&& after.entries == host.entries
            &&& after.change_seq == host.change_seq
            &&& after.last_change_ms == host.last_change_ms
            &&& after.last_cbdata == host.last_cbdata && after.last_raw == host.last_raw
            &&& event matches HostEvent::WindowCreated { hwnd: Some(h) } ==> after.hwnd == h
                && after.running && after.shutdown_done == host.shutdown_done
            &&& event matches HostEvent::Pumped { result } ==> result <= 0 ==> after.hwnd == 0
                && !after.running && after.shutdown_done == host.shutdown_done
            &&& event is HandedBack ==> after.shutdown_done && after.hwnd == host.hwnd
                && after.running == host.running
        }),
{
}

/// A change is announced exactly if there was one since the last announcement and 150
/// milliseconds have passed since the last.
pub proof fn changes_wait_until_they_settle(host: registry::HostView, last: u64, now_ms: u64)
    ensures
        announcement_due(host, last, now_ms) <==> host.change_seq != last && now_ms
            - host.last_change_ms >= 150,
{
}

/// The work list names every entry that owes its executable's icon, in order, by owner and id and
/// with its path; and no other.
pub proof fn the_work_list_is_what_is_owed(
    entries: Seq<registry::EntryView>,
    e: registry::EntryView,
)
    ensures
        pending_jobs(Seq::<registry::EntryView>::empty()).len() == 0,
        e.needs_exe_icon ==> pending_jobs(entries.push(e)) == pending_jobs(entries).push(
            JobView { owner_hwnd: e.owner_hwnd, uid: e.uid, exe_path: e.exe_path },
        ),
        !e.needs_exe_icon ==> pending_jobs(entries.push(e)) == pending_jobs(entries),
{
    reveal(Seq::filter);
    let wants = |x: registry::EntryView| x.needs_exe_icon;
    assert(entries.push(e).drop_last() =~= entries);
    assert(Seq::<registry::EntryView>::empty().filter(wants) =~= seq![]);
    if e.needs_exe_icon {
        assert(pending_jobs(entries.push(e)) =~= pending_jobs(entries).push(job_of(e)));
    } else {
        assert(pending_jobs(entries.push(e)) =~= pending_jobs(entries));
    }
}

/// A finished job gives the picture that was rendered, or the placeholder where nothing was or
/// the executable is unknown; only the entry that it is for takes it, and only while it owes one.
pub proof fn finished_jobs_settle_their_entry(
    entries: Seq<registry::EntryView>,
    r: ResultView,
    i: int,
)
    requires
        registry::stands_for(entries, r.job.owner_hwnd, r.job.uid, i),
    ensures
        ({
            let after = fallback_stored(entries, r);
            let e = after[i];
            let was = entries[i];
            &&& after.len() == entries.len()
            &&& forall|j: int| 0 <= j < entries.len() && j != i ==> #[trigger] after[j] == entries[j]
            &&& !was.needs_exe_icon ==> e == was
            &&& was.needs_exe_icon ==> {
                &&& !e.needs_exe_icon
                &&& r.rendered is Some && r.job.exe_path.len() > 0 ==> e.icon_url == r.rendered->0
                &&& r.rendered is None || r.job.exe_path.len() == 0 ==> e.icon_url
                    == GENERIC_TRAY_ICON@
                &&& e.owner_hwnd == was.owner_hwnd && e.uid == was.uid
                &&& e.callback_msg == was.callback_msg && e.version == was.version
                &&& e.tip == was.tip && e.exe_path == was.exe_path && e.pid == was.pid
            }
        }),
{
    registry::icons_are_found_by_owner_and_id(entries, r.job.owner_hwnd, r.job.uid, i);
}

/// The outcome of a job whose icon is gone is dropped.
pub proof fn jobs_of_removed_icons_are_dropped(entries: Seq<registry::EntryView>, r: ResultView)
    requires
        registry::is_absent(entries, r.job.owner_hwnd, r.job.uid),
    ensures
        fallback_stored(entries, r) == entries,
{
    registry::icons_are_found_by_owner_and_id(entries, r.job.owner_hwnd, r.job.uid, 0);
}

/// Outcomes are stored one after another.
pub proof fn outcomes_are_stored_in_turn(
    entries: Seq<registry::EntryView>,
    results: Seq<ResultView>,
    r: ResultView,
)
    ensures
        fallbacks_stored(entries, Seq::empty()) == entries,
        fallbacks_stored(entries, results.push(r)) == fallback_stored(
            fallbacks_stored(entries, results),
            r,
        ),
{
    assert(results.push(r).drop_last() =~= results);
}

/// The list shows every entry, in order and with all of its fields, and no empty picture.
pub proof fn the_list_shows_every_entry(entries: Seq<registry::EntryView>, i: int)
    requires
        0 <= i < entries.len(),
    ensures
        ({
            let ic = icons_of(entries)[i];
            let e = entries[i];
            &&& icons_of(entries).len() == entries.len()
            &&& ic.owner_hwnd == e.owner_hwnd && ic.uid == e.uid
            &&& ic.callback_msg == e.callback_msg && ic.version == e.version
            &&& ic.tooltip == e.tip && ic.exe_path == e.exe_path && ic.pid == e.pid
            &&& e.icon_url.len() > 0 ==> ic.icon == e.icon_url
            &&& e.icon_url.len() == 0 ==> ic.icon == GENERIC_TRAY_ICON@
            &&& ic.icon.len() > 0
            &&& exists|k: int| icon::reads_as(ic.id, k, e.owner_hwnd, e.uid)
        }),
{
    registry::icons_show_their_entries(entries[i]);
    icon::generic_icon_is_not_empty();
}

/// A click goes by the callback and the version of the registered icon; what the user interface
/// passed counts for an icon that is not registered, and for a callback that was never given.
pub proof fn clicks_go_by_the_registration(
    entries: Seq<registry::EntryView>,
    owner: isize,
    uid: u32,
    cb_arg: u32,
    ver_arg: u32,
    i: int,
)
    ensures
        ({
            let (cb, ver) = resolved(entries, owner, uid, cb_arg, ver_arg);
            &&& registry::stands_for(entries, owner, uid, i) ==> {
                &&& ver == entries[i].version
                &&& entries[i].callback_msg != 0 ==> cb == entries[i].callback_msg
                &&& entries[i].callback_msg == 0 ==> cb == cb_arg
            }
            &&& registry::is_absent(entries, owner, uid) ==> cb == cb_arg && ver == ver_arg
        }),
{
    registry::icons_are_found_by_owner_and_id(entries, owner, uid, i);
}

/// The dump has its first line, the state of the host, two lines on the last block where there
/// was one, a line for each icon in order, and its last line with their number.
pub proof fn dumps_have_every_line(host: registry::HostView, i: int)
    requires
        0 <= i < host.entries.len(),
    ensures
        ({
            let lines = dump_lines(host);
            let raw = if host.last_raw.len() == 0 {
                0int
            } else {
                2int
            };
            let n = host.entries.len() as int;
            &&& lines.len() == 2 + raw + n + 1
            &&& lines[0] == "[tray_host] ===== tray_diagnostics begin ====="@
            &&& lines[1] == status_line(host)
            &&& raw == 2 ==> lines[2] == raw_line(host.last_raw) && lines[3] == parsed_line(
                host.last_raw,
            )
            &&& lines[2 + raw + i] == icon::icon_line_text(
                "[tray_host]"@,
                host.entries[i].to_icon(),
            )
            &&& text::shows(lines[2 + raw + n], " ("@ + text::decimal(n))
        }),
{
    let n = host.entries.len() as int;
    assert("[tray_host] ===== tray_diagnostics end ("@ =~= "[tray_host] ===== tray_diagnostics end"@
        + " ("@) by {
        reveal_strlit("[tray_host] ===== tray_diagnostics end (");
        reveal_strlit("[tray_host] ===== tray_diagnostics end");
        reveal_strlit(" (");
    }
    let head = "[tray_host] ===== tray_diagnostics end"@;
    text::lemma_appended(head, " ("@, text::decimal(n));
    text::lemma_appended(head + " ("@ + text::decimal(n), " icons) ====="@, Seq::empty());
    assert(end_line(host.entries.len()) =~= head + " ("@ + text::decimal(n) + " icons) ====="@
        + Seq::<char>::empty());
}

/// The line on the state shows whether the host runs, its window and the length of the last
/// block.
pub proof fn status_lines_show_the_state(host: registry::HostView)
    ensures
        host.running ==> text::shows(status_line(host), " host_running=true"@),
        !host.running ==> text::shows(status_line(host), " host_running=false"@),
        text::shows(
            status_line(host),
            " host_hwnd=0x"@ + text::hexadecimal(text::word_bits(host.hwnd)),
        ),
        text::shows(status_line(host), " last_cbData="@ + text::decimal(host.last_cbdata as int)),
{
    reveal_strlit("[tray_host] host_running=");
    reveal_strlit("[tray_host]");
    reveal_strlit(" host_running=");
    reveal_strlit(" host_running=true");
    reveal_strlit(" host_running=false");
    reveal_strlit("true");
    reveal_strlit("false");
    let word = if host.running {
        "true"@
    } else {
        "false"@
    };
    let l1 = "[tray_host]"@ + " host_running="@ + word;
    let hwnd = text::hexadecimal(text::word_bits(host.hwnd));
    let l2 = l1 + " host_hwnd=0x"@ + hwnd;
    let length = text::decimal(host.last_cbdata as int);
    let l3 = l2 + " last_cbData="@ + length;
    text::lemma_appended("[tray_host]"@, " host_running="@, word);
    text::lemma_appended(l1, " host_hwnd=0x"@, hwnd);
    text::lemma_appended(l2, " last_cbData="@, length);
    text::lemma_appended(l3, " (expect ~1484)"@, Seq::empty());
    assert("[tray_host] host_running="@ =~= "[tray_host]"@ + " host_running="@);
    assert(" host_running="@ + "true"@ =~= " host_running=true"@);
    assert(" host_running="@ + "false"@ =~= " host_running=false"@);
    assert(status_line(host) =~= l3 + " (expect ~1484)"@ + Seq::<char>::empty());
}

/// The raw line shows the bytes before the hover text, at most 48, and says how many.
pub proof fn raw_lines_stop_before_the_hover_text(raw: Seq<u8>)
    ensures
        ({
            let n = if raw.len() < 48 {
                raw.len() as int
            } else {
                48
            };
            &&& text::shows(raw_line(raw), "raw[0.."@ + text::decimal(n))
            &&& text::shows(raw_line(raw), "=["@ + text::hex_dump(raw.take(n)))
        }),
{
    reveal_strlit("[tray_host] raw[0..");
    reveal_strlit("[tray_host] ");
    reveal_strlit("raw[0..");
    reveal_strlit("]=[");
    reveal_strlit("]");
    reveal_strlit("=[");
    let n = dumped_len(raw) as int;
    let head = "[tray_host] "@;
    let l1 = head + "raw[0.."@ + text::decimal(n);
    let l2 = l1 + "]"@ + Seq::<char>::empty();
    let dump = text::hex_dump(raw.take(n));
    let l3 = l2 + "=["@ + dump;
    text::lemma_appended(head, "raw[0.."@, text::decimal(n));
    text::lemma_appended(l1, "]"@, Seq::empty());
    text::lemma_appended(l2, "=["@, dump);
    text::lemma_appended(l3, "]"@, Seq::empty());
    assert("[tray_host] raw[0.."@ =~= head + "raw[0.."@);
    assert("]=["@ =~= "]"@ + "=["@);
    assert(raw_line(raw) =~= l3 + "]"@ + Seq::<char>::empty());
}

/// A word of a block as a dump shows it: 0 where the block ends before it.
pub open spec fn shown_word(raw: Seq<u8>, off: int) -> u32 {
    match wire::u32_at(raw, off) {
        Some(v) => v,
        None => 0,
    }
}

/// A double word of a block as a dump shows it.
pub open spec fn shown_double(raw: Seq<u8>, off: int) -> u64 {
    match wire::u64_at(raw, off) {
        Some(v) => v,
        None => 0,
    }
}

/// The parsed line shows the words of the block at their places.
pub proof fn parsed_lines_show_the_words(raw: Seq<u8>)
    ensures
        ({
            let line = parsed_line(raw);
            &&& text::shows(line, " dwMessage="@ + text::decimal(shown_word(raw, 4) as int))
            &&& text::shows(line, " nid.cbSize="@ + text::decimal(shown_word(raw, 8) as int))
            &&& text::shows(line, " hWnd=0x"@ + text::hexadecimal(shown_double(raw, 16) as nat))
            &&& text::shows(line, " uID="@ + text::decimal(shown_word(raw, 24) as int))
            &&& text::shows(line, " uFlags=0x"@ + text::hexadecimal(shown_word(raw, 28) as nat))
            &&& text::shows(line, " cb=0x"@ + text::hexadecimal(shown_word(raw, 32) as nat))
            &&& text::shows(line, " hIcon=0x"@ + text::hexadecimal(shown_double(raw, 40) as nat))
            &&& text::shows(line, " uVersion="@ + text::decimal(shown_word(raw, 824) as int))
        }),
{
    reveal_strlit("[tray_host] parsed: dwMessage=");
    reveal_strlit("[tray_host] parsed:");
    reveal_strlit(" dwMessage=");
    let head = "[tray_host] parsed:"@;
    let v1 = text::decimal(shown_word(raw, 4) as int);
    let v2 = text::decimal(shown_word(raw, 8) as int);
    let v3 = text::hexadecimal(shown_double(raw, 16) as nat);
    let v4 = text::decimal(shown_word(raw, 24) as int);
    let v5 = text::hexadecimal(shown_word(raw, 28) as nat);
    let v6 = text::hexadecimal(shown_word(raw, 32) as nat);
    let v7 = text::hexadecimal(shown_double(raw, 40) as nat);
    let v8 = text::decimal(shown_word(raw, 824) as int);
    let l1 = head + " dwMessage="@ + v1;
    let l2 = l1 + " nid.cbSize="@ + v2;
    let l3 = l2 + " hWnd=0x"@ + v3;
    let l4 = l3 + " uID="@ + v4;
    let l5 = l4 + " uFlags=0x"@ + v5;
    let l6 = l5 + " cb=0x"@ + v6;
    let l7 = l6 + " hIcon=0x"@ + v7;
    text::lemma_appended(head, " dwMessage="@, v1);
    text::lemma_appended(l1, " nid.cbSize="@, v2);
    text::lemma_appended(l2, " hWnd=0x"@, v3);
    text::lemma_appended(l3, " uID="@, v4);
    text::lemma_appended(l4, " uFlags=0x"@, v5);
    text::lemma_appended(l5, " cb=0x"@, v6);
    text::lemma_appended(l6, " hIcon=0x"@, v7);
    text::lemma_appended(l7, " uVersion="@, v8);
    assert("[tray_host] parsed: dwMessage="@ =~= head + " dwMessage="@);
    assert(parsed_line(raw) =~= l7 + " uVersion="@ + v8);
}

/// The answer says how many icons there are while the host runs.
pub proof fn summaries_count_the_icons(host: registry::HostView)
    ensures
        host.running ==> text::shows(
            dump_summary(host),
            "tray_host: "@ + text::decimal(host.entries.len() as int),
        ),
        !host.running ==> text::shows(dump_summary(host), "tray host not running"@),
{
    let count = text::decimal(host.entries.len() as int);
    let rest = " icon(s) live; raw SHELLTRAYDATA + parsed offsets written to debug.log"@;
    text::lemma_appended(Seq::empty(), "tray_host: "@, count);
    text::lemma_appended(Seq::<char>::empty() + "tray_host: "@ + count, rest, Seq::empty());
    if host.running {
        assert(dump_summary(host) =~= Seq::<char>::empty() + "tray_host: "@ + count + rest
            + Seq::<char>::empty());
    } else {
        let whole = "tray host not running (Shell_TrayWnd registration failed) — see debug.log"@;
        reveal_strlit("tray host not running (Shell_TrayWnd registration failed) — see debug.log");
        reveal_strlit("tray host not running");
        let part = "tray host not running"@;
        assert(whole.subrange(0, part.len() as int) =~= part);
        assert(text::stands_at(whole, part, 0));
    }
}

/// The value of a job and of its result has their fields, each result at its place.
pub proof fn jobs_are_seen_as_they_are(job: FallbackJob, results: Seq<FallbackResult>, i: int)
    ensures
        job@.owner_hwnd == job.owner_hwnd,
        job@.uid == job.uid,
        job@.exe_path == job.exe_path@,
        result_views(results).len() == results.len(),
        0 <= i < results.len() ==> {
            let r = result_views(results)[i];
            &&& r.job == results[i].job@
            &&& r.rendered is Some <==> results[i].rendered is Some
            &&& results[i].rendered is Some ==> r.rendered->0 == results[i].rendered->0@
        },
{
}

} // verus!
