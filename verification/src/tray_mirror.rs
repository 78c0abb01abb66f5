//! The tray mirror: reads the icons out of the toolbar that the shell itself shows them in.
//!
//! The toolbar lives in another process. The caller asks it to fill a scratch buffer and copies
//! memory out; what the bytes mean, which buttons count and what an icon is made of is decided
//! here.

use vstd::prelude::*;

use crate::counter;
use crate::icon;
pub use crate::icon::TrayIcon;
use crate::icon::{make_id, Report, GENERIC_TRAY_ICON};
use crate::notify;
use crate::notify::Post;
use crate::registry;
use crate::text;
use crate::wire;

verus! {

/// Toolbar message: fill in the button at an index.
pub const TB_GETBUTTON: u32 = 0x0417;

/// Toolbar message: count the buttons.
pub const TB_BUTTONCOUNT: u32 = 0x0418;

/// Toolbar message: fill in the text of a button.
pub const TB_GETBUTTONTEXTW: u32 = 0x044B;

/// Bit of a button's state: the button is hidden.
pub const TBSTATE_HIDDEN_BIT: u8 = 0x08;

/// Size of the scratch buffer: a button at its start, then text.
pub const SCRATCH_SIZE: usize = 1024;

/// Where the text begins in the scratch buffer.
pub const TEXT_OFFSET: usize = 64;

/// How many UTF-16 units of text the scratch buffer holds.
pub const MAX_TEXT_CHARS: usize = 480;

/// Size of a button's record, and of the data behind it.
pub const RECORD_SIZE: usize = 32;

/// How many bytes of the data behind a button a diagnostic dump shows.
pub const DUMP_SIZE: usize = 48;

// ---------------------------------------------------------------- finding the toolbar

/// A step of the way from the shell's tray window to the toolbar.
#[derive(Clone, Copy, Debug, PartialEq, Eq, Structural)]
pub enum SearchStage {
    /// The tray window itself.
    Shell,
    /// The notification area in the tray window.
    Notify { shell: isize },
    /// The pager in the notification area.
    Pager { notify: isize },
    /// The toolbar in the pager.
    PagerToolbar { notify: isize, pager: isize },
    /// The toolbar directly in the notification area.
    Toolbar { notify: isize },
}

/// What follows from a step.
#[derive(Debug)]
pub enum SearchAction {
    /// Take this step next.
    Find(SearchStage),
    /// This is the toolbar.
    Found(isize),
    /// There is no toolbar.
    Failed(String),
}

/// The value of a `SearchAction`.
#[verifier::ext_equal]
pub enum SearchActionView {
    Find(SearchStage),
    Found(isize),
    Failed(Seq<char>),
}

impl View for SearchAction {
    type V = SearchActionView;

    open spec fn view(&self) -> SearchActionView {
        match self {
            SearchAction::Find(stage) => SearchActionView::Find(*stage),
            SearchAction::Found(h) => SearchActionView::Found(*h),
            SearchAction::Failed(e) => SearchActionView::Failed(e@),
        }
    }
}

/// The window to search in; none for the tray window itself.
pub fn search_parent(stage: SearchStage) -> (parent: Option<isize>)
    ensures
        parent == match stage {
            SearchStage::Shell => None::<isize>,
            SearchStage::Notify { shell } => Some(shell),
            SearchStage::Pager { notify } => Some(notify),
            SearchStage::PagerToolbar { notify, pager } => Some(pager),
            SearchStage::Toolbar { notify } => Some(notify),
        },
{
    match stage {
        SearchStage::Shell => None,
        SearchStage::Notify { shell } => Some(shell),
        SearchStage::Pager { notify } => Some(notify),
        SearchStage::PagerToolbar { notify: _, pager } => Some(pager),
        SearchStage::Toolbar { notify } => Some(notify),
    }
}

/// The window class to search for.
pub fn search_class(stage: SearchStage) -> (class: &'static str)
    ensures
        class@ == match stage {
            SearchStage::Shell => "Shell_TrayWnd"@,
            SearchStage::Notify { shell } => "TrayNotifyWnd"@,
            SearchStage::Pager { notify } => "SysPager"@,
            SearchStage::PagerToolbar { notify, pager } => "ToolbarWindow32"@,
            SearchStage::Toolbar { notify } => "ToolbarWindow32"@,
        },
{
    match stage {
        SearchStage::Shell => "Shell_TrayWnd",
        SearchStage::Notify { .. } => "TrayNotifyWnd",
        SearchStage::Pager { .. } => "SysPager",
        SearchStage::PagerToolbar { .. } => "ToolbarWindow32",
        SearchStage::Toolbar { .. } => "ToolbarWindow32",
    }
}

/// The value of a search result.
pub open spec fn found_view(r: Result<isize, String>) -> Result<isize, Seq<char>> {
    match r {
        Ok(h) => Ok(h),
        Err(e) => Err(e@),
    }
}

/// What follows from the result of a step. The pager may be missing: the toolbar is then looked
/// for directly in the notification area.
pub open spec fn search_next(stage: SearchStage, found: Result<isize, Seq<char>>) -> SearchActionView {
    match (stage, found) {
        (SearchStage::Shell, Ok(shell)) => SearchActionView::Find(SearchStage::Notify { shell }),
        (SearchStage::Shell, Err(e)) => SearchActionView::Failed("Shell_TrayWnd not found: "@ + e),
        (SearchStage::Notify { shell }, Ok(notify)) => SearchActionView::Find(
            SearchStage::Pager { notify },
        ),
        (SearchStage::Notify { shell }, Err(e)) => SearchActionView::Failed(
            "TrayNotifyWnd not found: "@ + e,
        ),
        (SearchStage::Pager { notify }, Ok(pager)) => SearchActionView::Find(
            SearchStage::PagerToolbar { notify, pager },
        ),
        (SearchStage::Pager { notify }, Err(e)) => SearchActionView::Find(
            SearchStage::Toolbar { notify },
        ),
        (SearchStage::PagerToolbar { notify, pager }, Ok(h)) => SearchActionView::Found(h),
        (SearchStage::PagerToolbar { notify, pager }, Err(e)) => SearchActionView::Find(
            SearchStage::Toolbar { notify },
        ),
        (SearchStage::Toolbar { notify }, Ok(h)) => SearchActionView::Found(h),
        (SearchStage::Toolbar { notify }, Err(e)) => SearchActionView::Failed(
            "tray ToolbarWindow32 not found: "@ + e,
        ),
    }
}

fn not_found(what: &str, e: &String) -> (s: String)
    ensures
        s@ == what@ + e@,
{
    let mut s = what.to_owned();
    s.append(e.as_str());
    s
}

/// One step of the search for the toolbar, which begins at `SearchStage::Shell`.
pub fn find_tray_toolbar(stage: SearchStage, found: Result<isize, String>) -> (a: SearchAction)
    ensures
        a@ == search_next(stage, found_view(found)),
{
    match (stage, found) {
        (SearchStage::Shell, Ok(shell)) => SearchAction::Find(SearchStage::Notify { shell }),
        (SearchStage::Shell, Err(e)) => SearchAction::Failed(
            not_found("Shell_TrayWnd not found: ", &e),
        ),
        (SearchStage::Notify { .. }, Ok(notify)) => SearchAction::Find(
            SearchStage::Pager { notify },
        ),
        (SearchStage::Notify { .. }, Err(e)) => SearchAction::Failed(
            not_found("TrayNotifyWnd not found: ", &e),
        ),
        (SearchStage::Pager { notify }, Ok(pager)) => SearchAction::Find(
            SearchStage::PagerToolbar { notify, pager },
        ),
        (SearchStage::Pager { notify }, Err(_)) => SearchAction::Find(
            SearchStage::Toolbar { notify },
        ),
        (SearchStage::PagerToolbar { .. }, Ok(h)) => SearchAction::Found(h),
        (SearchStage::PagerToolbar { notify, pager: _ }, Err(_)) => SearchAction::Find(
            SearchStage::Toolbar { notify },
        ),
        (SearchStage::Toolbar { .. }, Ok(h)) => SearchAction::Found(h),
        (SearchStage::Toolbar { .. }, Err(e)) => SearchAction::Failed(
            not_found("tray ToolbarWindow32 not found: ", &e),
        ),
    }
}

// ---------------------------------------------------------------- the pass over the toolbar

/// What happened on the way to reading the buttons.
#[derive(Debug)]
pub enum ScanEvent {
    /// The search for the toolbar ended.
    Toolbar(Result<isize, String>),
    /// The toolbar belongs to this process; 0 is failure.
    Owner(u32),
    /// The process was opened for reading, or could not be.
    Process { pid: u32, refused: Option<String> },
    /// The toolbar said how many buttons it has.
    Count(isize),
    /// The scratch buffer for this many buttons was allocated, or could not be.
    Scratch { count: usize, allocated: bool },
}

/// What to do next.
#[derive(Debug)]
pub enum ScanAction {
    /// Ask which process the toolbar belongs to.
    ResolveOwner(isize),
    /// Open that process.
    OpenProcess(u32),
    /// Ask the toolbar for the number of its buttons.
    CountButtons,
    /// Allocate the scratch buffer.
    AllocateScratch { count: usize },
    /// Read the buttons from 0 on.
    ReadButtons { count: usize },
    /// There is nothing to read: the list is empty.
    Empty,
    /// The tray cannot be read.
    Failed(String),
}

/// The value of a `ScanAction`.
#[verifier::ext_equal]
pub enum ScanActionView {
    ResolveOwner(isize),
    OpenProcess(u32),
    CountButtons,
    AllocateScratch { count: usize },
    ReadButtons { count: usize },
    Empty,
    Failed(Seq<char>),
}

impl View for ScanAction {
    type V = ScanActionView;

    open spec fn view(&self) -> ScanActionView {
        match self {
            ScanAction::ResolveOwner(h) => ScanActionView::ResolveOwner(*h),
            ScanAction::OpenProcess(pid) => ScanActionView::OpenProcess(*pid),
            ScanAction::CountButtons => ScanActionView::CountButtons,
            ScanAction::AllocateScratch { count } => ScanActionView::AllocateScratch {
                count: *count,
            },
            ScanAction::ReadButtons { count } => ScanActionView::ReadButtons { count: *count },
            ScanAction::Empty => ScanActionView::Empty,
            ScanAction::Failed(e) => ScanActionView::Failed(e@),
        }
    }
}

/// What a scan has acquired in the toolbar's process. It is released when the scan ends, the
/// scratch buffer first.
#[derive(Clone, Copy, Debug, PartialEq, Eq, Structural)]
pub struct ScanRun {
    /// The process is open.
    pub process: bool,
    /// The scratch buffer is allocated.
    pub scratch: bool,
}

impl ScanRun {
    /// A scan that has not begun.
    pub fn new() -> (run: ScanRun)
        ensures
            !run.process,
            !run.scratch,
    {
        ScanRun { process: false, scratch: false }
    }
}

/// What a scan holds after an event.
pub open spec fn scan_after(run: ScanRun, event: ScanEvent) -> ScanRun {
    match event {
        ScanEvent::Process { pid, refused: None } => ScanRun { process: true, ..run },
        ScanEvent::Scratch { count, allocated: true } => ScanRun { scratch: true, ..run },
        _ => run,
    }
}

/// What follows from an event on the way to reading the buttons.
pub open spec fn scan_next(event: ScanEvent) -> ScanActionView {
    match event {
        ScanEvent::Toolbar(Ok(h)) => ScanActionView::ResolveOwner(h),
        ScanEvent::Toolbar(Err(e)) => ScanActionView::Failed(e@),
        ScanEvent::Owner(pid) => if pid == 0 {
            ScanActionView::Failed("could not resolve explorer pid for tray toolbar"@)
        } else {
            ScanActionView::OpenProcess(pid)
        },
        ScanEvent::Process { pid, refused } => match refused {
            None => ScanActionView::CountButtons,
            Some(e) => ScanActionView::Failed(
                "OpenProcess(explorer pid "@ + text::decimal(pid as int) + ") failed: "@ + e@,
            ),
        },
        ScanEvent::Count(n) => if n <= 0 {
            ScanActionView::Empty
        } else {
            ScanActionView::AllocateScratch { count: n as usize }
        },
        ScanEvent::Scratch { count, allocated } => if allocated {
            ScanActionView::ReadButtons { count }
        } else {
            ScanActionView::Failed("VirtualAllocEx in explorer failed"@)
        },
    }
}

/// Says what to do next on the way to reading the buttons, and keeps track of what is held.
pub fn scan_step(run: &mut ScanRun, event: ScanEvent) -> (a: ScanAction)
    ensures
        a@ == scan_next(event),
        *final(run) == scan_after(*old(run), event),
{
    match event {
        ScanEvent::Toolbar(Ok(h)) => ScanAction::ResolveOwner(h),
        ScanEvent::Toolbar(Err(e)) => ScanAction::Failed(e),
        ScanEvent::Owner(pid) => if pid == 0 {
            ScanAction::Failed("could not resolve explorer pid for tray toolbar".to_owned())
        } else {
            ScanAction::OpenProcess(pid)
        },
        ScanEvent::Process { pid, refused } => match refused {
            None => {
                run.process = true;
                ScanAction::CountButtons
            },
            Some(e) => {
                let mut s = "OpenProcess(explorer pid ".to_owned();
                text::push_decimal(&mut s, pid as i128);
                s.append(") failed: ");
                s.append(e.as_str());
                ScanAction::Failed(s)
            },
        },
        ScanEvent::Count(n) => if n <= 0 {
            ScanAction::Empty
        } else {
            ScanAction::AllocateScratch { count: n as usize }
        },
        ScanEvent::Scratch { count, allocated } => if allocated {
            run.scratch = true;
            ScanAction::ReadButtons { count }
        } else {
            ScanAction::Failed("VirtualAllocEx in explorer failed".to_owned())
        },
    }
}

// ---------------------------------------------------------------- one button

/// The fields of a toolbar button that count.
#[derive(Clone, Copy, Debug, PartialEq, Eq, Structural)]
pub struct TbButton {
    pub id_command: i32,
    pub fs_state: u8,
    /// Address of the icon's data in the shell's process.
    pub dw_data: u64,
}

/// The data that the shell keeps for an icon (64-bit layout).
#[derive(Clone, Copy, Debug, PartialEq, Eq, Structural)]
pub struct TrayData {
    pub hwnd: isize,
    pub uid: u32,
    pub callback_msg: u32,
    pub dw_state: u32,
    pub u_version: u32,
    pub hicon: isize,
}

/// The button in a copied record; none if the record is incomplete.
pub open spec fn button_at(buf: Seq<u8>) -> Option<TbButton> {
    if buf.len() < RECORD_SIZE {
        None
    } else {
        Some(
            TbButton {
                id_command: notify::sign_extended(wire::u32_value(buf, 4) as u32) as i32,
                fs_state: buf[8],
                dw_data: wire::u64_value(buf, 16) as u64,
            },
        )
    }
}

/// The icon data in a copied record; none if the record is incomplete.
pub open spec fn tray_data_at(buf: Seq<u8>) -> Option<TrayData> {
    if buf.len() < RECORD_SIZE {
        None
    } else {
        Some(
            TrayData {
                hwnd: registry::handle_value(wire::u64_value(buf, 0) as u64),
                uid: wire::u32_value(buf, 8) as u32,
                callback_msg: wire::u32_value(buf, 12) as u32,
                dw_state: wire::u32_value(buf, 16) as u32,
                u_version: wire::u32_value(buf, 20) as u32,
                hicon: registry::handle_value(wire::u64_value(buf, 24) as u64),
            },
        )
    }
}

/// Whether a button is shown and has data behind it.
pub open spec fn is_shown(b: TbButton) -> bool {
    b.fs_state & TBSTATE_HIDDEN_BIT == 0 && b.dw_data != 0
}

/// The button in a record, if it is shown and has data behind it.
pub open spec fn shown_button(buf: Seq<u8>) -> Option<TbButton> {
    match button_at(buf) {
        Some(b) if is_shown(b) => Some(b),
        _ => None,
    }
}

/// Reads the button whose data is to be read next.
pub fn parse_shown_button(buf: &[u8]) -> (b: Option<TbButton>)
    ensures
        b == shown_button(buf@),
{
    if buf.len() < RECORD_SIZE {
        return None;
    }
    let id: u32 = registry::read_u32_or_zero(buf, 4);
    let id_command: i32 = notify::signed_word(id);
    let button = TbButton {
        id_command,
        fs_state: buf[8],
        dw_data: registry::read_u64_or_zero(buf, 16),
    };
    if button.fs_state & TBSTATE_HIDDEN_BIT != 0 {
        return None;
    }
    if button.dw_data == 0 {
        return None;
    }
    Some(button)
}

/// Reads the icon data behind a button.
pub fn parse_tray_data(buf: &[u8]) -> (d: Option<TrayData>)
    ensures
        d == tray_data_at(buf@),
{
    if buf.len() < RECORD_SIZE {
        return None;
    }
    Some(
        TrayData {
            hwnd: registry::handle_from(registry::read_u64_or_zero(buf, 0)),
            uid: registry::read_u32_or_zero(buf, 8),
            callback_msg: registry::read_u32_or_zero(buf, 12),
            dw_state: registry::read_u32_or_zero(buf, 16),
            u_version: registry::read_u32_or_zero(buf, 20),
            hicon: registry::handle_from(registry::read_u64_or_zero(buf, 24)),
        },
    )
}

/// How many units of text to copy for a length that the toolbar gave.
pub open spec fn text_units(n: isize) -> usize {
    if n <= 0 {
        0
    } else if n > MAX_TEXT_CHARS {
        MAX_TEXT_CHARS
    } else {
        n as usize
    }
}

/// Says how many UTF-16 units of text to copy.
pub fn button_text_units(n: isize) -> (units: usize)
    ensures
        units == text_units(n),
{
    if n <= 0 {
        0
    } else if n as usize > MAX_TEXT_CHARS {
        MAX_TEXT_CHARS
    } else {
        n as usize
    }
}

/// The hover text of a button: empty without a text or where it could not be copied.
pub open spec fn button_text(n: isize, copied: Option<Seq<u8>>) -> Seq<char> {
    match copied {
        Some(bytes) if n > 0 => text::decode_utf16(wire::all_units(bytes)),
        _ => seq![],
    }
}

/// Decodes the hover text of a button.
pub fn read_button_text(n: isize, copied: &Option<Vec<u8>>) -> (s: String)
    ensures
        s@ == button_text(n, opt_bytes(*copied)),
{
    if n <= 0 {
        return String::new();
    }
    match copied {
        Some(bytes) => wire::decode_wide_buffer(bytes.as_slice()),
        None => String::new(),
    }
}

/// The bytes of an optional buffer.
pub open spec fn opt_bytes(b: Option<Vec<u8>>) -> Option<Seq<u8>> {
    match b {
        Some(v) => Some(v@),
        None => None,
    }
}

/// The picture of an icon: the rendered handle, else the icon of the executable, else the
/// placeholder.
pub open spec fn icon_url(
    hicon: isize,
    rendered: Option<Seq<char>>,
    exe_path: Seq<char>,
    exe_icon: Option<Seq<char>>,
) -> Seq<char> {
    match (rendered, exe_icon) {
        (Some(url), _) if hicon != 0 => url,
        (_, Some(url)) if exe_path.len() > 0 => url,
        _ => GENERIC_TRAY_ICON@,
    }
}

/// Chooses the picture of an icon.
pub fn icon_data_url(
    hicon: isize,
    rendered: &Option<String>,
    exe_path: &str,
    exe_icon: &Option<String>,
) -> (url: String)
    ensures
        url@ == icon_url(
            hicon,
            registry::opt_text(*rendered),
            exe_path@,
            registry::opt_text(*exe_icon),
        ),
{
    if hicon != 0 {
        if let Some(url) = rendered {
            return url.clone();
        }
    }
    if !exe_path.is_empty() {
        if let Some(url) = exe_icon {
            return url.clone();
        }
    }
    GENERIC_TRAY_ICON.to_owned()
}

/// Everything that the caller read for one button.
#[derive(Debug)]
pub struct ButtonReads {
    /// The button's record, where the toolbar filled it in and it could be copied.
    pub button: Option<Vec<u8>>,
    /// The icon data that the button points at, where it could be copied.
    pub data: Option<Vec<u8>>,
    /// The length of the text that the toolbar gave.
    pub text_len: isize,
    /// The text, where it could be copied.
    pub text: Option<Vec<u8>>,
    /// Process id of the owner.
    pub pid: u32,
    /// Path of the owner's executable; empty if unknown.
    pub exe_path: String,
    /// `data:` URL of the icon handle, where it could be rendered.
    pub rendered: Option<String>,
    /// `data:` URL of the executable's icon, where it could be rendered.
    pub exe_icon: Option<String>,
}

/// The value of a `ButtonReads`.
#[verifier::ext_equal]
pub struct ButtonReadsView {
    pub button: Option<Seq<u8>>,
    pub data: Option<Seq<u8>>,
    pub text_len: isize,
    pub text: Option<Seq<u8>>,
    pub pid: u32,
    pub exe_path: Seq<char>,
    pub rendered: Option<Seq<char>>,
    pub exe_icon: Option<Seq<char>>,
}

impl View for ButtonReads {
    type V = ButtonReadsView;

    open spec fn view(&self) -> ButtonReadsView {
        ButtonReadsView {
            button: opt_bytes(self.button),
            data: opt_bytes(self.data),
            text_len: self.text_len,
            text: opt_bytes(self.text),
            pid: self.pid,
            exe_path: self.exe_path@,
            rendered: registry::opt_text(self.rendered),
            exe_icon: registry::opt_text(self.exe_icon),
        }
    }
}

/// The version that is trusted: 3 and 4 as they are, everything else is unknown.
pub open spec fn trusted_version(v: u32) -> u32 {
    if v == 3 || v == 4 {
        v
    } else {
        0
    }
}

/// The icon that a button's reads make; none where the button is hidden, has no data, or its
/// data could not be copied or names no owner.
pub open spec fn button_icon(r: ButtonReadsView) -> Option<icon::TrayIconView> {
    match (r.button, r.data) {
        (Some(button), Some(data)) => match (shown_button(button), tray_data_at(data)) {
            (Some(_), Some(td)) if td.hwnd != 0 => Some(
                icon::TrayIconView {
                    id: icon::id_text(td.hwnd, td.uid),
                    owner_hwnd: td.hwnd,
                    uid: td.uid,
                    callback_msg: td.callback_msg,
                    version: trusted_version(td.u_version),
                    tooltip: button_text(r.text_len, r.text),
                    exe_path: r.exe_path,
                    pid: r.pid,
                    icon: icon_url(td.hicon, r.rendered, r.exe_path, r.exe_icon),
                },
            ),
            _ => None,
        },
        _ => None,
    }
}

/// The value of an optional icon.
pub open spec fn opt_icon(i: Option<TrayIcon>) -> Option<icon::TrayIconView> {
    match i {
        Some(ic) => Some(ic@),
        None => None,
    }
}

/// Makes the icon of one button.
pub fn read_one_button(reads: &ButtonReads) -> (r: Option<TrayIcon>)
    ensures
        opt_icon(r) == button_icon(reads@),
{
    match &reads.button {
        Some(b) => if parse_shown_button(b.as_slice()).is_none() {
            return None;
        },
        None => return None,
    }
    let td: TrayData = match &reads.data {
        Some(d) => match parse_tray_data(d.as_slice()) {
            Some(td) => td,
            None => return None,
        },
        None => return None,
    };
    if td.hwnd == 0 {
        return None;
    }
    let version: u32 = if td.u_version == 3 || td.u_version == 4 {
        td.u_version
    } else {
        0
    };
    Some(
        TrayIcon {
            id: make_id(td.hwnd, td.uid),
            owner_hwnd: td.hwnd,
            uid: td.uid,
            callback_msg: td.callback_msg,
            version,
            tooltip: read_button_text(reads.text_len, &reads.text),
            exe_path: reads.exe_path.clone(),
            pid: reads.pid,
            icon: icon_data_url(
                td.hicon,
                &reads.rendered,
                reads.exe_path.as_str(),
                &reads.exe_icon,
            ),
        },
    )
}

/// The icons of a row of buttons, in their order.
pub open spec fn button_icons(reads: Seq<ButtonReadsView>) -> Seq<icon::TrayIconView>
    decreases reads.len(),
{
    if reads.len() == 0 {
        seq![]
    } else {
        let before = button_icons(reads.drop_last());
        match button_icon(reads.last()) {
            Some(ic) => before.push(ic),
            None => before,
        }
    }
}

/// The values of a row of reads.
pub open spec fn reads_views(reads: Seq<ButtonReads>) -> Seq<ButtonReadsView> {
    reads.map_values(|r: ButtonReads| r@)
}

/// The current icons, from what the pass over the toolbar gave: an error where the tray could
/// not be read, and an empty list where it has no icons.
pub fn read_tray_icons(scan: Result<Vec<ButtonReads>, String>) -> (r: Result<Vec<TrayIcon>, String>)
    ensures
        match (scan, r) {
            (Ok(reads), Ok(icons)) => icon::icon_views(icons@) == button_icons(
                reads_views(reads@),
            ),
            (Err(e), Err(f)) => e == f,
            _ => false,
        },
{
    match scan {
        Ok(reads) => {
            let ghost views = reads_views(reads@);
            let mut icons: Vec<TrayIcon> = Vec::new();
            let mut i: usize = 0;
            assert(icon::icon_views(icons@) =~= button_icons(views.take(0)));
            while i < reads.len()
                invariant
                    i <= reads.len(),
                    views == reads_views(reads@),
                    icon::icon_views(icons@) == button_icons(views.take(i as int)),
                decreases reads.len() - i,
            {
                let ghost before = icons@;
                proof {
                    assert(views.take(i + 1).drop_last() =~= views.take(i as int));
                    assert(views[i as int] == reads@[i as int]@);
                }
                if let Some(ic) = read_one_button(&reads[i]) {
                    icons.push(ic);
                    assert(icon::icon_views(icons@) =~= icon::icon_views(before).push(ic@));
                }
                i += 1;
            }
            assert(views.take(i as int) =~= views);
            Ok(icons)
        },
        Err(e) => Err(e),
    }
}

// ---------------------------------------------------------------- clicks

/// Forwards a left click: what to post to the owner, or that the owner's window is to be
/// brought up because it has no callback. After posting, `focus_needed` says whether the window
/// is to be brought up in the end.
pub fn activate(
    owner_hwnd: isize,
    uid: u32,
    callback_msg: u32,
    version: u32,
    x: i32,
    y: i32,
) -> (r: Result<notify::Activation, String>)
    ensures
        match r {
            Ok(a) => owner_hwnd != 0 && a@ == notify::activation_plan(
                callback_msg,
                version,
                x,
                y,
                uid,
            ),
            Err(e) => owner_hwnd == 0 && e@ == "tray_activate: null owner hwnd"@,
        },
{
    if owner_hwnd == 0 {
        return Err("tray_activate: null owner hwnd".to_owned());
    }
    Ok(notify::plan_activation(callback_msg, version, x, y, uid))
}

/// How many posts an activation has.
pub open spec fn post_count(version: u32) -> nat {
    if version == 4 {
        1
    } else if version == 0 {
        3
    } else {
        2
    }
}

/// Whether an activation arrived: its version-4 post was taken, or both legacy posts were.
pub open spec fn click_arrived(version: u32, delivered: Seq<bool>) -> bool {
    let n = delivered.len() as int;
    ||| (version == 4 || version == 0) && delivered[0]
    ||| version != 4 && delivered[n - 2] && delivered[n - 1]
}

/// Whether the owner's window is to be brought up after an activation was posted.
pub fn focus_needed(version: u32, delivered: &Vec<bool>) -> (r: bool)
    requires
        delivered.len() == post_count(version),
    ensures
        r == !click_arrived(version, delivered@),
{
    if version == 4 {
        !delivered[0]
    } else if version == 0 {
        !(delivered[0] || (delivered[1] && delivered[2]))
    } else {
        !(delivered[0] && delivered[1])
    }
}

/// Forwards a right click: what to post to the owner once its window is in the foreground.
pub fn open_menu(
    owner_hwnd: isize,
    uid: u32,
    callback_msg: u32,
    version: u32,
    x: i32,
    y: i32,
) -> (r: Result<Vec<Post>, String>)
    ensures
        match r {
            Ok(posts) => owner_hwnd != 0 && posts@ == notify::menu_plan(
                callback_msg,
                version,
                x,
                y,
                uid,
            ),
            Err(e) => owner_hwnd == 0 && e@ == "tray_open_menu: null owner hwnd"@,
        },
{
    if owner_hwnd == 0 {
        return Err("tray_open_menu: null owner hwnd".to_owned());
    }
    Ok(notify::plan_menu(callback_msg, version, x, y, uid))
}

// ---------------------------------------------------------------- diagnostics

/// The line on the number of buttons.
pub open spec fn count_line_text(count: isize) -> Seq<char> {
    "[tray] TB_BUTTONCOUNT = "@ + text::decimal(count as int)
}

/// Formats the line on the number of buttons.
pub fn count_line(count: isize) -> (line: String)
    ensures
        line@ == count_line_text(count),
{
    let mut line = "[tray] TB_BUTTONCOUNT = ".to_owned();
    text::push_decimal(&mut line, count as i128);
    line
}

/// The line on a button and the bytes behind it.
pub open spec fn button_line_text(index: usize, b: TbButton, raw: Seq<u8>) -> Seq<char> {
    "[tray] #"@ + text::decimal(index as int) + " idCommand="@ + text::decimal(b.id_command as int)
        + " fsState=0x"@ + text::zero_padded(text::numeral(b.fs_state as nat, 16, false), 2)
        + " dwData=0x"@ + text::hexadecimal(b.dw_data as nat) + " TRAYDATA raw=["@
        + text::hex_dump(raw) + "]"@
}

/// Formats the line on a button.
pub fn button_line(index: usize, b: TbButton, raw: &[u8]) -> (line: String)
    ensures
        line@ == button_line_text(index, b, raw@),
{
    let mut line = "[tray] #".to_owned();
    text::push_decimal(&mut line, index as i128);
    line.append(" idCommand=");
    text::push_decimal(&mut line, b.id_command as i128);
    line.append(" fsState=0x");
    text::push_hex_padded(&mut line, b.fs_state as u32, 2, false);
    line.append(" dwData=0x");
    text::push_hex(&mut line, b.dw_data);
    line.append(" TRAYDATA raw=[");
    line.append(text::hex(raw).as_str());
    line.append("]");
    line
}

/// The line on the data behind a button.
pub open spec fn data_line_text(index: usize, d: TrayData) -> Seq<char> {
    "[tray] #"@ + text::decimal(index as int) + " parsed hwnd=0x"@ + text::hexadecimal(
        text::word_bits(d.hwnd),
    ) + " uid="@ + text::decimal(d.uid as int) + " cb=0x"@ + text::hexadecimal(
        d.callback_msg as nat,
    ) + " state=0x"@ + text::hexadecimal(d.dw_state as nat) + " ver="@ + text::decimal(
        d.u_version as int,
    ) + " hicon=0x"@ + text::hexadecimal(text::word_bits(d.hicon))
}

/// Formats the line on the data behind a button.
pub fn data_line(index: usize, d: TrayData) -> (line: String)
    ensures
        line@ == data_line_text(index, d),
{
    let mut line = "[tray] #".to_owned();
    text::push_decimal(&mut line, index as i128);
    line.append(" parsed hwnd=0x");
    text::push_hex_handle(&mut line, d.hwnd);
    line.append(" uid=");
    text::push_decimal(&mut line, d.uid as i128);
    line.append(" cb=0x");
    text::push_hex(&mut line, d.callback_msg as u64);
    line.append(" state=0x");
    text::push_hex(&mut line, d.dw_state as u64);
    line.append(" ver=");
    text::push_decimal(&mut line, d.u_version as i128);
    line.append(" hicon=0x");
    text::push_hex_handle(&mut line, d.hicon);
    line
}

/// What a pass over the tray gave: the icons, or why it could not be read.
pub open spec fn outcome_view(r: Result<Vec<TrayIcon>, String>) -> Result<
    Seq<icon::TrayIconView>,
    Seq<char>,
> {
    match r {
        Ok(icons) => Ok(icon::icon_views(icons@)),
        Err(e) => Err(e@),
    }
}

/// The lines of a diagnostic dump, around those that were logged during the pass.
pub open spec fn dump_lines(
    trace: Seq<Seq<char>>,
    outcome: Result<Seq<icon::TrayIconView>, Seq<char>>,
) -> Seq<Seq<char>> {
    let begin = seq!["[tray] ===== tray_diagnostics begin ====="@] + trace;
    match outcome {
        Ok(icons) => begin + icon::icon_lines("[tray]"@, icons) + seq![
            "[tray] ===== tray_diagnostics end ("@ + text::decimal(icons.len() as int)
                + " icons) ====="@,
        ],
        Err(e) => begin + seq!["[tray] tray_diagnostics FAILED: "@ + e],
    }
}

/// The answer that goes with the dump.
pub open spec fn dump_summary(outcome: Result<Seq<icon::TrayIconView>, Seq<char>>) -> Seq<char> {
    match outcome {
        Ok(icons) => "tray_diagnostics: "@ + text::decimal(icons.len() as int)
            + " icon(s) enumerated — raw TRAYDATA byte dumps written to debug.log"@,
        Err(e) => "tray unavailable: "@ + e,
    }
}

/// Dumps a pass over the tray for the log. `trace` holds the lines that were logged during the
/// pass: the number of buttons, and two lines for each button whose data could be copied.
pub fn diagnostics(trace: Vec<String>, outcome: &Result<Vec<TrayIcon>, String>) -> (report: Report)
    ensures
        icon::line_texts(report.lines@) == dump_lines(
            icon::line_texts(trace@),
            outcome_view(*outcome),
        ),
        report.summary@ == dump_summary(outcome_view(*outcome)),
{
    let mut trace = trace;
    let ghost logged = icon::line_texts(trace@);
    let mut lines: Vec<String> = Vec::new();
    lines.push("[tray] ===== tray_diagnostics begin =====".to_owned());
    let ghost begin = lines@;
    let ghost traced = trace@;
    lines.append(&mut trace);
    assert(icon::line_texts(lines@) =~= icon::line_texts(begin) + logged);
    assert(icon::line_texts(begin) =~= seq!["[tray] ===== tray_diagnostics begin ====="@]);
    match outcome {
        Ok(icons) => {
            icon::push_icon_lines(&mut lines, "[tray]", icons);
            let mut end = "[tray] ===== tray_diagnostics end (".to_owned();
            text::push_decimal(&mut end, icons.len() as i128);
            end.append(" icons) =====");
            lines.push(end);
            let mut summary = "tray_diagnostics: ".to_owned();
            text::push_decimal(&mut summary, icons.len() as i128);
            summary.append(" icon(s) enumerated — raw TRAYDATA byte dumps written to debug.log");
            assert(icon::line_texts(lines@) =~= dump_lines(logged, outcome_view(*outcome)));
            Report { lines, summary }
        },
        Err(e) => {
            let mut failed = "[tray] tray_diagnostics FAILED: ".to_owned();
            failed.append(e.as_str());
            lines.push(failed);
            let mut summary = "tray unavailable: ".to_owned();
            summary.append(e.as_str());
            assert(icon::line_texts(lines@) =~= dump_lines(logged, outcome_view(*outcome)));
            Report { lines, summary }
        },
    }
}

// ---------------------------------------------------------------- polling

/// How long a poll waits between two passes.
pub const POLL_MS: u64 = 1500;

/// Numbers the polls, so that a newer one ends an older one.
pub struct TrayPoller {
    pub generation: u64,
}

impl TrayPoller {
    /// A poller that has not been started.
    pub fn new() -> (p: TrayPoller)
        ensures
            p.generation == 0,
    {
        TrayPoller { generation: 0 }
    }
}

/// Begins a poll and gives its number. Every earlier poll ends.
pub fn start(poller: &mut TrayPoller) -> (generation: u64)
    ensures
        final(poller).generation == counter::next_seq(old(poller).generation),
        generation == final(poller).generation,
{
    poller.generation = counter::advance(poller.generation);
    poller.generation
}

/// Ends the current poll.
pub fn stop(poller: &mut TrayPoller)
    ensures
        final(poller).generation == counter::next_seq(old(poller).generation),
{
    poller.generation = counter::advance(poller.generation);
}

/// Whether the poll with this number is still the current one.
pub fn poll_is_current(poller: &TrayPoller, generation: u64) -> (r: bool)
    ensures
        r == (poller.generation == generation),
{
    poller.generation == generation
}

// ---------------------------------------------------------------- laws

/// An activation has as many posts as `focus_needed` wants answers.
pub proof fn one_answer_per_post(callback: u32, version: u32, x: i32, y: i32, uid: u32)
    requires
        callback != 0,
    ensures
        notify::activation_plan(callback, version, x, y, uid)->0.len() == post_count(version),
{
}

/// A poll is never taken for the current one again once there was a start or a stop after it,
/// short of a full turn of the 64-bit counter.
pub proof fn superseded_polls_stay_superseded(generation: u64, bumps: nat)
    requires
        0 < bumps < 0x1_0000_0000_0000_0000,
    ensures
        counter::seq_after(generation, bumps) != generation,
{
    counter::earlier_values_stay_past(generation, bumps);
}

/// Every icon that is read has an owner, a trusted version and the key of its owner and id.
pub proof fn read_icons_are_usable(reads: Seq<ButtonReadsView>, i: int)
    requires
        0 <= i < button_icons(reads).len(),
    ensures
        ({
            let ic = button_icons(reads)[i];
            &&& ic.owner_hwnd != 0
            &&& ic.version == 0 || ic.version == 3 || ic.version == 4
            &&& ic.id == icon::id_text(ic.owner_hwnd, ic.uid)
        }),
    decreases reads.len(),
{
    let before = button_icons(reads.drop_last());
    if i < before.len() {
        read_icons_are_usable(reads.drop_last(), i);
    }
}

/// A button without a rendered picture shows the placeholder.
pub proof fn unrendered_icons_show_the_placeholder(reads: ButtonReadsView)
    requires
        reads.rendered is None,
        reads.exe_icon is None,
        button_icon(reads) is Some,
    ensures
        button_icon(reads)->0.icon == GENERIC_TRAY_ICON@,
{
}

/// How many results the search takes at most from a stage on.
pub open spec fn stages_left(stage: SearchStage) -> nat {
    match stage {
        SearchStage::Shell => 5,
        SearchStage::Notify { shell } => 4,
        SearchStage::Pager { notify } => 3,
        SearchStage::PagerToolbar { notify, pager } => 2,
        SearchStage::Toolbar { notify } => 1,
    }
}

/// Each result brings the search for the toolbar closer to its end.
pub proof fn search_ends(stage: SearchStage, found: Result<isize, Seq<char>>)
    ensures
        search_next(stage, found) matches SearchActionView::Find(next) ==> stages_left(next)
            < stages_left(stage),
        stages_left(stage) == 1 ==> !(search_next(stage, found) is Find),
{
}

/// What a scan holds after all of `events`.
pub open spec fn scan_after_all(run: ScanRun, events: Seq<ScanEvent>) -> ScanRun
    decreases events.len(),
{
    if events.len() == 0 {
        run
    } else {
        scan_after(scan_after_all(run, events.drop_last()), events.last())
    }
}

/// The event hands over an open process.
pub open spec fn opens_process(event: ScanEvent) -> bool {
    event matches ScanEvent::Process { pid, refused } && refused is None
}

/// The event hands over a scratch buffer.
pub open spec fn allocates_scratch(event: ScanEvent) -> bool {
    event matches ScanEvent::Scratch { count, allocated } && allocated
}

/// Whenever a scan ends, it holds the process and the scratch buffer exactly if it acquired them:
/// nothing is left behind in the other process.
pub proof fn acquired_memory_is_held(run: ScanRun, events: Seq<ScanEvent>)
    requires
        !run.process,
        !run.scratch,
    ensures
        scan_after_all(run, events).process <==> exists|i: int|
            0 <= i < events.len() && opens_process(#[trigger] events[i]),
        scan_after_all(run, events).scratch <==> exists|i: int|
            0 <= i < events.len() && allocates_scratch(#[trigger] events[i]),
    decreases events.len(),
{
    if events.len() > 0 {
        let before = events.drop_last();
        acquired_memory_is_held(run, before);
        assert(events.last() == events[events.len() - 1]);
        assert forall|i: int| 0 <= i < before.len() implies before[i] == #[trigger] events[i] by {}
        let held = scan_after_all(run, before);
        if held.process {
            let i = choose|i: int| 0 <= i < before.len() && opens_process(#[trigger] before[i]);
            assert(events[i] == before[i]);
        }
        if held.scratch {
            let i = choose|i: int| 0 <= i < before.len() && allocates_scratch(#[trigger] before[i]);
            assert(events[i] == before[i]);
        }
    }
}

// ---------------------------------------------------------------- what each step is for

/// Each step of the search looks inside the window that the step before found; the window found
/// last is the toolbar.
pub proof fn the_search_goes_into_what_it_found(stage: SearchStage, h: isize)
    ensures
        ({
            let a = search_next(stage, Ok(h));
            &&& stage is Shell ==> a == SearchActionView::Find(SearchStage::Notify { shell: h })
            &&& stage is Notify ==> a == SearchActionView::Find(SearchStage::Pager { notify: h })
            &&& stage matches SearchStage::Pager { notify } ==> a == SearchActionView::Find(
                SearchStage::PagerToolbar { notify, pager: h },
            )
            &&& stage is PagerToolbar || stage is Toolbar ==> a == SearchActionView::Found(h)
        }),
{
}

/// Without a pager, or without a toolbar in it, the toolbar is looked for in the same notification
/// area; any other failure ends the search and is reported with its reason.
pub proof fn the_search_does_without_a_pager(stage: SearchStage, e: Seq<char>)
    ensures
        ({
            let a = search_next(stage, Err(e));
            &&& stage matches SearchStage::Pager { notify } ==> a == SearchActionView::Find(
                SearchStage::Toolbar { notify },
            )
            &&& stage matches SearchStage::PagerToolbar { notify, pager } ==> a
                == SearchActionView::Find(SearchStage::Toolbar { notify })
            &&& stage is Shell || stage is Notify || stage is Toolbar ==> {
                &&& a is Failed
                &&& a->Failed_0.len() > e.len()
                &&& a->Failed_0.skip(a->Failed_0.len() - e.len()) == e
            }
        }),
{
    reveal_strlit("Shell_TrayWnd not found: ");
    reveal_strlit("TrayNotifyWnd not found: ");
    reveal_strlit("tray ToolbarWindow32 not found: ");
    let a = search_next(stage, Err(e));
    if a is Failed {
        assert(a->Failed_0.skip(a->Failed_0.len() - e.len()) =~= e);
    }
}

/// A scan goes on after each success, reads as many buttons as the toolbar has, finds an empty
/// tray where it has none, and fails otherwise.
pub proof fn scans_read_every_button(event: ScanEvent)
    ensures
        event matches ScanEvent::Toolbar(Ok(h)) ==> scan_next(event)
            == ScanActionView::ResolveOwner(h),
        event matches ScanEvent::Toolbar(Err(e)) ==> scan_next(event) == ScanActionView::Failed(e@),
        event matches ScanEvent::Owner(pid) ==> pid != 0 ==> scan_next(event)
            == ScanActionView::OpenProcess(pid),
        event matches ScanEvent::Owner(pid) ==> pid == 0 ==> scan_next(event) is Failed,
        event matches ScanEvent::Process { pid, refused } ==> refused is None ==> scan_next(event)
            is CountButtons,
        event matches ScanEvent::Process { pid, refused } ==> refused is Some ==> scan_next(event)
            is Failed && text::shows(
            scan_next(event)->Failed_0,
            "pid "@ + text::decimal(pid as int),
        ) && text::shows(scan_next(event)->Failed_0, " failed: "@ + refused->0@),
        event matches ScanEvent::Count(n) ==> n > 0 ==> scan_next(event)
            == (ScanActionView::AllocateScratch { count: n as usize }),
        event matches ScanEvent::Count(n) ==> n <= 0 ==> scan_next(event) is Empty,
        event matches ScanEvent::Scratch { count, allocated } ==> allocated ==> scan_next(event)
            == (ScanActionView::ReadButtons { count }),
        event matches ScanEvent::Scratch { count, allocated } ==> !allocated ==> scan_next(event)
            is Failed,
{
    if let ScanEvent::Process { pid, refused } = event {
        if let Some(e) = refused {
            lemma_refusal_text(pid, e@);
        }
    }
}

proof fn lemma_refusal_text(pid: u32, e: Seq<char>)
    ensures
        ({
            let line = "OpenProcess(explorer pid "@ + text::decimal(pid as int) + ") failed: "@ + e;
            &&& text::shows(line, "pid "@ + text::decimal(pid as int))
            &&& text::shows(line, " failed: "@ + e)
        }),
{
    let head = "OpenProcess(explorer "@;
    let l1 = head + "pid "@ + text::decimal(pid as int);
    let l2 = l1 + ")"@ + Seq::<char>::empty();
    text::lemma_appended(head, "pid "@, text::decimal(pid as int));
    text::lemma_appended(l1, ")"@, Seq::empty());
    text::lemma_appended(l2, " failed: "@, e);
    assert("OpenProcess(explorer pid "@ == head + "pid "@) by {
        reveal_strlit("OpenProcess(explorer pid ");
        reveal_strlit("OpenProcess(explorer ");
        reveal_strlit("pid ");
        assert("OpenProcess(explorer pid "@ =~= head + "pid "@);
    }
    assert(") failed: "@ == ")"@ + " failed: "@) by {
        reveal_strlit(") failed: ");
        reveal_strlit(")");
        reveal_strlit(" failed: ");
        assert(") failed: "@ =~= ")"@ + " failed: "@);
    }
    assert(l1 + ") failed: "@ =~= l2 + " failed: "@);
}

proof fn lemma_words_are_read(buf: Seq<u8>, off: int)
    requires
        0 <= off,
        off + 8 <= buf.len(),
    ensures
        wire::u32_at(buf, off) == Some(wire::u32_value(buf, off) as u32),
        wire::u64_at(buf, off) == Some(wire::u64_value(buf, off) as u64),
{
}

/// A button counts exactly if its record is whole, its hidden bit is clear and it has data; its
/// command is the signed word at 4, its state the byte at 8 and its data the double word at 16.
pub proof fn shown_buttons_are_read(buf: Seq<u8>)
    ensures
        shown_button(buf) is Some <==> buf.len() >= 32 && buf[8] & 0x08 == 0 && wire::u64_at(
            buf,
            16,
        )->0 != 0,
        shown_button(buf) matches Some(b) ==> {
            &&& (b.id_command - wire::u32_at(buf, 4)->0) % 0x1_0000_0000 == 0
            &&& b.fs_state == buf[8]
            &&& b.dw_data == wire::u64_at(buf, 16)->0
        },
{
    if buf.len() >= 32 {
        lemma_words_are_read(buf, 4);
        lemma_words_are_read(buf, 16);
    }
}

/// The data behind a button: owner, id, callback, state, version and icon at 0, 8, 12, 16, 20 and
/// 24.
pub proof fn tray_data_is_read(buf: Seq<u8>)
    ensures
        tray_data_at(buf) is Some <==> buf.len() >= 32,
        tray_data_at(buf) matches Some(d) ==> {
            &&& d.hwnd == registry::handle_value(wire::u64_at(buf, 0)->0)
            &&& d.uid == wire::u32_at(buf, 8)->0
            &&& d.callback_msg == wire::u32_at(buf, 12)->0
            &&& d.dw_state == wire::u32_at(buf, 16)->0
            &&& d.u_version == wire::u32_at(buf, 20)->0
            &&& d.hicon == registry::handle_value(wire::u64_at(buf, 24)->0)
        },
{
    if buf.len() >= 32 {
        lemma_words_are_read(buf, 0);
        lemma_words_are_read(buf, 8);
        lemma_words_are_read(buf, 12);
        lemma_words_are_read(buf, 16);
        lemma_words_are_read(buf, 20);
        lemma_words_are_read(buf, 24);
    }
}

/// A version is trusted as it was read where it is 3 or 4, and is unknown otherwise.
pub proof fn versions_are_trusted_as_read(v: u32)
    ensures
        v == 3 ==> trusted_version(v) == 3,
        v == 4 ==> trusted_version(v) == 4,
        v != 3 && v != 4 ==> trusted_version(v) == 0,
{
}

/// A button makes an icon exactly if it is shown and its data are whole and name an owner. The
/// icon is what the data say: owner, id and callback as they were read; the version word where it
/// is 3 or 4, and else 0; the text that was copied; and the picture of its handle, else that of
/// its executable, else the placeholder.
pub proof fn icons_are_what_their_buttons_say(r: ButtonReadsView)
    ensures
        ({
            let button = r.button->0;
            let data = r.data->0;
            let shown = r.button is Some && button.len() >= 32 && button[8] & 0x08 == 0
                && wire::u64_at(button, 16)->0 != 0;
            let owner = registry::handle_value(wire::u64_at(data, 0)->0);
            let version = wire::u32_at(data, 20)->0;
            let hicon = registry::handle_value(wire::u64_at(data, 24)->0);
            &&& button_icon(r) is Some <==> shown && r.data is Some && data.len() >= 32 && owner
                != 0
            &&& button_icon(r) matches Some(ic) ==> {
                &&& ic.owner_hwnd == owner
                &&& ic.uid == wire::u32_at(data, 8)->0
                &&& ic.callback_msg == wire::u32_at(data, 12)->0
                &&& version == 3 || version == 4 ==> ic.version == version
                &&& version != 3 && version != 4 ==> ic.version == 0
                &&& r.text_len > 0 && r.text is Some ==> ic.tooltip == text::decode_utf16(
                    wire::all_units(r.text->0),
                )
                &&& r.text_len <= 0 || r.text is None ==> ic.tooltip.len() == 0
                &&& ic.exe_path == r.exe_path
                &&& ic.pid == r.pid
                &&& hicon != 0 && r.rendered is Some ==> ic.icon == r.rendered->0
                &&& (hicon == 0 || r.rendered is None) && r.exe_path.len() > 0 && r.exe_icon is Some
                    ==> ic.icon == r.exe_icon->0
                &&& (hicon == 0 || r.rendered is None) && (r.exe_path.len() == 0 || r.exe_icon
                    is None) ==> ic.icon == GENERIC_TRAY_ICON@
                &&& exists|k: int| icon::reads_as(ic.id, k, ic.owner_hwnd, ic.uid)
            }
        }),
{
    if r.button is Some {
        shown_buttons_are_read(r.button->0);
    }
    if r.data is Some {
        tray_data_is_read(r.data->0);
    }
    if let Some(ic) = button_icon(r) {
        icon::ids_read_back(ic.owner_hwnd, ic.uid);
        let k = choose|k: int|
            icon::reads_as(icon::id_text(ic.owner_hwnd, ic.uid), k, ic.owner_hwnd, ic.uid);
        assert(icon::reads_as(ic.id, k, ic.owner_hwnd, ic.uid));
    }
}

/// The icons follow their buttons: each button adds its icon at the end, or nothing.
pub proof fn icons_follow_their_buttons(reads: Seq<ButtonReadsView>, r: ButtonReadsView)
    ensures
        button_icons(Seq::empty()).len() == 0,
        button_icon(r) is Some ==> button_icons(reads.push(r)) == button_icons(reads).push(
            button_icon(r)->0,
        ),
        button_icon(r) is None ==> button_icons(reads.push(r)) == button_icons(reads),
{
    assert(reads.push(r).drop_last() =~= reads);
}

/// A click on an icon that was read goes in the form of the version that its data state: packed
/// for version 4, as plain button messages for version 3.
pub proof fn mirrored_clicks_follow_the_version(r: ButtonReadsView, x: i32, y: i32)
    requires
        button_icon(r) is Some,
        button_icon(r)->0.callback_msg != 0,
    ensures
        ({
            let ic = button_icon(r)->0;
            let posts = notify::activation_plan(ic.callback_msg, ic.version, x, y, ic.uid)->0;
            let stated = wire::u32_at(r.data->0, 20)->0;
            &&& stated == 4 ==> posts.len() == 1 && notify::is_packed(
                posts[0],
                0x0400,
                x,
                y,
                ic.uid,
            )
            &&& stated == 3 ==> posts.len() == 2 && notify::is_plain(posts[0], 0x0201, ic.uid)
                && notify::is_plain(posts[1], 0x0202, ic.uid)
            &&& stated != 3 && stated != 4 ==> posts.len() == 3
        }),
{
    icons_are_what_their_buttons_say(r);
    let ic = button_icon(r)->0;
    notify::left_clicks_are_sent(ic.callback_msg, ic.version, x, y, ic.uid);
}

/// As many units of text are copied as the toolbar gave, none for none, and never more than 480.
pub proof fn texts_fit_the_scratch_buffer(n: isize)
    ensures
        n <= 0 ==> text_units(n) == 0,
        0 < n <= 480 ==> text_units(n) == n,
        n > 480 ==> text_units(n) == 480,
{
}

/// The picture of an icon: that of its handle, else that of its executable, else the placeholder.
pub proof fn pictures_fall_back_in_order(
    hicon: isize,
    rendered: Option<Seq<char>>,
    exe_path: Seq<char>,
    exe_icon: Option<Seq<char>>,
)
    ensures
        ({
            let url = icon_url(hicon, rendered, exe_path, exe_icon);
            let own = hicon != 0 && rendered is Some;
            let exe = exe_path.len() > 0 && exe_icon is Some;
            &&& own ==> url == rendered->0
            &&& !own && exe ==> url == exe_icon->0
            &&& !own && !exe ==> url == GENERIC_TRAY_ICON@
        }),
{
}

/// A click arrived if the packed post was taken, or both of the plain ones.
pub proof fn clicks_arrive_whole(version: u32, delivered: Seq<bool>)
    requires
        delivered.len() == post_count(version),
    ensures
        version == 4 ==> delivered.len() == 1 && (click_arrived(version, delivered)
            <==> delivered[0]),
        version == 0 ==> delivered.len() == 3 && (click_arrived(version, delivered)
            <==> delivered[0] || (delivered[1] && delivered[2])),
        version != 4 && version != 0 ==> delivered.len() == 2 && (click_arrived(version, delivered)
            <==> delivered[0] && delivered[1]),
{
}

/// The text of a button is what was copied, where the toolbar gave some.
pub proof fn button_texts_are_decoded(n: isize, copied: Option<Seq<u8>>)
    ensures
        n > 0 && copied is Some ==> button_text(n, copied) == text::decode_utf16(
            wire::all_units(copied->0),
        ),
        n <= 0 || copied is None ==> button_text(n, copied).len() == 0,
{
}

/// The lines of a scan show what was read, each under its name.
pub proof fn scan_lines_show_what_was_read(
    count: isize,
    index: usize,
    b: TbButton,
    raw: Seq<u8>,
    d: TrayData,
)
    ensures
        text::shows(count_line_text(count), "TB_BUTTONCOUNT = "@ + text::decimal(count as int)),
        ({
            let line = button_line_text(index, b, raw);
            let state = text::zero_padded(text::numeral(b.fs_state as nat, 16, false), 2);
            &&& text::shows(line, "#"@ + text::decimal(index as int))
            &&& text::shows(line, " idCommand="@ + text::decimal(b.id_command as int))
            &&& text::shows(line, " fsState=0x"@ + state)
            &&& text::shows(line, " dwData=0x"@ + text::hexadecimal(b.dw_data as nat))
            &&& text::shows(line, " TRAYDATA raw=["@ + text::hex_dump(raw))
        }),
        ({
            let line = data_line_text(index, d);
            &&& text::shows(line, "#"@ + text::decimal(index as int))
            &&& text::shows(line, "hwnd=0x"@ + text::hexadecimal(text::word_bits(d.hwnd)))
            &&& text::shows(line, " uid="@ + text::decimal(d.uid as int))
            &&& text::shows(line, " cb=0x"@ + text::hexadecimal(d.callback_msg as nat))
            &&& text::shows(line, " state=0x"@ + text::hexadecimal(d.dw_state as nat))
            &&& text::shows(line, " ver="@ + text::decimal(d.u_version as int))
            &&& text::shows(line, " hicon=0x"@ + text::hexadecimal(text::word_bits(d.hicon)))
        }),
{
    lemma_count_line(count);
    lemma_button_line(index, b, raw);
    lemma_data_line(index, d);
}

proof fn lemma_count_line(count: isize)
    ensures
        text::shows(count_line_text(count), "TB_BUTTONCOUNT = "@ + text::decimal(count as int)),
{
    reveal_strlit("[tray] TB_BUTTONCOUNT = ");
    reveal_strlit("[tray] ");
    reveal_strlit("TB_BUTTONCOUNT = ");
    text::lemma_appended("[tray] "@, "TB_BUTTONCOUNT = "@, text::decimal(count as int));
    assert("[tray] TB_BUTTONCOUNT = "@ =~= "[tray] "@ + "TB_BUTTONCOUNT = "@);
}

proof fn lemma_button_line(index: usize, b: TbButton, raw: Seq<u8>)
    ensures
        ({
            let line = button_line_text(index, b, raw);
            let state = text::zero_padded(text::numeral(b.fs_state as nat, 16, false), 2);
            &&& text::shows(line, "#"@ + text::decimal(index as int))
            &&& text::shows(line, " idCommand="@ + text::decimal(b.id_command as int))
            &&& text::shows(line, " fsState=0x"@ + state)
            &&& text::shows(line, " dwData=0x"@ + text::hexadecimal(b.dw_data as nat))
            &&& text::shows(line, " TRAYDATA raw=["@ + text::hex_dump(raw))
        }),
{
    let head = "[tray] "@;
    let v1 = text::decimal(index as int);
    let v2 = text::decimal(b.id_command as int);
    let v3 = text::zero_padded(text::numeral(b.fs_state as nat, 16, false), 2);
    let v4 = text::hexadecimal(b.dw_data as nat);
    let v5 = text::hex_dump(raw);
    let l1 = head + "#"@ + v1;
    let l2 = l1 + " idCommand="@ + v2;
    let l3 = l2 + " fsState=0x"@ + v3;
    let l4 = l3 + " dwData=0x"@ + v4;
    let l5 = l4 + " TRAYDATA raw=["@ + v5;
    text::lemma_appended(head, "#"@, v1);
    text::lemma_appended(l1, " idCommand="@, v2);
    text::lemma_appended(l2, " fsState=0x"@, v3);
    text::lemma_appended(l3, " dwData=0x"@, v4);
    text::lemma_appended(l4, " TRAYDATA raw=["@, v5);
    text::lemma_appended(l5, "]"@, Seq::empty());
    assert("[tray] #"@ == head + "#"@) by {
        reveal_strlit("[tray] #");
        reveal_strlit("[tray] ");
        reveal_strlit("#");
        assert("[tray] #"@ =~= head + "#"@);
    }
    assert(button_line_text(index, b, raw) =~= l5 + "]"@ + Seq::<char>::empty());
}

proof fn lemma_data_line(index: usize, d: TrayData)
    ensures
        ({
            let line = data_line_text(index, d);
            &&& text::shows(line, "#"@ + text::decimal(index as int))
            &&& text::shows(line, "hwnd=0x"@ + text::hexadecimal(text::word_bits(d.hwnd)))
            &&& text::shows(line, " uid="@ + text::decimal(d.uid as int))
            &&& text::shows(line, " cb=0x"@ + text::hexadecimal(d.callback_msg as nat))
            &&& text::shows(line, " state=0x"@ + text::hexadecimal(d.dw_state as nat))
            &&& text::shows(line, " ver="@ + text::decimal(d.u_version as int))
            &&& text::shows(line, " hicon=0x"@ + text::hexadecimal(text::word_bits(d.hicon)))
        }),
{
    let l2 = "[tray] #"@ + text::decimal(index as int) + " parsed hwnd=0x"@ + text::hexadecimal(
        text::word_bits(d.hwnd),
    );
    let l4 = l2 + " uid="@ + text::decimal(d.uid as int) + " cb=0x"@ + text::hexadecimal(
        d.callback_msg as nat,
    );
    lemma_data_line_begins(text::decimal(index as int), text::hexadecimal(text::word_bits(d.hwnd)));
    lemma_two_appended(
        l2,
        " uid="@,
        text::decimal(d.uid as int),
        " cb=0x"@,
        text::hexadecimal(d.callback_msg as nat),
    );
    lemma_two_appended(
        l4,
        " state=0x"@,
        text::hexadecimal(d.dw_state as nat),
        " ver="@,
        text::decimal(d.u_version as int),
    );
    text::lemma_appended(
        l4 + " state=0x"@ + text::hexadecimal(d.dw_state as nat) + " ver="@ + text::decimal(
            d.u_version as int,
        ),
        " hicon=0x"@,
        text::hexadecimal(text::word_bits(d.hicon)),
    );
}

proof fn lemma_two_appended(
    line: Seq<char>,
    name1: Seq<char>,
    value1: Seq<char>,
    name2: Seq<char>,
    value2: Seq<char>,
)
    ensures
        ({
            let all = line + name1 + value1 + name2 + value2;
            &&& text::shows(all, name1 + value1)
            &&& text::shows(all, name2 + value2)
            &&& forall|p: Seq<char>| text::shows(line, p) ==> #[trigger] text::shows(all, p)
        }),
{
    text::lemma_appended(line, name1, value1);
    text::lemma_appended(line + name1 + value1, name2, value2);
    let all = line + name1 + value1 + name2 + value2;
    assert forall|p: Seq<char>| text::shows(line, p) implies #[trigger] text::shows(all, p) by {
        assert(text::shows(line + name1 + value1, p));
    }
}

proof fn lemma_data_line_begins(index: Seq<char>, hwnd: Seq<char>)
    ensures
        ({
            let line = "[tray] #"@ + index + " parsed hwnd=0x"@ + hwnd;
            &&& text::shows(line, "#"@ + index)
            &&& text::shows(line, "hwnd=0x"@ + hwnd)
        }),
{
    let head = "[tray] "@;
    assert("[tray] #"@ == head + "#"@) by {
        reveal_strlit("[tray] #");
        reveal_strlit("[tray] ");
        reveal_strlit("#");
        assert("[tray] #"@ =~= head + "#"@);
    }
    assert(" parsed hwnd=0x"@ == " parsed "@ + "hwnd=0x"@) by {
        reveal_strlit(" parsed hwnd=0x");
        reveal_strlit(" parsed ");
        reveal_strlit("hwnd=0x");
        assert(" parsed hwnd=0x"@ =~= " parsed "@ + "hwnd=0x"@);
    }
    let none = Seq::<char>::empty();
    let l1 = head + "#"@ + index;
    let l2 = l1 + " parsed "@ + none;
    lemma_two_appended(head, "#"@, index, " parsed "@, none);
    text::lemma_appended(l2, "hwnd=0x"@, hwnd);
    assert(l1 + " parsed hwnd=0x"@ =~= l2 + "hwnd=0x"@);
}

/// The dump begins with its first line and what the scan traced, in order; a line for each icon
/// and the last line follow, or the failure with its reason.
pub proof fn mirror_dumps_have_every_line(
    trace: Seq<Seq<char>>,
    icons: Seq<icon::TrayIconView>,
    e: Seq<char>,
    i: int,
)
    ensures
        ({
            let read = dump_lines(trace, Ok(icons));
            let failed = dump_lines(trace, Err(e));
            let t = trace.len() as int;
            let n = icons.len() as int;
            &&& read.len() == 1 + t + n + 1
            &&& failed.len() == 1 + t + 1
            &&& read[0] == "[tray] ===== tray_diagnostics begin ====="@ && failed[0] == read[0]
            &&& 0 <= i < t ==> read[1 + i] == trace[i] && failed[1 + i] == trace[i]
            &&& 0 <= i < n ==> read[1 + t + i] == icon::icon_line_text("[tray]"@, icons[i])
            &&& text::shows(read[1 + t + n], " ("@ + text::decimal(n))
            &&& text::shows(failed[1 + t], " FAILED: "@ + e)
            &&& text::shows(
                dump_summary(Ok(icons)),
                "tray_diagnostics: "@ + text::decimal(n),
            )
            &&& text::shows(dump_summary(Err(e)), "tray unavailable: "@ + e)
        }),
{
    let n = icons.len() as int;
    let count = text::decimal(n);
    reveal_strlit("[tray] ===== tray_diagnostics end (");
    reveal_strlit("[tray] ===== tray_diagnostics end");
    reveal_strlit(" (");
    reveal_strlit("[tray] tray_diagnostics FAILED: ");
    reveal_strlit("[tray] tray_diagnostics");
    reveal_strlit(" FAILED: ");
    let head = "[tray] ===== tray_diagnostics end"@;
    text::lemma_appended(head, " ("@, count);
    text::lemma_appended(head + " ("@ + count, " icons) ====="@, Seq::empty());
    assert("[tray] ===== tray_diagnostics end ("@ =~= head + " ("@);
    assert("[tray] ===== tray_diagnostics end ("@ + count + " icons) ====="@ =~= head + " ("@
        + count + " icons) ====="@ + Seq::<char>::empty());
    text::lemma_appended("[tray] tray_diagnostics"@, " FAILED: "@, e);
    assert("[tray] tray_diagnostics FAILED: "@ =~= "[tray] tray_diagnostics"@ + " FAILED: "@);
    let none = Seq::<char>::empty();
    let rest = " icon(s) enumerated — raw TRAYDATA byte dumps written to debug.log"@;
    text::lemma_appended(none, "tray_diagnostics: "@, count);
    text::lemma_appended(none + "tray_diagnostics: "@ + count, rest, none);
    assert(dump_summary(Ok(icons)) =~= none + "tray_diagnostics: "@ + count + rest + none);
    text::lemma_appended(none, "tray unavailable: "@, e);
    assert(dump_summary(Err(e)) =~= none + "tray unavailable: "@ + e);
}

/// The value of what was read of a button has each of the readings, at its place.
pub proof fn reads_are_seen_as_they_are(reads: Seq<ButtonReads>, i: int)
    requires
        0 <= i < reads.len(),
    ensures
        reads_views(reads).len() == reads.len(),
        ({
            let seen = reads_views(reads)[i];
            let r = reads[i];
            &&& seen.button is Some <==> r.button is Some
            &&& r.button is Some ==> seen.button->0 == r.button->0@
            &&& seen.data is Some <==> r.data is Some
            &&& r.data is Some ==> seen.data->0 == r.data->0@
            &&& seen.text_len == r.text_len
            &&& seen.text is Some <==> r.text is Some
            &&& r.text is Some ==> seen.text->0 == r.text->0@
            &&& seen.pid == r.pid
            &&& seen.exe_path == r.exe_path@
            &&& seen.rendered is Some <==> r.rendered is Some
            &&& r.rendered is Some ==> seen.rendered->0 == r.rendered->0@
            &&& seen.exe_icon is Some <==> r.exe_icon is Some
            &&& r.exe_icon is Some ==> seen.exe_icon->0 == r.exe_icon->0@
        }),
{
}

/// Steps of a search and of a scan are seen with what they carry.
pub proof fn steps_are_seen_as_they_are(
    search: SearchAction,
    scan: ScanAction,
    found: Result<isize, String>,
    outcome: Result<Vec<TrayIcon>, String>,
)
    ensures
        search matches SearchAction::Find(stage) ==> search@ == SearchActionView::Find(stage),
        search matches SearchAction::Found(h) ==> search@ == SearchActionView::Found(h),
        search matches SearchAction::Failed(e) ==> search@ == SearchActionView::Failed(e@),
        scan matches ScanAction::ResolveOwner(h) ==> scan@ == ScanActionView::ResolveOwner(h),
        scan matches ScanAction::OpenProcess(pid) ==> scan@ == ScanActionView::OpenProcess(pid),
        scan is CountButtons <==> scan@ is CountButtons,
        scan matches ScanAction::AllocateScratch { count } ==> scan@
            == (ScanActionView::AllocateScratch { count }),
        scan matches ScanAction::ReadButtons { count } ==> scan@ == (ScanActionView::ReadButtons {
            count,
        }),
        scan is Empty <==> scan@ is Empty,
        scan matches ScanAction::Failed(e) ==> scan@ == ScanActionView::Failed(e@),
        found matches Ok(h) ==> found_view(found) == Ok::<isize, Seq<char>>(h),
        found matches Err(e) ==> found_view(found) == Err::<isize, Seq<char>>(e@),
        outcome matches Ok(icons) ==> outcome_view(outcome) is Ok && outcome_view(outcome)->Ok_0
            == icon::icon_views(icons@),
        outcome matches Err(e) ==> outcome_view(outcome) is Err && outcome_view(outcome)->Err_0
            == e@,
{
}

} // verus!
