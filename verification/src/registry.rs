//! The registry of tray icons.
//!
//! Applications register their notify icons by sending the shell's tray window a data block.
//! The registry keeps one entry per (owner window, icon id), in the order in which the icons
//! were first registered. Handling a block is a function of the registry, the block and what
//! the caller looked up for it: the rendered picture, the owner's process, the time.

use vstd::prelude::*;

use crate::counter;
use crate::icon;
use crate::icon::{make_id, TrayIcon, GENERIC_TRAY_ICON};
use crate::text;
use crate::wire;

verus! {

// Values of the message field of a registration.
pub const NIM_ADD: u32 = 0;

pub const NIM_MODIFY: u32 = 1;

pub const NIM_DELETE: u32 = 2;

pub const NIM_SETVERSION: u32 = 4;

// Bits of the flags field: which other fields of the block are valid.
pub const NIF_MESSAGE: u32 = 0x0001;

pub const NIF_ICON: u32 = 0x0002;

pub const NIF_TIP: u32 = 0x0004;

// Byte offsets in the data block (64-bit layout).
pub const OFF_DWMESSAGE: usize = 4;

pub const NID_CBSIZE: usize = 8;

pub const NID_HWND: usize = 16;

pub const NID_UID: usize = 24;

pub const NID_UFLAGS: usize = 28;

pub const NID_UCALLBACK: usize = 32;

pub const NID_HICON: usize = 40;

pub const NID_SZTIP: usize = 48;

pub const NID_UVERSION: usize = 824;

/// Length of the hover-text field, in UTF-16 units.
pub const SZTIP_CHARS: usize = 128;

/// The shortest block that holds everything up to the callback message.
pub const MIN_TRAY_BUF: usize = 36;

/// How much of the last block is kept for diagnostics.
pub const LAST_RAW_CAP: usize = 1024;

// ---------------------------------------------------------------- entries

/// One registered icon.
pub struct TrayEntry {
    pub owner_hwnd: isize,
    pub uid: u32,
    pub callback_msg: u32,
    pub version: u32,
    pub tip: String,
    pub exe_path: String,
    pub pid: u32,
    /// Rendered `data:` URL; empty until there is one.
    pub icon_url: String,
    /// The picture supplied was missing or could not be rendered, and the icon of the
    /// executable is still owed.
    pub needs_exe_icon: bool,
}

/// The value of a `TrayEntry`.
#[verifier::ext_equal]
pub struct EntryView {
    pub owner_hwnd: isize,
    pub uid: u32,
    pub callback_msg: u32,
    pub version: u32,
    pub tip: Seq<char>,
    pub exe_path: Seq<char>,
    pub pid: u32,
    pub icon_url: Seq<char>,
    pub needs_exe_icon: bool,
}

impl View for TrayEntry {
    type V = EntryView;

    open spec fn view(&self) -> EntryView {
        EntryView {
            owner_hwnd: self.owner_hwnd,
            uid: self.uid,
            callback_msg: self.callback_msg,
            version: self.version,
            tip: self.tip@,
            exe_path: self.exe_path@,
            pid: self.pid,
            icon_url: self.icon_url@,
            needs_exe_icon: self.needs_exe_icon,
        }
    }
}

impl EntryView {
    /// Whether the entry is the one for this owner and id.
    pub open spec fn matches(self, owner: isize, uid: u32) -> bool {
        self.owner_hwnd == owner && self.uid == uid
    }

    /// The icon that the user interface gets for the entry.
    pub open spec fn to_icon(self) -> icon::TrayIconView {
        icon::TrayIconView {
            id: icon::id_text(self.owner_hwnd, self.uid),
            owner_hwnd: self.owner_hwnd,
            uid: self.uid,
            callback_msg: self.callback_msg,
            version: self.version,
            tooltip: self.tip,
            exe_path: self.exe_path,
            pid: self.pid,
            icon: if self.icon_url.len() == 0 {
                GENERIC_TRAY_ICON@
            } else {
                self.icon_url
            },
        }
    }
}

impl TrayEntry {
    /// Whether the entry is the one for this owner and id.
    pub fn matches(&self, owner: isize, uid: u32) -> (r: bool)
        ensures
            r == self@.matches(owner, uid),
    {
        self.owner_hwnd == owner && self.uid == uid
    }

    /// The icon that the user interface gets. Its picture is never empty.
    pub fn to_icon(&self) -> (r: TrayIcon)
        ensures
            r@ == self@.to_icon(),
            r.icon@.len() > 0,
    {
        proof {
            icon::generic_icon_is_not_empty();
        }
        TrayIcon {
            id: make_id(self.owner_hwnd, self.uid),
            owner_hwnd: self.owner_hwnd,
            uid: self.uid,
            callback_msg: self.callback_msg,
            version: self.version,
            tooltip: self.tip.clone(),
            exe_path: self.exe_path.clone(),
            pid: self.pid,
            icon: if self.icon_url.as_str().is_empty() {
                GENERIC_TRAY_ICON.to_owned()
            } else {
                self.icon_url.clone()
            },
        }
    }
}

/// The values of a list of entries.
pub open spec fn entry_views(entries: Seq<TrayEntry>) -> Seq<EntryView> {
    entries.map_values(|e: TrayEntry| e@)
}

/// `i` is the first entry for this owner and id.
pub open spec fn is_first_match(entries: Seq<EntryView>, owner: isize, uid: u32, i: int) -> bool {
    &&& 0 <= i < entries.len()
    &&& entries[i].matches(owner, uid)
    &&& forall|j: int| 0 <= j < i ==> !(#[trigger] entries[j]).matches(owner, uid)
}

/// Where the first entry for this owner and id is.
pub open spec fn position(entries: Seq<EntryView>, owner: isize, uid: u32) -> Option<int> {
    if exists|i: int| is_first_match(entries, owner, uid, i) {
        Some(choose|i: int| is_first_match(entries, owner, uid, i))
    } else {
        None
    }
}

/// No two entries are for the same owner and id.
pub open spec fn unique_keys(entries: Seq<EntryView>) -> bool {
    forall|i: int, j: int|
        0 <= i < j < entries.len() ==> !((#[trigger] entries[i]).owner_hwnd == (
        #[trigger] entries[j]).owner_hwnd && entries[i].uid == entries[j].uid)
}

proof fn lemma_position_is(entries: Seq<EntryView>, owner: isize, uid: u32, i: int)
    requires
        is_first_match(entries, owner, uid, i),
    ensures
        position(entries, owner, uid) == Some(i),
{
    let k = choose|k: int| is_first_match(entries, owner, uid, k);
    assert(is_first_match(entries, owner, uid, k));
    if k < i {
        assert(entries[k].matches(owner, uid));
    }
}

/// With unique keys, whichever entry matches is the one that is found.
pub proof fn position_with_unique_keys(entries: Seq<EntryView>, owner: isize, uid: u32, i: int)
    requires
        unique_keys(entries),
        0 <= i < entries.len(),
        entries[i].matches(owner, uid),
    ensures
        position(entries, owner, uid) == Some(i),
{
    assert(is_first_match(entries, owner, uid, i));
    lemma_position_is(entries, owner, uid, i);
}

/// The first match is found, and nothing is found exactly where nothing matches.
pub proof fn position_finds_first_match(entries: Seq<EntryView>, owner: isize, uid: u32)
    ensures
        position(entries, owner, uid) is None <==> forall|i: int|
            0 <= i < entries.len() ==> !(#[trigger] entries[i]).matches(owner, uid),
        position(entries, owner, uid) matches Some(i) ==> is_first_match(entries, owner, uid, i),
    decreases entries.len(),
{
    if exists|i: int| 0 <= i < entries.len() && (#[trigger] entries[i]).matches(owner, uid) {
        let i = choose|i: int|
            0 <= i < entries.len() && (#[trigger] entries[i]).matches(owner, uid);
        lemma_first_match_exists(entries, owner, uid, i);
    }
}

proof fn lemma_first_match_exists(entries: Seq<EntryView>, owner: isize, uid: u32, i: int)
    requires
        0 <= i < entries.len(),
        entries[i].matches(owner, uid),
    ensures
        exists|k: int| is_first_match(entries, owner, uid, k),
    decreases i,
{
    if exists|j: int| 0 <= j < i && (#[trigger] entries[j]).matches(owner, uid) {
        let j = choose|j: int| 0 <= j < i && (#[trigger] entries[j]).matches(owner, uid);
        lemma_first_match_exists(entries, owner, uid, j);
    } else {
        assert(is_first_match(entries, owner, uid, i));
    }
}

/// Finds the entry for this owner and id.
pub fn find_entry(entries: &Vec<TrayEntry>, owner: isize, uid: u32) -> (r: Option<usize>)
    ensures
        match r {
            Some(i) => i < entries.len() && position(entry_views(entries@), owner, uid) == Some(
                i as int,
            ),
            None => position(entry_views(entries@), owner, uid) is None,
        },
{
    let ghost views = entry_views(entries@);
    let mut i: usize = 0;
    while i < entries.len()
        invariant
            i <= entries.len(),
            views == entry_views(entries@),
            forall|j: int| 0 <= j < i ==> !(#[trigger] views[j]).matches(owner, uid),
        decreases entries.len() - i,
    {
        assert(views[i as int] == entries@[i as int]@);
        if entries[i].matches(owner, uid) {
            proof {
                lemma_position_is(views, owner, uid, i as int);
            }
            return Some(i);
        }
        i += 1;
    }
    proof {
        position_finds_first_match(views, owner, uid);
    }
    None
}

// ---------------------------------------------------------------- the registry

/// The state of the tray host.
pub struct TrayHost {
    /// The registered icons, in the order of their registration.
    pub entries: Vec<TrayEntry>,
    /// Counts the changes of the registry.
    pub change_seq: u64,
    /// When the registry last changed.
    pub last_change_ms: u64,
    /// Length of the last data block.
    pub last_cbdata: u32,
    /// The start of the last data block.
    pub last_raw: Vec<u8>,
    /// The host window, or 0.
    pub hwnd: isize,
    /// Whether the host window is up.
    pub running: bool,
    /// Whether the window thread has finished since the last request to shut down.
    pub shutdown_done: bool,
}

/// The value of a `TrayHost`.
#[verifier::ext_equal]
pub struct HostView {
    pub entries: Seq<EntryView>,
    pub change_seq: u64,
    pub last_change_ms: u64,
    pub last_cbdata: u32,
    pub last_raw: Seq<u8>,
    pub hwnd: isize,
    pub running: bool,
    pub shutdown_done: bool,
}

impl View for TrayHost {
    type V = HostView;

    open spec fn view(&self) -> HostView {
        HostView {
            entries: entry_views(self.entries@),
            change_seq: self.change_seq,
            last_change_ms: self.last_change_ms,
            last_cbdata: self.last_cbdata,
            last_raw: self.last_raw@,
            hwnd: self.hwnd,
            running: self.running,
            shutdown_done: self.shutdown_done,
        }
    }
}

impl HostView {
    /// At most one entry per owner and id.
    pub open spec fn wf(self) -> bool {
        unique_keys(self.entries)
    }

    /// The state after a change of the registry at a given time.
    pub open spec fn changed(self, entries: Seq<EntryView>, now_ms: u64) -> HostView {
        HostView {
            entries,
            change_seq: counter::next_seq(self.change_seq),
            last_change_ms: now_ms,
            ..self
        }
    }
}

impl TrayHost {
    /// A host without a window and without icons.
    pub fn new() -> (host: TrayHost)
        ensures
            host@ == (HostView {
                entries: seq![],
                change_seq: 0,
                last_change_ms: 0,
                last_cbdata: 0,
                last_raw: seq![],
                hwnd: 0,
                running: false,
                shutdown_done: false,
            }),
            host@.wf(),
    {
        let host = TrayHost {
            entries: Vec::new(),
            change_seq: 0,
            last_change_ms: 0,
            last_cbdata: 0,
            last_raw: Vec::new(),
            hwnd: 0,
            running: false,
            shutdown_done: false,
        };
        assert(host@.entries =~= seq![]);
        host
    }
}

/// Records a change of the registry.
pub fn mark_changed(host: &mut TrayHost, now_ms: u64)
    ensures
        final(host)@ == old(host)@.changed(old(host)@.entries, now_ms),
        final(host).entries == old(host).entries,
{
    host.change_seq = counter::advance(host.change_seq);
    host.last_change_ms = now_ms;
}

// ---------------------------------------------------------------- data blocks

/// A window or icon handle from a 64-bit field: the signed value of as many low bits as a
/// handle has.
pub open spec fn handle_value(v: u64) -> isize {
    let m = v as int % (usize::MAX + 1);
    if m <= isize::MAX {
        m as isize
    } else {
        (m - (usize::MAX + 1)) as isize
    }
}

/// Reads a handle from a 64-bit field.
pub fn handle_from(v: u64) -> (h: isize)
    ensures
        h == handle_value(v),
{
    let values: u128 = usize::MAX as u128 + 1;
    let m: u128 = v as u128 % values;
    if m <= isize::MAX as u128 {
        m as isize
    } else {
        (m as i128 - values as i128) as isize
    }
}

/// What the caller looked up for a data block.
pub struct Lookup {
    /// The `data:` URL of the supplied picture, where it could be rendered.
    pub rendered: Option<String>,
    /// Process id of the owner.
    pub pid: u32,
    /// Path of the owner's executable.
    pub exe_path: String,
}

/// The value of a `Lookup`.
#[verifier::ext_equal]
pub struct LookupView {
    pub rendered: Option<Seq<char>>,
    pub pid: u32,
    pub exe_path: Seq<char>,
}

/// The text of an optional string.
pub open spec fn opt_text(s: Option<String>) -> Option<Seq<char>> {
    match s {
        Some(t) => Some(t@),
        None => None,
    }
}

impl View for Lookup {
    type V = LookupView;

    open spec fn view(&self) -> LookupView {
        LookupView {
            rendered: opt_text(self.rendered),
            pid: self.pid,
            exe_path: self.exe_path@,
        }
    }
}

/// The fields that a registration sets.
#[verifier::ext_equal]
pub struct UpdateView {
    pub callback: Option<u32>,
    pub tip: Option<Seq<char>>,
    /// The picture and whether the executable's icon is owed in its place.
    pub icon: Option<(Seq<char>, bool)>,
}

/// Whether a flag bit is set.
pub open spec fn has_flag(flags: u32, bit: u32) -> bool {
    flags & bit != 0
}

/// The icon handle that a block supplies; 0 where the block has none or ends before it.
pub open spec fn icon_handle(buf: Seq<u8>) -> isize {
    match wire::u64_at(buf, NID_HICON as int) {
        Some(v) => handle_value(v),
        None => 0,
    }
}

/// The fields that a block sets: those that its flags call valid, and no others. A picture
/// that is missing or could not be rendered leaves the executable's icon owed.
pub open spec fn block_update(flags: u32, buf: Seq<u8>, rendered: Option<Seq<char>>) -> UpdateView {
    UpdateView {
        callback: if has_flag(flags, NIF_MESSAGE) {
            wire::u32_at(buf, NID_UCALLBACK as int)
        } else {
            None
        },
        tip: if has_flag(flags, NIF_TIP) {
            Some(text::decode_utf16(wire::wide_units_at(buf, NID_SZTIP as int, SZTIP_CHARS as nat)))
        } else {
            None
        },
        icon: if has_flag(flags, NIF_ICON) {
            match rendered {
                Some(url) if icon_handle(buf) != 0 => Some((url, false)),
                _ => Some((seq![], true)),
            }
        } else {
            None
        },
    }
}

/// An existing entry after an update. A field that the update does not set stays, and so does
/// the picture where the update brings no new one.
pub open spec fn updated_entry(e: EntryView, u: UpdateView) -> EntryView {
    EntryView {
        callback_msg: match u.callback {
            Some(c) => c,
            None => e.callback_msg,
        },
        tip: match u.tip {
            Some(t) => t,
            None => e.tip,
        },
        icon_url: match u.icon {
            Some((url, _)) if url.len() > 0 => url,
            _ => e.icon_url,
        },
        needs_exe_icon: match u.icon {
            Some((url, needs)) => url.len() == 0 && needs,
            None => e.needs_exe_icon,
        },
        ..e
    }
}

/// The entry that a first registration makes.
pub open spec fn new_entry(
    owner: isize,
    uid: u32,
    u: UpdateView,
    pid: u32,
    exe_path: Seq<char>,
) -> EntryView {
    EntryView {
        owner_hwnd: owner,
        uid,
        callback_msg: match u.callback {
            Some(c) => c,
            None => 0,
        },
        version: 0,
        tip: match u.tip {
            Some(t) => t,
            None => seq![],
        },
        exe_path,
        pid,
        icon_url: match u.icon {
            Some((url, _)) => url,
            None => seq![],
        },
        needs_exe_icon: match u.icon {
            Some((url, needs)) => url.len() == 0 && needs,
            None => true,
        },
    }
}

/// The entries after a registration: the entry for this owner and id is updated in its place,
/// or a new one comes last.
pub open spec fn upserted(
    entries: Seq<EntryView>,
    owner: isize,
    uid: u32,
    u: UpdateView,
    pid: u32,
    exe_path: Seq<char>,
) -> Seq<EntryView> {
    match position(entries, owner, uid) {
        Some(i) => entries.update(i, updated_entry(entries[i], u)),
        None => entries.push(new_entry(owner, uid, u, pid, exe_path)),
    }
}

/// The entries after those for this owner and id were taken out.
pub open spec fn removed(entries: Seq<EntryView>, owner: isize, uid: u32) -> Seq<EntryView> {
    entries.filter(|e: EntryView| !e.matches(owner, uid))
}

/// The entries after the owner stated its protocol version.
pub open spec fn versioned(
    entries: Seq<EntryView>,
    owner: isize,
    uid: u32,
    version: u32,
) -> Seq<EntryView> {
    match position(entries, owner, uid) {
        Some(i) => entries.update(i, EntryView { version, ..entries[i] }),
        None => entries,
    }
}

proof fn lemma_upserted_unique(
    entries: Seq<EntryView>,
    owner: isize,
    uid: u32,
    u: UpdateView,
    pid: u32,
    exe_path: Seq<char>,
)
    requires
        unique_keys(entries),
    ensures
        unique_keys(upserted(entries, owner, uid, u, pid, exe_path)),
{
    position_finds_first_match(entries, owner, uid);
}

/// Storing a version keeps the keys unique.
pub proof fn versions_keep_unique_keys(entries: Seq<EntryView>, owner: isize, uid: u32, version: u32)
    requires
        unique_keys(entries),
    ensures
        unique_keys(versioned(entries, owner, uid, version)),
{
    position_finds_first_match(entries, owner, uid);
}

fn set_icon(e: &mut TrayEntry, url: String, needs: bool)
    ensures
        final(e)@ == updated_entry(
            old(e)@,
            UpdateView { callback: None, tip: None, icon: Some((url@, needs)) },
        ),
{
    if !url.as_str().is_empty() {
        e.icon_url = url;
        e.needs_exe_icon = false;
    } else {
        e.needs_exe_icon = needs;
    }
}

/// Takes a registration in: updates the icon's entry, or makes one. The supplied picture and,
/// for a new entry, the owner's process come from the caller.
pub fn upsert(
    host: &mut TrayHost,
    owner: isize,
    uid: u32,
    flags: u32,
    buf: &[u8],
    lookup: Lookup,
    now_ms: u64,
)
    ensures
        final(host)@ == old(host)@.changed(
            upserted(
                old(host)@.entries,
                owner,
                uid,
                block_update(flags, buf@, lookup@.rendered),
                lookup.pid,
                lookup.exe_path@,
            ),
            now_ms,
        ),
        old(host)@.wf() ==> final(host)@.wf(),
{
    let ghost before = host@;
    let ghost update = block_update(flags, buf@, lookup@.rendered);
    let callback: Option<u32> = if flags & NIF_MESSAGE != 0 {
        wire::read_u32(buf, NID_UCALLBACK)
    } else {
        None
    };
    let tip: Option<String> = if flags & NIF_TIP != 0 {
        Some(wire::read_wstr(buf, NID_SZTIP, SZTIP_CHARS))
    } else {
        None
    };
    let new_icon: Option<(String, bool)> = if flags & NIF_ICON != 0 {
        let handle: isize = match wire::read_u64(buf, NID_HICON) {
            Some(v) => handle_from(v),
            None => 0,
        };
        match lookup.rendered {
            Some(url) if handle != 0 => Some((url, false)),
            _ => Some((String::new(), true)),
        }
    } else {
        None
    };
    match find_entry(&host.entries, owner, uid) {
        Some(i) => {
            if let Some(c) = callback {
                host.entries[i].callback_msg = c;
            }
            if let Some(t) = tip {
                host.entries[i].tip = t;
            }
            if let Some((url, needs)) = new_icon {
                set_icon(&mut host.entries[i], url, needs);
            }
            assert(host@.entries =~= before.entries.update(
                i as int,
                updated_entry(before.entries[i as int], update),
            ));
        },
        None => {
            let (icon_url, needs_exe_icon): (String, bool) = match new_icon {
                Some((url, needs)) => {
                    let needs_exe_icon: bool = url.as_str().is_empty() && needs;
                    (url, needs_exe_icon)
                },
                None => (String::new(), true),
            };
            host.entries.push(
                TrayEntry {
                    owner_hwnd: owner,
                    uid,
                    callback_msg: match callback {
                        Some(c) => c,
                        None => 0,
                    },
                    version: 0,
                    tip: match tip {
                        Some(t) => t,
                        None => String::new(),
                    },
                    exe_path: lookup.exe_path,
                    pid: lookup.pid,
                    icon_url,
                    needs_exe_icon,
                },
            );
            assert(host@.entries =~= before.entries.push(
                new_entry(owner, uid, update, lookup.pid, lookup.exe_path@),
            ));
        },
    }
    mark_changed(host, now_ms);
    proof {
        if before.wf() {
            lemma_upserted_unique(
                before.entries,
                owner,
                uid,
                update,
                lookup.pid,
                lookup.exe_path@,
            );
        }
    }
}

/// Taking out what is not there changes nothing.
proof fn lemma_removed_none(entries: Seq<EntryView>, owner: isize, uid: u32)
    requires
        position(entries, owner, uid) is None,
    ensures
        removed(entries, owner, uid) == entries,
    decreases entries.len(),
{
    let keep = |e: EntryView| !e.matches(owner, uid);
    position_finds_first_match(entries, owner, uid);
    reveal(Seq::filter);
    if entries.len() > 0 {
        let front = entries.drop_last();
        assert forall|i: int| 0 <= i < front.len() implies !(#[trigger] front[i]).matches(
            owner,
            uid,
        ) by {
            assert(front[i] == entries[i]);
        }
        position_finds_first_match(front, owner, uid);
        lemma_removed_none(front, owner, uid);
        assert(!entries.last().matches(owner, uid));
        assert(front.push(entries.last()) =~= entries);
    } else {
        assert(entries.filter(keep) =~= entries);
    }
}

/// With unique keys, taking an entry out leaves the others in their order.
pub proof fn removal_takes_one_entry(entries: Seq<EntryView>, owner: isize, uid: u32, i: int)
    requires
        unique_keys(entries),
        position(entries, owner, uid) == Some(i),
    ensures
        removed(entries, owner, uid) == entries.remove(i),
    decreases entries.len(),
{
    position_finds_first_match(entries, owner, uid);
    reveal(Seq::filter);
    let front = entries.drop_last();
    assert forall|a: int, b: int| 0 <= a < b < front.len() implies !((
    #[trigger] front[a]).owner_hwnd == (#[trigger] front[b]).owner_hwnd && front[a].uid
        == front[b].uid) by {
        assert(front[a] == entries[a] && front[b] == entries[b]);
    }
    if i == entries.len() - 1 {
        assert forall|j: int| 0 <= j < front.len() implies !(#[trigger] front[j]).matches(
            owner,
            uid,
        ) by {
            assert(front[j] == entries[j]);
        }
        position_finds_first_match(front, owner, uid);
        lemma_removed_none(front, owner, uid);
        assert(entries.remove(i) =~= front);
    } else {
        assert(front[i] == entries[i]);
        position_with_unique_keys(front, owner, uid, i);
        removal_takes_one_entry(front, owner, uid, i);
        assert(!entries.last().matches(owner, uid));
        assert(entries.remove(i) =~= front.remove(i).push(entries.last()));
    }
}

proof fn lemma_removed_unique(entries: Seq<EntryView>, owner: isize, uid: u32)
    requires
        unique_keys(entries),
    ensures
        unique_keys(removed(entries, owner, uid)),
{
    match position(entries, owner, uid) {
        Some(i) => {
            position_finds_first_match(entries, owner, uid);
            removal_takes_one_entry(entries, owner, uid, i);
        },
        None => {
            lemma_removed_none(entries, owner, uid);
        },
    }
}

/// Whether there is an entry for this owner and id.
pub open spec fn has_entry(entries: Seq<EntryView>, owner: isize, uid: u32) -> bool {
    position(entries, owner, uid) is Some
}

/// The state after an icon was taken out. It counts as a change only if there was one.
pub open spec fn after_removal(host: HostView, owner: isize, uid: u32, now_ms: u64) -> HostView {
    if has_entry(host.entries, owner, uid) {
        host.changed(removed(host.entries, owner, uid), now_ms)
    } else {
        host
    }
}

/// Takes an icon out of the registry.
pub fn remove_entry(host: &mut TrayHost, owner: isize, uid: u32, now_ms: u64)
    ensures
        final(host)@ == after_removal(old(host)@, owner, uid, now_ms),
        old(host)@.wf() ==> final(host)@.wf(),
{
    let ghost before = host@;
    let ghost keep = |e: EntryView| !e.matches(owner, uid);
    let total: usize = host.entries.len();
    let mut i: usize = 0;
    let mut seen: usize = 0;
    assert(before.entries.take(0).filter(keep) =~= seq![]) by {
        reveal(Seq::filter);
    }
    assert(host@.entries =~= before.entries.take(0).filter(keep) + before.entries.skip(0));
    while seen < total
        invariant
            seen <= total,
            total == before.entries.len(),
            i <= seen,
            keep == (|e: EntryView| !e.matches(owner, uid)),
            i == before.entries.take(seen as int).filter(keep).len(),
            host@ == (HostView { entries: host@.entries, ..before }),
            host@.entries == before.entries.take(seen as int).filter(keep) + before.entries.skip(
                seen as int,
            ),
            i == seen <==> forall|j: int|
                0 <= j < seen ==> !(#[trigger] before.entries[j]).matches(owner, uid),
        decreases total - seen,
    {
        let ghost kept = before.entries.take(seen as int).filter(keep);
        let ghost held = host@.entries;
        proof {
            reveal(Seq::filter);
            assert(before.entries.take(seen + 1).drop_last() =~= before.entries.take(seen as int));
            assert(held.len() == kept.len() + (total - seen));
            assert(held.len() == host.entries@.len());
            assert(held[i as int] == before.entries[seen as int]);
            assert(held[i as int] == host.entries@[i as int]@);
        }
        if host.entries[i].matches(owner, uid) {
            let _ = host.entries.remove(i);
            assert(host@.entries =~= held.remove(i as int));
            assert(host@.entries =~= kept + before.entries.skip(seen + 1));
        } else {
            assert(host@.entries =~= kept.push(before.entries[seen as int]) + before.entries.skip(
                seen + 1,
            ));
            i += 1;
        }
        seen += 1;
    }
    assert(before.entries.take(total as int) =~= before.entries);
    assert(host@.entries =~= removed(before.entries, owner, uid));
    proof {
        position_finds_first_match(before.entries, owner, uid);
        if !has_entry(before.entries, owner, uid) {
            lemma_removed_none(before.entries, owner, uid);
        }
        if before.wf() {
            lemma_removed_unique(before.entries, owner, uid);
        }
    }
    if host.entries.len() != total {
        mark_changed(host, now_ms);
    }
}

/// The state after an owner stated its protocol version. For an icon that is not registered
/// the statement is ignored.
pub open spec fn after_version(
    host: HostView,
    owner: isize,
    uid: u32,
    version: u32,
    now_ms: u64,
) -> HostView {
    if has_entry(host.entries, owner, uid) {
        host.changed(versioned(host.entries, owner, uid, version), now_ms)
    } else {
        host
    }
}

/// Stores the protocol version of an icon.
pub fn set_version(host: &mut TrayHost, owner: isize, uid: u32, ver: u32, now_ms: u64)
    ensures
        final(host)@ == after_version(old(host)@, owner, uid, ver, now_ms),
        old(host)@.wf() ==> final(host)@.wf(),
{
    let ghost before = host@;
    if let Some(i) = find_entry(&host.entries, owner, uid) {
        host.entries[i].version = ver;
        assert(host@.entries =~= versioned(before.entries, owner, uid, ver));
        proof {
            if before.wf() {
                versions_keep_unique_keys(before.entries, owner, uid, ver);
            }
        }
        mark_changed(host, now_ms);
    }
}

/// The first bytes of a block, as far as they are kept.
pub open spec fn kept_raw(buf: Seq<u8>) -> Seq<u8> {
    if buf.len() <= LAST_RAW_CAP {
        buf
    } else {
        buf.take(LAST_RAW_CAP as int)
    }
}

/// Keeps the start of a block for diagnostics.
pub fn store_last_raw(host: &mut TrayHost, buf: &[u8])
    ensures
        final(host)@ == (HostView { last_raw: kept_raw(buf@), ..old(host)@ }),
{
    let cap: usize = if buf.len() < LAST_RAW_CAP {
        buf.len()
    } else {
        LAST_RAW_CAP
    };
    let mut raw: Vec<u8> = Vec::new();
    let mut i: usize = 0;
    while i < cap
        invariant
            i <= cap <= buf.len(),
            raw@ =~= buf@.take(i as int),
        decreases cap - i,
    {
        raw.push(buf[i]);
        i += 1;
    }
    host.last_raw = raw;
    assert(host.last_raw@ =~= kept_raw(buf@));
}

/// What a block asks for.
pub enum TrayCommand {
    /// Add the icon, or change the fields that the flags call valid.
    Upsert { owner: isize, uid: u32, flags: u32 },
    /// Take the icon out.
    Remove { owner: isize, uid: u32 },
    /// The owner speaks this protocol version.
    SetVersion { owner: isize, uid: u32, version: u32 },
    /// Nothing: the block is too short, names no owner, or holds another message.
    Ignore,
}

/// The value at `off`, or 0 where the block ends before it.
pub open spec fn u32_or_zero(buf: Seq<u8>, off: int) -> u32 {
    match wire::u32_at(buf, off) {
        Some(v) => v,
        None => 0,
    }
}

/// The command in a block.
pub open spec fn command_of(buf: Seq<u8>) -> TrayCommand {
    match (wire::u32_at(buf, OFF_DWMESSAGE as int), wire::u64_at(buf, NID_HWND as int)) {
        (Some(msg), Some(hwnd)) => {
            let owner = handle_value(hwnd);
            let uid = u32_or_zero(buf, NID_UID as int);
            if owner == 0 {
                TrayCommand::Ignore
            } else if msg == NIM_ADD || msg == NIM_MODIFY {
                TrayCommand::Upsert { owner, uid, flags: u32_or_zero(buf, NID_UFLAGS as int) }
            } else if msg == NIM_DELETE {
                TrayCommand::Remove { owner, uid }
            } else if msg == NIM_SETVERSION {
                TrayCommand::SetVersion {
                    owner,
                    uid,
                    version: u32_or_zero(buf, NID_UVERSION as int),
                }
            } else {
                TrayCommand::Ignore
            }
        },
        _ => TrayCommand::Ignore,
    }
}

/// Reads a `u32`, or 0 where the block ends before it.
pub fn read_u32_or_zero(buf: &[u8], off: usize) -> (v: u32)
    ensures
        v == u32_or_zero(buf@, off as int),
{
    match wire::read_u32(buf, off) {
        Some(v) => v,
        None => 0,
    }
}

/// Reads a `u64`, or 0 where the block ends before it.
pub fn read_u64_or_zero(buf: &[u8], off: usize) -> (v: u64)
    ensures
        v == u64_or_zero(buf@, off as int),
{
    match wire::read_u64(buf, off) {
        Some(v) => v,
        None => 0,
    }
}

/// The 64-bit value at `off`, or 0 where the block ends before it.
pub open spec fn u64_or_zero(buf: Seq<u8>, off: int) -> u64 {
    match wire::u64_at(buf, off) {
        Some(v) => v,
        None => 0,
    }
}

/// Reads the command out of a block.
pub fn parse_command(buf: &[u8]) -> (c: TrayCommand)
    ensures
        c == command_of(buf@),
{
    let msg: u32 = match wire::read_u32(buf, OFF_DWMESSAGE) {
        Some(m) => m,
        None => return TrayCommand::Ignore,
    };
    let owner: isize = match wire::read_u64(buf, NID_HWND) {
        Some(v) => handle_from(v),
        None => return TrayCommand::Ignore,
    };
    if owner == 0 {
        return TrayCommand::Ignore;
    }
    let uid: u32 = read_u32_or_zero(buf, NID_UID);
    if msg == NIM_ADD || msg == NIM_MODIFY {
        TrayCommand::Upsert { owner, uid, flags: read_u32_or_zero(buf, NID_UFLAGS) }
    } else if msg == NIM_DELETE {
        TrayCommand::Remove { owner, uid }
    } else if msg == NIM_SETVERSION {
        TrayCommand::SetVersion { owner, uid, version: read_u32_or_zero(buf, NID_UVERSION) }
    } else {
        TrayCommand::Ignore
    }
}

/// What the caller has to look up before it hands a block over.
pub struct LookupRequest {
    /// The icon handle to render.
    pub icon: Option<isize>,
    /// The window whose process is wanted.
    pub owner: Option<isize>,
}

/// What handling a block needs: the picture where the block supplies one, the process where
/// the icon is new.
pub open spec fn request_for(host: HostView, buf: Seq<u8>) -> LookupRequest {
    match command_of(buf) {
        TrayCommand::Upsert { owner, uid, flags } => LookupRequest {
            icon: if has_flag(flags, NIF_ICON) && icon_handle(buf) != 0 {
                Some(icon_handle(buf))
            } else {
                None
            },
            owner: if has_entry(host.entries, owner, uid) {
                None
            } else {
                Some(owner)
            },
        },
        _ => LookupRequest { icon: None, owner: None },
    }
}

/// Says what to look up for a block.
pub fn lookup_request(host: &TrayHost, buf: &[u8]) -> (r: LookupRequest)
    ensures
        r == request_for(host@, buf@),
{
    match parse_command(buf) {
        TrayCommand::Upsert { owner, uid, flags } => {
            let handle: isize = match wire::read_u64(buf, NID_HICON) {
                Some(v) => handle_from(v),
                None => 0,
            };
            let icon: Option<isize> = if flags & NIF_ICON != 0 && handle != 0 {
                Some(handle)
            } else {
                None
            };
            let identify: Option<isize> = match find_entry(&host.entries, owner, uid) {
                Some(_) => None,
                None => Some(owner),
            };
            LookupRequest { icon, owner: identify }
        },
        _ => LookupRequest { icon: None, owner: None },
    }
}

/// The state after a block was received, before its command is carried out.
pub open spec fn received(host: HostView, buf: Seq<u8>) -> HostView {
    HostView {
        last_cbdata: (buf.len() % 0x1_0000_0000) as u32,
        last_raw: kept_raw(buf),
        ..host
    }
}

/// The state after a block was handled.
pub open spec fn handled(
    host: HostView,
    buf: Seq<u8>,
    lookup: LookupView,
    now_ms: u64,
) -> HostView {
    let host = received(host, buf);
    match command_of(buf) {
        TrayCommand::Upsert { owner, uid, flags } => host.changed(
            upserted(
                host.entries,
                owner,
                uid,
                block_update(flags, buf, lookup.rendered),
                lookup.pid,
                lookup.exe_path,
            ),
            now_ms,
        ),
        TrayCommand::Remove { owner, uid } => after_removal(host, owner, uid, now_ms),
        TrayCommand::SetVersion { owner, uid, version } => after_version(
            host,
            owner,
            uid,
            version,
            now_ms,
        ),
        TrayCommand::Ignore => host,
    }
}

/// Handles one block that an application sent to the tray window.
pub fn handle_tray_copydata(host: &mut TrayHost, buf: &[u8], lookup: Lookup, now_ms: u64)
    ensures
        final(host)@ == handled(old(host)@, buf@, lookup@, now_ms),
        old(host)@.wf() ==> final(host)@.wf(),
{
    host.last_cbdata = (buf.len() as u128 % 0x1_0000_0000) as u32;
    store_last_raw(host, buf);
    match parse_command(buf) {
        TrayCommand::Upsert { owner, uid, flags } => upsert(
            host,
            owner,
            uid,
            flags,
            buf,
            lookup,
            now_ms,
        ),
        TrayCommand::Remove { owner, uid } => remove_entry(host, owner, uid, now_ms),
        TrayCommand::SetVersion { owner, uid, version } => set_version(
            host,
            owner,
            uid,
            version,
            now_ms,
        ),
        TrayCommand::Ignore => {},
    }
}

// ---------------------------------------------------------------- laws

/// After a registration the icon has an entry, which carries what the registration set.
pub proof fn registration_is_found(
    entries: Seq<EntryView>,
    owner: isize,
    uid: u32,
    u: UpdateView,
    pid: u32,
    exe_path: Seq<char>,
)
    requires
        unique_keys(entries),
    ensures
        ({
            let after = upserted(entries, owner, uid, u, pid, exe_path);
            let at = position(after, owner, uid);
            &&& unique_keys(after)
            &&& at is Some
            &&& after[at->0].matches(owner, uid)
            &&& u.callback matches Some(c) ==> after[at->0].callback_msg == c
            &&& u.tip matches Some(t) ==> after[at->0].tip == t
            &&& u.icon matches Some((url, _)) ==> url.len() > 0 ==> after[at->0].icon_url == url
                && !after[at->0].needs_exe_icon
            &&& match position(entries, owner, uid) {
                Some(i) => at == Some(i),
                None => at == Some(entries.len() as int),
            }
        }),
{
    let after = upserted(entries, owner, uid, u, pid, exe_path);
    lemma_upserted_unique(entries, owner, uid, u, pid, exe_path);
    position_finds_first_match(entries, owner, uid);
    match position(entries, owner, uid) {
        Some(i) => {
            position_with_unique_keys(after, owner, uid, i);
        },
        None => {
            position_with_unique_keys(after, owner, uid, entries.len() as int);
        },
    }
}

/// A registration leaves the other icons alone, and all of them where they were.
pub proof fn registration_keeps_order(
    entries: Seq<EntryView>,
    owner: isize,
    uid: u32,
    u: UpdateView,
    pid: u32,
    exe_path: Seq<char>,
)
    ensures
        ({
            let after = upserted(entries, owner, uid, u, pid, exe_path);
            &&& after.len() >= entries.len()
            &&& has_entry(entries, owner, uid) ==> after.len() == entries.len()
            &&& forall|i: int|
                0 <= i < entries.len() ==> {
                    let e = #[trigger] after[i];
                    &&& e.owner_hwnd == entries[i].owner_hwnd
                    &&& e.uid == entries[i].uid
                    &&& !entries[i].matches(owner, uid) ==> e == entries[i]
                }
        }),
{
    position_finds_first_match(entries, owner, uid);
}

/// A message changes only the fields that its flags call valid: whatever else an earlier message
/// set stays, and the version, the process and the executable stay in any case.
pub proof fn unflagged_fields_stay(
    entries: Seq<EntryView>,
    owner: isize,
    uid: u32,
    flags: u32,
    buf: Seq<u8>,
    rendered: Option<Seq<char>>,
    pid: u32,
    exe_path: Seq<char>,
    i: int,
)
    requires
        position(entries, owner, uid) == Some(i),
    ensures
        ({
            let update = block_update(flags, buf, rendered);
            let e = upserted(entries, owner, uid, update, pid, exe_path)[i];
            &&& !has_flag(flags, NIF_MESSAGE) ==> e.callback_msg == entries[i].callback_msg
            &&& !has_flag(flags, NIF_TIP) ==> e.tip == entries[i].tip
            &&& !has_flag(flags, NIF_ICON) ==> e.icon_url == entries[i].icon_url
                && e.needs_exe_icon == entries[i].needs_exe_icon
            &&& e.version == entries[i].version
            &&& e.pid == entries[i].pid
            &&& e.exe_path == entries[i].exe_path
        }),
{
    position_finds_first_match(entries, owner, uid);
}

/// A version that an owner states before it registered the icon is dropped: the icon starts with
/// an unknown version.
pub proof fn early_versions_are_dropped(
    entries: Seq<EntryView>,
    owner: isize,
    uid: u32,
    version: u32,
    u: UpdateView,
    pid: u32,
    exe_path: Seq<char>,
)
    requires
        !has_entry(entries, owner, uid),
    ensures
        versioned(entries, owner, uid, version) == entries,
        upserted(
            versioned(entries, owner, uid, version),
            owner,
            uid,
            u,
            pid,
            exe_path,
        ).last().version == 0,
{
}

/// A removed icon is gone, and every other icon still there; removing it again changes nothing.
pub proof fn removal_is_final(
    entries: Seq<EntryView>,
    owner: isize,
    uid: u32,
    other_owner: isize,
    other_uid: u32,
)
    ensures
        !has_entry(removed(entries, owner, uid), owner, uid),
        removed(removed(entries, owner, uid), owner, uid) == removed(entries, owner, uid),
        (other_owner != owner || other_uid != uid) ==> (has_entry(
            removed(entries, owner, uid),
            other_owner,
            other_uid,
        ) <==> has_entry(entries, other_owner, other_uid)),
{
    let keep = |e: EntryView| !e.matches(owner, uid);
    let after = removed(entries, owner, uid);
    assert forall|i: int| 0 <= i < after.len() implies !(#[trigger] after[i]).matches(
        owner,
        uid,
    ) by {
        entries.lemma_filter_pred(keep, i);
    }
    position_finds_first_match(after, owner, uid);
    lemma_removed_none(after, owner, uid);
    if other_owner != owner || other_uid != uid {
        lemma_removal_keeps_others(entries, owner, uid, other_owner, other_uid);
    }
}

proof fn lemma_removal_keeps_others(
    entries: Seq<EntryView>,
    owner: isize,
    uid: u32,
    other_owner: isize,
    other_uid: u32,
)
    requires
        other_owner != owner || other_uid != uid,
    ensures
        has_entry(removed(entries, owner, uid), other_owner, other_uid) <==> has_entry(
            entries,
            other_owner,
            other_uid,
        ),
{
    let keep = |e: EntryView| !e.matches(owner, uid);
    let after = removed(entries, owner, uid);
    position_finds_first_match(entries, other_owner, other_uid);
    position_finds_first_match(after, other_owner, other_uid);
    if let Some(j) = position(entries, other_owner, other_uid) {
        entries.lemma_filter_contains(keep, j);
        let k = choose|k: int| 0 <= k < after.len() && after[k] == entries[j];
        assert(after[k].matches(other_owner, other_uid));
    }
    if let Some(k) = position(after, other_owner, other_uid) {
        assert(after.contains(after[k]));
        entries.lemma_filter_contains_rev(keep, after[k]);
        let j = choose|j: int| 0 <= j < entries.len() && entries[j] == after[k];
        assert(entries[j].matches(other_owner, other_uid));
    }
}

/// An icon that is added anew and then removed leaves the registry as it was.
pub proof fn removal_undoes_addition(
    entries: Seq<EntryView>,
    owner: isize,
    uid: u32,
    u: UpdateView,
    pid: u32,
    exe_path: Seq<char>,
)
    requires
        unique_keys(entries),
        !has_entry(entries, owner, uid),
    ensures
        removed(upserted(entries, owner, uid, u, pid, exe_path), owner, uid) == entries,
{
    let after = upserted(entries, owner, uid, u, pid, exe_path);
    registration_is_found(entries, owner, uid, u, pid, exe_path);
    removal_takes_one_entry(after, owner, uid, entries.len() as int);
    assert(after.remove(entries.len() as int) =~= entries);
}

/// A block in the documented layout is read as what was put into it.
pub proof fn documented_layout_reads_back(
    buf: Seq<u8>,
    msg: u32,
    hwnd: u64,
    uid: u32,
    flags: u32,
    callback: u32,
    hicon: u64,
    version: u32,
    tip: Seq<char>,
)
    requires
        wire::holds_at(buf, OFF_DWMESSAGE as int, wire::le_bytes(msg as nat, 4)),
        wire::holds_at(buf, NID_HWND as int, wire::le_bytes(hwnd as nat, 8)),
        wire::holds_at(buf, NID_UID as int, wire::le_bytes(uid as nat, 4)),
        wire::holds_at(buf, NID_UFLAGS as int, wire::le_bytes(flags as nat, 4)),
        wire::holds_at(buf, NID_UCALLBACK as int, wire::le_bytes(callback as nat, 4)),
        wire::holds_at(buf, NID_HICON as int, wire::le_bytes(hicon as nat, 8)),
        wire::holds_at(buf, NID_UVERSION as int, wire::le_bytes(version as nat, 4)),
        wire::holds_at(buf, NID_SZTIP as int, wire::unit_bytes(text::encode_utf16(tip).push(0))),
        text::encode_utf16(tip).len() < SZTIP_CHARS,
        forall|i: int| 0 <= i < tip.len() ==> tip[i] != '\0',
        handle_value(hwnd) != 0,
    ensures
        (msg == NIM_ADD || msg == NIM_MODIFY) ==> command_of(buf) == (TrayCommand::Upsert {
            owner: handle_value(hwnd),
            uid,
            flags,
        }),
        msg == NIM_DELETE ==> command_of(buf) == (TrayCommand::Remove {
            owner: handle_value(hwnd),
            uid,
        }),
        msg == NIM_SETVERSION ==> command_of(buf) == (TrayCommand::SetVersion {
            owner: handle_value(hwnd),
            uid,
            version,
        }),
        icon_handle(buf) == handle_value(hicon),
        forall|rendered: Option<Seq<char>>|
            {
                let u = #[trigger] block_update(flags, buf, rendered);
                &&& has_flag(flags, NIF_MESSAGE) ==> u.callback == Some(callback)
                &&& has_flag(flags, NIF_TIP) ==> u.tip == Some(tip)
            },
{
    wire::u64_reads_back(buf, NID_HICON as int, hicon);
    wire::u32_reads_back(buf, OFF_DWMESSAGE as int, msg);
    wire::u64_reads_back(buf, NID_HWND as int, hwnd);
    wire::u32_reads_back(buf, NID_UID as int, uid);
    wire::u32_reads_back(buf, NID_UFLAGS as int, flags);
    wire::u32_reads_back(buf, NID_UCALLBACK as int, callback);
    wire::u32_reads_back(buf, NID_UVERSION as int, version);
    wire::terminated_wstr_reads_back(buf, NID_SZTIP as int, SZTIP_CHARS as nat, tip);
}

/// A block that ends before the owner, or names none, changes no entry.
pub proof fn malformed_blocks_change_nothing(
    host: HostView,
    buf: Seq<u8>,
    lookup: LookupView,
    now_ms: u64,
)
    requires
        buf.len() < NID_HWND + 8 || handle_value(wire::u64_at(buf, NID_HWND as int)->0) == 0,
    ensures
        handled(host, buf, lookup, now_ms) == received(host, buf),
        received(host, buf).entries == host.entries,
        received(host, buf).change_seq == host.change_seq,
{
}

// ---------------------------------------------------------------- what blocks do

/// The entry at `i` is the first for this owner and id.
pub open spec fn stands_for(entries: Seq<EntryView>, owner: isize, uid: u32, i: int) -> bool {
    &&& 0 <= i < entries.len()
    &&& entries[i].owner_hwnd == owner && entries[i].uid == uid
    &&& forall|j: int|
        0 <= j < i ==> !((#[trigger] entries[j]).owner_hwnd == owner && entries[j].uid == uid)
}

/// No entry is for this owner and id.
pub open spec fn is_absent(entries: Seq<EntryView>, owner: isize, uid: u32) -> bool {
    forall|j: int|
        0 <= j < entries.len() ==> !((#[trigger] entries[j]).owner_hwnd == owner && entries[j].uid
            == uid)
}

/// An icon is found by its owner and its id together, and not otherwise.
pub proof fn icons_are_found_by_owner_and_id(
    entries: Seq<EntryView>,
    owner: isize,
    uid: u32,
    i: int,
)
    ensures
        stands_for(entries, owner, uid, i) ==> position(entries, owner, uid) == Some(i),
        is_absent(entries, owner, uid) ==> position(entries, owner, uid) is None,
        position(entries, owner, uid) matches Some(k) ==> stands_for(entries, owner, uid, k),
        position(entries, owner, uid) is None ==> is_absent(entries, owner, uid),
{
    position_finds_first_match(entries, owner, uid);
    match position(entries, owner, uid) {
        Some(k) => {
            assert(entries[k].matches(owner, uid));
            assert(stands_for(entries, owner, uid, k)) by {
                assert forall|j: int| 0 <= j < k implies !((#[trigger] entries[j]).owner_hwnd
                    == owner && entries[j].uid == uid) by {
                    assert(!entries[j].matches(owner, uid));
                }
            }
            if stands_for(entries, owner, uid, i) {
                assert(entries[i].matches(owner, uid));
                if k < i {
                    assert(!(entries[k].owner_hwnd == owner && entries[k].uid == uid));
                }
            }
        },
        None => {
            assert forall|j: int| 0 <= j < entries.len() implies !((
            #[trigger] entries[j]).owner_hwnd == owner && entries[j].uid == uid) by {
                assert(!entries[j].matches(owner, uid));
            }
        },
    }
}

/// The user interface gets what the entry holds: every field as it is, a readable key, and the
/// entry's picture, or the placeholder where the entry has none.
pub proof fn icons_show_their_entries(e: EntryView)
    ensures
        ({
            let ic = e.to_icon();
            &&& ic.owner_hwnd == e.owner_hwnd
            &&& ic.uid == e.uid
            &&& ic.callback_msg == e.callback_msg
            &&& ic.version == e.version
            &&& ic.tooltip == e.tip
            &&& ic.exe_path == e.exe_path
            &&& ic.pid == e.pid
            &&& e.icon_url.len() > 0 ==> ic.icon == e.icon_url
            &&& e.icon_url.len() == 0 ==> ic.icon == GENERIC_TRAY_ICON@
            &&& exists|k: int| icon::reads_as(ic.id, k, e.owner_hwnd, e.uid)
        }),
{
    icon::ids_read_back(e.owner_hwnd, e.uid);
    let id = icon::id_text(e.owner_hwnd, e.uid);
    let k = choose|k: int| icon::reads_as(id, k, e.owner_hwnd, e.uid);
    assert(icon::reads_as(e.to_icon().id, k, e.owner_hwnd, e.uid));
}

/// A handle has the low bits of the field that it was read from.
pub proof fn handles_are_the_low_bits(v: u64)
    ensures
        (handle_value(v) - v) % (usize::MAX + 1) == 0,
        v <= isize::MAX ==> handle_value(v) == v,
{
    let turn = usize::MAX + 1;
    let q = v as int / turn;
    let m = v as int % turn;
    assert(v == q * turn + m) by {
        vstd::arithmetic::div_mod::lemma_fundamental_div_mod(v as int, turn);
        assert(turn * q == q * turn) by (nonlinear_arith);
    }
    let h = handle_value(v) as int;
    let k = if m <= isize::MAX {
        -q
    } else {
        -q - 1
    };
    assert(h - v == k * turn + 0) by (nonlinear_arith)
        requires
            v == q * turn + m,
            h == m && k == -q || h == m - turn && k == -q - 1,
    ;
    vstd::arithmetic::div_mod::lemma_fundamental_div_mod_converse(h - v, turn, k, 0);
    if v <= isize::MAX {
        assert(v as int % turn == v) by {
            vstd::arithmetic::div_mod::lemma_small_mod(v as nat, turn as nat);
        }
    }
}

/// A block is read by the words at their places: the message at 4, the owner at 16, the id at 24,
/// the flags at 28 and the version at 824. It asks for nothing exactly where one of the first two
/// is missing, the owner is none, or the message is none of four.
pub proof fn blocks_are_read_by_their_words(buf: Seq<u8>)
    ensures
        ({
            let msg = wire::u32_at(buf, 4);
            let hwnd = wire::u64_at(buf, 16);
            let owner = handle_value(hwnd->0);
            let uid = match wire::u32_at(buf, 24) {
                Some(v) => v,
                None => 0,
            };
            let read = msg is Some && hwnd is Some && owner != 0;
            &&& command_of(buf) is Ignore <==> !read || (msg->0 != 0 && msg->0 != 1 && msg->0 != 2
                && msg->0 != 4)
            &&& command_of(buf) is Upsert <==> read && (msg->0 == 0 || msg->0 == 1)
            &&& command_of(buf) is Remove <==> read && msg->0 == 2
            &&& command_of(buf) is SetVersion <==> read && msg->0 == 4
            &&& command_of(buf) matches TrayCommand::Upsert { owner: o, uid: u, flags: f } ==> o
                == owner && u == uid && f == match wire::u32_at(buf, 28) {
                Some(v) => v,
                None => 0,
            }
            &&& command_of(buf) matches TrayCommand::Remove { owner: o, uid: u } ==> o == owner
                && u == uid
            &&& command_of(buf) matches TrayCommand::SetVersion { owner: o, uid: u, version: v }
                ==> o == owner && u == uid && v == match wire::u32_at(buf, 824) {
                Some(w) => w,
                None => 0,
            }
        }),
{
}

/// The icon handle of a block: the one at 40, and none where the block ends before it.
pub open spec fn sent_handle(buf: Seq<u8>) -> isize {
    match wire::u64_at(buf, 40) {
        Some(v) => handle_value(v),
        None => 0,
    }
}

/// The hover text of a block: up to 128 units at 48.
pub open spec fn sent_tip(buf: Seq<u8>) -> Seq<char> {
    text::decode_utf16(wire::wide_units_at(buf, 48, 128))
}

/// What a block leaves alone of the host, and what every change leaves behind: one more count and
/// the time.
pub open spec fn is_one_change(before: HostView, after: HostView, now_ms: u64) -> bool {
    &&& after.change_seq == (before.change_seq + 1) % 0x1_0000_0000_0000_0000
    &&& after.last_change_ms == now_ms
    &&& after.hwnd == before.hwnd
    &&& after.running == before.running
    &&& after.shutdown_done == before.shutdown_done
}

/// Nothing of the host changed but what is kept of the block.
pub open spec fn is_no_change(before: HostView, after: HostView) -> bool {
    &&& after.entries == before.entries
    &&& after.change_seq == before.change_seq
    &&& after.last_change_ms == before.last_change_ms
    &&& after.hwnd == before.hwnd
    &&& after.running == before.running
    &&& after.shutdown_done == before.shutdown_done
}

/// The first registration of an icon lists it last, with what the block and the lookup supply:
/// each field that the flags call valid, and an unknown version. A picture counts only where the
/// block has a handle and it was rendered; without one the executable's icon is owed.
pub proof fn new_icons_are_listed_as_sent(
    host: HostView,
    buf: Seq<u8>,
    lookup: LookupView,
    now_ms: u64,
    owner: isize,
    uid: u32,
    flags: u32,
)
    requires
        command_of(buf) == (TrayCommand::Upsert { owner, uid, flags }),
        is_absent(host.entries, owner, uid),
    ensures
        ({
            let after = handled(host, buf, lookup, now_ms);
            let e = after.entries.last();
            let n = host.entries.len() as int;
            &&& is_one_change(host, after, now_ms)
            &&& after.entries.len() == n + 1
            &&& forall|j: int| 0 <= j < n ==> #[trigger] after.entries[j] == host.entries[j]
            &&& e.owner_hwnd == owner && e.uid == uid && e.version == 0
            &&& e.pid == lookup.pid && e.exe_path == lookup.exe_path
            &&& flags & 1 != 0 && wire::u32_at(buf, 32) is Some ==> e.callback_msg
                == wire::u32_at(buf, 32)->0
            &&& flags & 1 == 0 || wire::u32_at(buf, 32) is None ==> e.callback_msg == 0
            &&& flags & 4 != 0 ==> e.tip == sent_tip(buf)
            &&& flags & 4 == 0 ==> e.tip.len() == 0
            &&& flags & 2 == 0 ==> e.icon_url.len() == 0 && e.needs_exe_icon
            &&& flags & 2 != 0 && sent_handle(buf) != 0 && lookup.rendered is Some ==> e.icon_url
                == lookup.rendered->0 && !e.needs_exe_icon
            &&& flags & 2 != 0 && (sent_handle(buf) == 0 || lookup.rendered is None)
                ==> e.icon_url.len() == 0 && e.needs_exe_icon
        }),
{
    icons_are_found_by_owner_and_id(host.entries, owner, uid, 0);
    counter::counts_add_up(host.change_seq, 1);
}

/// A later registration of an icon changes its entry in place, field by field: those that the
/// flags call valid, and no others. A picture that could not be had leaves the old one, and the
/// executable's icon owed.
pub proof fn known_icons_are_updated_as_sent(
    host: HostView,
    buf: Seq<u8>,
    lookup: LookupView,
    now_ms: u64,
    owner: isize,
    uid: u32,
    flags: u32,
    i: int,
)
    requires
        command_of(buf) == (TrayCommand::Upsert { owner, uid, flags }),
        stands_for(host.entries, owner, uid, i),
    ensures
        ({
            let after = handled(host, buf, lookup, now_ms);
            let was = host.entries[i];
            let e = after.entries[i];
            let supplied = sent_handle(buf) != 0 && lookup.rendered is Some;
            &&& is_one_change(host, after, now_ms)
            &&& after.entries.len() == host.entries.len()
            &&& forall|j: int|
                0 <= j < host.entries.len() && j != i ==> #[trigger] after.entries[j]
                    == host.entries[j]
            &&& e.owner_hwnd == owner && e.uid == uid && e.version == was.version
            &&& e.pid == was.pid && e.exe_path == was.exe_path
            &&& flags & 1 != 0 && wire::u32_at(buf, 32) is Some ==> e.callback_msg
                == wire::u32_at(buf, 32)->0
            &&& flags & 1 == 0 || wire::u32_at(buf, 32) is None ==> e.callback_msg
                == was.callback_msg
            &&& flags & 4 != 0 ==> e.tip == sent_tip(buf)
            &&& flags & 4 == 0 ==> e.tip == was.tip
            &&& flags & 2 == 0 ==> e.icon_url == was.icon_url && e.needs_exe_icon
                == was.needs_exe_icon
            &&& flags & 2 != 0 && supplied && lookup.rendered->0.len() > 0 ==> e.icon_url
                == lookup.rendered->0
            &&& flags & 2 != 0 && !(supplied && lookup.rendered->0.len() > 0) ==> e.icon_url
                == was.icon_url
            &&& flags & 2 != 0 ==> e.needs_exe_icon == !supplied
        }),
{
    icons_are_found_by_owner_and_id(host.entries, owner, uid, i);
    counter::counts_add_up(host.change_seq, 1);
}

/// A version that an owner states is stored with its icon: nothing else of the icon, and nothing
/// of any other, changes. For an icon that is not there nothing changes at all.
pub proof fn versions_change_nothing_else(
    host: HostView,
    buf: Seq<u8>,
    lookup: LookupView,
    now_ms: u64,
    owner: isize,
    uid: u32,
    version: u32,
    i: int,
)
    requires
        command_of(buf) == (TrayCommand::SetVersion { owner, uid, version }),
    ensures
        ({
            let after = handled(host, buf, lookup, now_ms);
            let e = after.entries[i];
            let was = host.entries[i];
            &&& stands_for(host.entries, owner, uid, i) ==> {
                &&& is_one_change(host, after, now_ms)
                &&& after.entries.len() == host.entries.len()
                &&& forall|j: int|
                    0 <= j < host.entries.len() && j != i ==> #[trigger] after.entries[j]
                        == host.entries[j]
                &&& e.version == version
                &&& e.owner_hwnd == owner && e.uid == uid
                &&& e.callback_msg == was.callback_msg
                &&& e.tip == was.tip
                &&& e.icon_url == was.icon_url
                &&& e.needs_exe_icon == was.needs_exe_icon
                &&& e.exe_path == was.exe_path && e.pid == was.pid
            }
            &&& is_absent(host.entries, owner, uid) ==> is_no_change(host, after)
        }),
{
    icons_are_found_by_owner_and_id(host.entries, owner, uid, i);
    counter::counts_add_up(host.change_seq, 1);
}

/// The same of the entries alone: storing a version changes one field of one entry.
pub proof fn stored_versions_keep_the_entry(
    entries: Seq<EntryView>,
    owner: isize,
    uid: u32,
    version: u32,
    i: int,
)
    requires
        stands_for(entries, owner, uid, i),
    ensures
        ({
            let after = versioned(entries, owner, uid, version);
            let e = after[i];
            let was = entries[i];
            &&& after.len() == entries.len()
            &&& forall|j: int| 0 <= j < entries.len() && j != i ==> #[trigger] after[j] == entries[j]
            &&& e.version == version
            &&& e.owner_hwnd == was.owner_hwnd && e.uid == was.uid
            &&& e.callback_msg == was.callback_msg && e.tip == was.tip
            &&& e.icon_url == was.icon_url && e.needs_exe_icon == was.needs_exe_icon
            &&& e.exe_path == was.exe_path && e.pid == was.pid
        }),
{
    icons_are_found_by_owner_and_id(entries, owner, uid, i);
}

/// An icon that its owner adds and then states the version of is listed with that version and
/// with the picture, the hover text and the callback that came with the addition.
pub proof fn additions_survive_their_version(
    host: HostView,
    added: Seq<u8>,
    stated: Seq<u8>,
    lookup: LookupView,
    other: LookupView,
    now_ms: u64,
    later_ms: u64,
    owner: isize,
    uid: u32,
    flags: u32,
    version: u32,
)
    requires
        command_of(added) == (TrayCommand::Upsert { owner, uid, flags }),
        command_of(stated) == (TrayCommand::SetVersion { owner, uid, version }),
        is_absent(host.entries, owner, uid),
        flags & 1 != 0 && flags & 2 != 0 && flags & 4 != 0,
        wire::u32_at(added, 32) is Some,
        sent_handle(added) != 0,
        lookup.rendered is Some && lookup.rendered->0.len() > 0,
    ensures
        ({
            let first = handled(host, added, lookup, now_ms);
            let after = handled(first, stated, other, later_ms);
            let ic = after.entries.last().to_icon();
            &&& after.entries.len() == host.entries.len() + 1
            &&& ic.version == version
            &&& ic.icon == lookup.rendered->0
            &&& ic.tooltip == sent_tip(added)
            &&& ic.callback_msg == wire::u32_at(added, 32)->0
            &&& ic.pid == lookup.pid && ic.exe_path == lookup.exe_path
        }),
{
    let first = handled(host, added, lookup, now_ms);
    let n = host.entries.len() as int;
    new_icons_are_listed_as_sent(host, added, lookup, now_ms, owner, uid, flags);
    assert(stands_for(first.entries, owner, uid, n)) by {
        assert forall|j: int| 0 <= j < n implies !((#[trigger] first.entries[j]).owner_hwnd == owner
            && first.entries[j].uid == uid) by {
            assert(first.entries[j] == host.entries[j]);
        }
    }
    versions_change_nothing_else(first, stated, other, later_ms, owner, uid, version, n);
    let after = handled(first, stated, other, later_ms);
    icons_show_their_entries(after.entries.last());
}

/// Of the entries alone: the one that is taken out is gone, and the others close up in their
/// order.
pub proof fn removal_closes_up(entries: Seq<EntryView>, owner: isize, uid: u32, i: int)
    requires
        unique_keys(entries),
        stands_for(entries, owner, uid, i),
    ensures
        ({
            let after = removed(entries, owner, uid);
            &&& after.len() == entries.len() - 1
            &&& forall|j: int| 0 <= j < i ==> #[trigger] after[j] == entries[j]
            &&& forall|j: int| i <= j < after.len() ==> #[trigger] after[j] == entries[j + 1]
            &&& is_absent(after, owner, uid)
        }),
{
    icons_are_found_by_owner_and_id(entries, owner, uid, i);
    removal_takes_one_entry(entries, owner, uid, i);
    let after = removed(entries, owner, uid);
    assert(after == entries.remove(i));
    assert forall|j: int| 0 <= j < after.len() implies !((#[trigger] after[j]).owner_hwnd == owner
        && after[j].uid == uid) by {
        if j >= i {
            assert(after[j] == entries[j + 1]);
            assert(entries[i].owner_hwnd == owner && entries[i].uid == uid);
        }
    }
}

/// A deleted icon is gone, and the others close up in their order. For an icon that is not there
/// nothing changes.
pub proof fn deleted_icons_are_gone(
    host: HostView,
    buf: Seq<u8>,
    lookup: LookupView,
    now_ms: u64,
    owner: isize,
    uid: u32,
    i: int,
)
    requires
        command_of(buf) == (TrayCommand::Remove { owner, uid }),
        unique_keys(host.entries),
    ensures
        ({
            let after = handled(host, buf, lookup, now_ms);
            &&& stands_for(host.entries, owner, uid, i) ==> {
                &&& is_one_change(host, after, now_ms)
                &&& after.entries.len() == host.entries.len() - 1
                &&& forall|j: int| 0 <= j < i ==> #[trigger] after.entries[j] == host.entries[j]
                &&& forall|j: int|
                    i <= j < after.entries.len() ==> #[trigger] after.entries[j]
                        == host.entries[j + 1]
                &&& is_absent(after.entries, owner, uid)
            }
            &&& is_absent(host.entries, owner, uid) ==> is_no_change(host, after)
        }),
{
    icons_are_found_by_owner_and_id(host.entries, owner, uid, i);
    counter::counts_add_up(host.change_seq, 1);
    let after = handled(host, buf, lookup, now_ms);
    assert(after == after_removal(received(host, buf), owner, uid, now_ms));
    if stands_for(host.entries, owner, uid, i) {
        removal_closes_up(host.entries, owner, uid, i);
        assert(after.entries == removed(host.entries, owner, uid));
    }
}

/// A block that asks for nothing changes no entry and counts as no change.
pub proof fn ignored_blocks_are_no_change(
    host: HostView,
    buf: Seq<u8>,
    lookup: LookupView,
    now_ms: u64,
)
    requires
        command_of(buf) is Ignore,
    ensures
        is_no_change(host, handled(host, buf, lookup, now_ms)),
{
}

/// Of every block its length and its first 1024 bytes are kept, whatever it asks for.
pub proof fn blocks_are_kept_for_diagnostics(
    host: HostView,
    buf: Seq<u8>,
    lookup: LookupView,
    now_ms: u64,
)
    ensures
        ({
            let after = handled(host, buf, lookup, now_ms);
            &&& after.last_cbdata == buf.len() % 0x1_0000_0000
            &&& after.last_raw.len() <= 1024
            &&& after.last_raw.len() == buf.len() || after.last_raw.len() == 1024 < buf.len()
            &&& forall|k: int| 0 <= k < after.last_raw.len() ==> #[trigger] after.last_raw[k]
                == buf[k]
        }),
{
}

/// The picture is looked up exactly where a registration says that it has one and supplies its
/// handle, and the owner's process exactly where the icon is new.
pub proof fn only_what_counts_is_looked_up(host: HostView, buf: Seq<u8>)
    ensures
        ({
            let r = request_for(host, buf);
            &&& command_of(buf) matches TrayCommand::Upsert { owner, uid, flags } ==> {
                &&& flags & 2 != 0 && sent_handle(buf) != 0 ==> r.icon == Some(sent_handle(buf))
                &&& flags & 2 == 0 || sent_handle(buf) == 0 ==> r.icon is None
                &&& is_absent(host.entries, owner, uid) ==> r.owner == Some(owner)
                &&& !is_absent(host.entries, owner, uid) ==> r.owner is None
            }
            &&& !(command_of(buf) is Upsert) ==> r.icon is None && r.owner is None
        }),
{
    if let TrayCommand::Upsert { owner, uid, flags } = command_of(buf) {
        icons_are_found_by_owner_and_id(host.entries, owner, uid, 0);
    }
}

/// Marking a change adds one count and the time, and keeps the icons.
pub proof fn changes_are_marked(host: HostView, entries: Seq<EntryView>, now_ms: u64)
    ensures
        is_one_change(host, host.changed(entries, now_ms), now_ms),
        host.changed(entries, now_ms).entries == entries,
        host.changed(entries, now_ms).last_cbdata == host.last_cbdata,
        host.changed(entries, now_ms).last_raw == host.last_raw,
{
    counter::counts_add_up(host.change_seq, 1);
}

/// Taking an icon out, or stating its version, is a change exactly if the icon is there.
pub proof fn absent_icons_are_no_change(
    host: HostView,
    owner: isize,
    uid: u32,
    version: u32,
    now_ms: u64,
)
    ensures
        is_absent(host.entries, owner, uid) ==> after_removal(host, owner, uid, now_ms) == host
            && after_version(host, owner, uid, version, now_ms) == host,
        !is_absent(host.entries, owner, uid) ==> is_one_change(
            host,
            after_removal(host, owner, uid, now_ms),
            now_ms,
        ) && is_one_change(host, after_version(host, owner, uid, version, now_ms), now_ms),
{
    icons_are_found_by_owner_and_id(host.entries, owner, uid, 0);
    counter::counts_add_up(host.change_seq, 1);
}

/// The value of an entry has its fields.
pub proof fn entries_are_seen_as_they_are(e: TrayEntry)
    ensures
        e@.owner_hwnd == e.owner_hwnd,
        e@.uid == e.uid,
        e@.callback_msg == e.callback_msg,
        e@.version == e.version,
        e@.tip == e.tip@,
        e@.exe_path == e.exe_path@,
        e@.pid == e.pid,
        e@.icon_url == e.icon_url@,
        e@.needs_exe_icon == e.needs_exe_icon,
{
}

/// The value of a host has its fields, and the value of each entry at its place.
pub proof fn hosts_are_seen_as_they_are(host: TrayHost, i: int)
    ensures
        host@.entries.len() == host.entries@.len(),
        0 <= i < host.entries@.len() ==> host@.entries[i] == host.entries@[i]@,
        host@.change_seq == host.change_seq,
        host@.last_change_ms == host.last_change_ms,
        host@.last_cbdata == host.last_cbdata,
        host@.last_raw == host.last_raw@,
        host@.hwnd == host.hwnd,
        host@.running == host.running,
        host@.shutdown_done == host.shutdown_done,
{
}

/// The value of what was looked up has its fields; a text that is there is seen, and only one that
/// is there.
pub proof fn lookups_are_seen_as_they_are(l: Lookup, s: Option<String>)
    ensures
        l@.pid == l.pid,
        l@.exe_path == l.exe_path@,
        l@.rendered == opt_text(l.rendered),
        opt_text(s) is Some <==> s is Some,
        s is Some ==> opt_text(s)->0 == s->0@,
{
}

/// A word that a block does not reach reads as zero, and every other as it stands.
pub proof fn missing_words_are_zero(buf: Seq<u8>, off: int)
    ensures
        wire::u32_at(buf, off) is None ==> u32_or_zero(buf, off) == 0,
        wire::u32_at(buf, off) is Some ==> u32_or_zero(buf, off) == wire::u32_at(buf, off)->0,
        wire::u64_at(buf, off) is None ==> u64_or_zero(buf, off) == 0,
        wire::u64_at(buf, off) is Some ==> u64_or_zero(buf, off) == wire::u64_at(buf, off)->0,
{
}

} // verus!
