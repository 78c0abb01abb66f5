//! The window switcher: a ring of windows, of which one is selected.
//!
//! A session opens on the windows in Z-order, turned so that the foreground window leads. Steps
//! and the mouse move the selection; releasing the key commits it, escape cancels. The caller
//! shows the ring and brings windows to the foreground; which window that is, is decided here.

use vstd::prelude::*;

use crate::counter;

verus! {

/// Longest side of a thumbnail in the ring.
pub const THUMB_MAX_PX: u32 = 1280;

/// How often the keyboard's requests are polled.
pub const POLL_MS: u64 = 8;

/// How long to wait before a window is brought to the foreground, so that the ring is gone.
pub const FOCUS_DELAY_MS: u64 = 90;

// ---------------------------------------------------------------- selection

/// The index that is selected when the ring opens: forward the second window, where there is
/// one, and in reverse the last.
pub fn initial_index(dir: i32, len: usize) -> (i: usize)
    requires
        len >= 1,
    ensures
        i == first_selection(dir, len as int),
        i < len,
{
    if dir >= 0 {
        if len >= 2 {
            1
        } else {
            0
        }
    } else {
        len - 1
    }
}

/// The index that is selected when a ring opens.
pub open spec fn first_selection(dir: i32, len: int) -> int {
    if dir < 0 {
        len - 1
    } else if len >= 2 {
        1
    } else {
        0
    }
}

/// Moves the selection by `delta` places, around the ring.
pub fn step_index(cur: usize, delta: i32, len: usize) -> (i: usize)
    requires
        len >= 1,
    ensures
        i == (cur + delta) % (len as int),
        i < len,
{
    let n: i128 = len as i128;
    let sum: i128 = cur as i128 + delta as i128;
    if sum >= 0 {
        (sum % n) as usize
    } else {
        let back: i128 = (-sum) % n;
        proof {
            let k = (-sum) as int / n as int;
            assert(-sum == k * n + back) by {
                vstd::arithmetic::div_mod::lemma_fundamental_div_mod((-sum) as int, n as int);
                vstd::arithmetic::mul::lemma_mul_is_commutative(k, n as int);
            }
            if back == 0 {
                assert(sum == (-k) * n + 0) by (nonlinear_arith)
                    requires
                        -sum == k * n + back,
                        back == 0,
                ;
                vstd::arithmetic::div_mod::lemma_fundamental_div_mod_converse(
                    sum as int,
                    n as int,
                    -k,
                    0,
                );
            } else {
                assert(sum == (-k - 1) * n + (n - back)) by (nonlinear_arith)
                    requires
                        -sum == k * n + back,
                ;
                vstd::arithmetic::div_mod::lemma_fundamental_div_mod_converse(
                    sum as int,
                    n as int,
                    -k - 1,
                    n - back,
                );
            }
        }
        if back == 0 {
            0
        } else {
            (n - back) as usize
        }
    }
}

/// `i` is the first place of `anchor` in `ids`.
pub open spec fn is_first_at(ids: Seq<i64>, anchor: i64, i: int) -> bool {
    &&& 0 <= i < ids.len()
    &&& ids[i] == anchor
    &&& forall|j: int| 0 <= j < i ==> ids[j] != anchor
}

/// The first place of `anchor` in `ids`; none where it is not among them.
pub fn anchor_rotation(ids: &[i64], anchor: i64) -> (r: Option<usize>)
    ensures
        match r {
            Some(i) => is_first_at(ids@, anchor, i as int),
            None => !ids@.contains(anchor),
        },
{
    let mut i: usize = 0;
    while i < ids.len()
        invariant
            i <= ids.len(),
            forall|j: int| 0 <= j < i ==> ids@[j] != anchor,
        decreases ids.len() - i,
    {
        if ids[i] == anchor {
            return Some(i);
        }
        i += 1;
    }
    None
}

// ---------------------------------------------------------------- sessions

/// A window as it was enumerated.
#[derive(Debug)]
pub struct WindowInfo {
    pub hwnd: isize,
    pub title: String,
    pub exe_path: String,
    pub minimized: bool,
}

/// A window as the ring shows it.
#[derive(Clone, Debug)]
pub struct SwitcherItem {
    pub id: i64,
    pub title: String,
    pub exe_path: String,
    pub minimized: bool,
}

/// The value of a `SwitcherItem`.
#[verifier::ext_equal]
pub struct ItemView {
    pub id: int,
    pub title: Seq<char>,
    pub exe_path: Seq<char>,
    pub minimized: bool,
}

impl View for SwitcherItem {
    type V = ItemView;

    open spec fn view(&self) -> ItemView {
        ItemView {
            id: self.id as int,
            title: self.title@,
            exe_path: self.exe_path@,
            minimized: self.minimized,
        }
    }
}

impl View for WindowInfo {
    type V = ItemView;

    open spec fn view(&self) -> ItemView {
        ItemView {
            id: self.hwnd as int,
            title: self.title@,
            exe_path: self.exe_path@,
            minimized: self.minimized,
        }
    }
}

/// The values of a list of items.
pub open spec fn item_views(items: Seq<SwitcherItem>) -> Seq<ItemView> {
    items.map_values(|it: SwitcherItem| it@)
}

/// The values of a list of windows.
pub open spec fn window_views(windows: Seq<WindowInfo>) -> Seq<ItemView> {
    windows.map_values(|w: WindowInfo| w@)
}

/// The ring while it is open.
#[derive(Debug)]
pub struct Session {
    pub items: Vec<SwitcherItem>,
    /// The selected item.
    pub index: usize,
    /// The window that was in the foreground when the ring opened.
    pub anchor: isize,
}

/// The value of a `Session`.
#[verifier::ext_equal]
pub struct SessionView {
    pub items: Seq<ItemView>,
    pub index: int,
    pub anchor: isize,
}

impl View for Session {
    type V = SessionView;

    open spec fn view(&self) -> SessionView {
        SessionView { items: item_views(self.items@), index: self.index as int, anchor: self.anchor }
    }
}

impl SessionView {
    /// The selection is one of the items, and every id is a window handle.
    pub open spec fn wf(self) -> bool {
        &&& 0 <= self.index < self.items.len()
        &&& forall|i: int|
            0 <= i < self.items.len() ==> isize::MIN <= (#[trigger] self.items[i]).id <= isize::MAX
    }

    /// The window that a commit brings to the foreground.
    pub open spec fn selected(self) -> isize {
        self.items[self.index].id as isize
    }
}

/// The switcher: the open session, if any, and the number of the last one that was opened.
#[derive(Debug)]
pub struct Switcher {
    pub session: Option<Session>,
    pub generation: u64,
}

/// The value of a `Switcher`.
#[verifier::ext_equal]
pub struct SwitcherView {
    pub session: Option<SessionView>,
    pub generation: u64,
}

impl View for Switcher {
    type V = SwitcherView;

    open spec fn view(&self) -> SwitcherView {
        SwitcherView {
            session: match self.session {
                Some(s) => Some(s@),
                None => None,
            },
            generation: self.generation,
        }
    }
}

impl SwitcherView {
    /// An open session is well formed.
    pub open spec fn wf(self) -> bool {
        self.session matches Some(s) ==> s.wf()
    }

    /// With the selection at another place; nothing happens without a session, or for a place
    /// that the ring does not have.
    pub open spec fn with_index(self, index: int) -> SwitcherView {
        match self.session {
            Some(s) if 0 <= index < s.items.len() => SwitcherView {
                session: Some(SessionView { index, ..s }),
                ..self
            },
            _ => self,
        }
    }

    /// Without a session.
    pub open spec fn closed(self) -> SwitcherView {
        SwitcherView { session: None, ..self }
    }

    /// The window that a commit brings to the foreground, if a session is open.
    pub open spec fn target(self) -> Option<isize> {
        match self.session {
            Some(s) => Some(s.selected()),
            None => None,
        }
    }
}

impl Switcher {
    /// A switcher without a session.
    pub fn new() -> (s: Switcher)
        ensures
            s@ == (SwitcherView { session: None, generation: 0 }),
            s@.wf(),
    {
        Switcher { session: None, generation: 0 }
    }
}

/// The list turned so that what was at `pos` comes first.
pub open spec fn rotated<A>(s: Seq<A>, pos: int) -> Seq<A> {
    s.skip(pos) + s.take(pos)
}

/// The session that opens on a list of windows: turned so that the anchor leads, with the first
/// selection of the direction; or as it is with its first window selected, where the anchor is
/// not in the list.
pub open spec fn opened(windows: Seq<ItemView>, dir: i32, anchor: isize) -> SessionView {
    if exists|i: int| is_anchor_at(windows, anchor, i) {
        let pos = choose|i: int| is_anchor_at(windows, anchor, i);
        SessionView {
            items: rotated(windows, pos),
            index: first_selection(dir, windows.len() as int),
            anchor,
        }
    } else {
        SessionView { items: windows, index: 0, anchor }
    }
}

/// `i` is the first place of the anchor window in the list.
pub open spec fn is_anchor_at(windows: Seq<ItemView>, anchor: isize, i: int) -> bool {
    &&& 0 <= i < windows.len()
    &&& windows[i].id == anchor
    &&& forall|j: int| 0 <= j < i ==> (#[trigger] windows[j]).id != anchor
}

/// A session that is ready to be shown, with its number.
#[derive(Debug)]
pub struct PendingSession {
    pub session: Session,
    pub generation: u64,
}

fn make_items(windows: Vec<WindowInfo>) -> (items: Vec<SwitcherItem>)
    ensures
        item_views(items@) == window_views(windows@),
{
    let ghost wanted = window_views(windows@);
    let mut items: Vec<SwitcherItem> = Vec::new();
    let mut i: usize = 0;
    while i < windows.len()
        invariant
            i <= windows.len(),
            wanted == window_views(windows@),
            items.len() == i,
            forall|j: int| 0 <= j < i ==> (#[trigger] items@[j])@ == wanted[j],
        decreases windows.len() - i,
    {
        let w = &windows[i];
        let item = SwitcherItem {
            id: w.hwnd as i64,
            title: w.title.clone(),
            exe_path: w.exe_path.clone(),
            minimized: w.minimized,
        };
        assert(wanted[i as int] == w@);
        assert(item@ =~= w@);
        items.push(item);
        i += 1;
    }
    assert(item_views(items@) =~= wanted);
    items
}

fn item_ids(items: &Vec<SwitcherItem>) -> (ids: Vec<i64>)
    ensures
        ids.len() == items.len(),
        forall|i: int| 0 <= i < ids.len() ==> (#[trigger] ids@[i]) as int == item_views(items@)[i].id,
{
    let mut ids: Vec<i64> = Vec::new();
    let mut i: usize = 0;
    while i < items.len()
        invariant
            i <= items.len(),
            ids.len() == i,
            forall|j: int|
                0 <= j < i ==> (#[trigger] ids@[j]) as int == item_views(items@)[j].id,
        decreases items.len() - i,
    {
        ids.push(items[i].id);
        i += 1;
    }
    ids
}

/// Prepares a session. There is none where the windows could not be enumerated or there are
/// none; else the session gets the next number, which ends the thumbnails of the one before.
pub fn open_session(
    switcher: &mut Switcher,
    dir: i32,
    anchor: isize,
    windows: Option<Vec<WindowInfo>>,
) -> (r: Option<PendingSession>)
    ensures
        match r {
            Some(p) => {
                &&& windows is Some
                &&& windows->0.len() > 0
                &&& p.session@ == opened(window_views(windows->0@), dir, anchor)
                &&& p.session@.wf()
                &&& p.generation == counter::next_seq(old(switcher)@.generation)
                &&& final(switcher)@ == (SwitcherView {
                    generation: p.generation,
                    ..old(switcher)@
                })
            },
            None => {
                &&& windows is None || windows->0.len() == 0
                &&& final(switcher)@ == old(switcher)@
            },
        },
        old(switcher)@.wf() ==> final(switcher)@.wf(),
{
    let windows: Vec<WindowInfo> = match windows {
        Some(w) => w,
        None => return None,
    };
    if windows.len() == 0 {
        return None;
    }
    let ghost views = window_views(windows@);
    let mut items = make_items(windows);
    let ids = item_ids(&items);
    assert forall|i: int| 0 <= i < views.len() implies isize::MIN <= (#[trigger] views[i]).id
        <= isize::MAX by {
        assert(views[i] == windows@[i]@);
    }
    let mut index: usize = 0;
    match anchor_rotation(ids.as_slice(), anchor as i64) {
        Some(pos) => {
            proof {
                assert(views[pos as int].id == ids@[pos as int]);
                assert forall|j: int| 0 <= j < pos implies (#[trigger] views[j]).id != anchor by {
                    assert(ids@[j] as int == views[j].id);
                }
                assert(is_anchor_at(views, anchor, pos as int));
                let chosen = choose|i: int| is_anchor_at(views, anchor, i);
                assert(is_anchor_at(views, anchor, chosen));
                if chosen < pos {
                    assert(views[chosen].id != anchor);
                }
            }
            let ghost all = items@;
            let mut turned = items.split_off(pos);
            turned.append(&mut items);
            items = turned;
            assert(item_views(items@) =~= rotated(views, pos as int));
            index = initial_index(dir, items.len());
        },
        None => {
            proof {
                assert forall|i: int| !is_anchor_at(views, anchor, i) by {
                    if is_anchor_at(views, anchor, i) {
                        assert(ids@[i] as int == views[i].id);
                        assert(ids@.contains(anchor as i64));
                    }
                }
            }
        },
    }
    switcher.generation = counter::advance(switcher.generation);
    let session = Session { items, index, anchor };
    Some(PendingSession { session, generation: switcher.generation })
}

/// Takes a prepared session over once the ring is shown. Where it could not be shown, nothing
/// changes. The result says whether the session is open.
pub fn session_shown(switcher: &mut Switcher, pending: PendingSession, shown: bool) -> (r: bool)
    ensures
        r == shown,
        final(switcher)@ == (if shown {
            SwitcherView { session: Some(pending.session@), ..old(switcher)@ }
        } else {
            old(switcher)@
        }),
        old(switcher)@.wf() && pending.session@.wf() ==> final(switcher)@.wf(),
{
    if shown {
        switcher.session = Some(pending.session);
    }
    shown
}

/// Whether the thumbnails of a session are still wanted.
pub fn thumbnails_wanted(switcher: &Switcher, generation: u64) -> (r: bool)
    ensures
        r == (switcher@.generation == generation),
{
    switcher.generation == generation
}

/// Whether a session is open.
pub fn is_open(switcher: &Switcher) -> (r: bool)
    ensures
        r == (switcher@.session is Some),
{
    switcher.session.is_some()
}

/// Moves the selection by a number of places. Gives the new selection, if a session is open.
pub fn step(switcher: &mut Switcher, delta: i32) -> (r: Option<usize>)
    requires
        old(switcher)@.wf(),
    ensures
        final(switcher)@.wf(),
        match old(switcher)@.session {
            Some(s) => {
                let next = (s.index + delta) % (s.items.len() as int);
                &&& r matches Some(i) && i == next
                &&& final(switcher)@ == old(switcher)@.with_index(next)
            },
            None => r is None && final(switcher)@ == old(switcher)@,
        },
{
    match switcher.session.take() {
        Some(mut s) => {
            assert(s.items.len() == s@.items.len());
            let next: usize = step_index(s.index, delta, s.items.len());
            s.index = next;
            switcher.session = Some(s);
            Some(next)
        },
        None => None,
    }
}

/// Selects a place by the mouse. Gives the place back where it was taken.
pub fn set_index(switcher: &mut Switcher, index: usize) -> (r: Option<usize>)
    ensures
        final(switcher)@ == old(switcher)@.with_index(index as int),
        r == match old(switcher)@.session {
            Some(s) if index < s.items.len() => Some(index),
            _ => None,
        },
        old(switcher)@.wf() ==> final(switcher)@.wf(),
{
    match switcher.session.take() {
        Some(mut s) => {
            assert(s.items.len() == s@.items.len());
            let r: Option<usize> = if index < s.items.len() {
                s.index = index;
                Some(index)
            } else {
                None
            };
            switcher.session = Some(s);
            r
        },
        None => None,
    }
}

/// Commits the selection: the session ends. Gives the window to bring to the foreground.
pub fn commit_current(switcher: &mut Switcher) -> (target: Option<isize>)
    requires
        old(switcher)@.wf(),
    ensures
        target == old(switcher)@.target(),
        final(switcher)@ == old(switcher)@.closed(),
        final(switcher)@.wf(),
{
    match switcher.session.take() {
        Some(s) => {
            assert(s@.items[s.index as int] == s.items@[s.index as int]@);
            Some(s.items[s.index].id as isize)
        },
        None => None,
    }
}

/// Selects a place and commits: the window at the place, or the one that was selected before
/// where the ring has no such place.
pub fn commit_index(switcher: &mut Switcher, index: usize) -> (target: Option<isize>)
    requires
        old(switcher)@.wf(),
    ensures
        target == old(switcher)@.with_index(index as int).target(),
        final(switcher)@ == old(switcher)@.closed(),
        final(switcher)@.wf(),
{
    let _ = set_index(switcher, index);
    commit_current(switcher)
}

/// Cancels: the session ends. Gives the window that was in the foreground before.
pub fn cancel(switcher: &mut Switcher) -> (anchor: Option<isize>)
    ensures
        anchor == match old(switcher)@.session {
            Some(s) => Some(s.anchor),
            None => None,
        },
        final(switcher)@ == old(switcher)@.closed(),
        final(switcher)@.wf(),
{
    match switcher.session.take() {
        Some(s) => Some(s.anchor),
        None => None,
    }
}

// ---------------------------------------------------------------- the loop

/// A request of the keyboard, as the loop polls it.
#[derive(Clone, Copy, Debug)]
pub enum Signal {
    /// The steps since the last poll, added up.
    Step(i32),
    /// Whether escape was pressed.
    Cancel(bool),
    /// Whether the key was released.
    Commit(bool),
    /// Whether the key is down right now.
    AltDown(bool),
}

/// What the caller does about a signal.
#[derive(Clone, Copy, Debug, PartialEq, Eq, Structural)]
pub enum SwitcherAction {
    Nothing,
    /// Tell the ring about the selection.
    Select(usize),
    /// Hide the ring, and bring this window to the foreground if there is one.
    Close(Option<isize>),
}

/// What follows from a signal. A session whose key is no longer down is committed: the release
/// was missed.
pub open spec fn action_for(s: SwitcherView, signal: Signal) -> SwitcherAction {
    match signal {
        Signal::Step(delta) => match s.session {
            Some(session) if delta != 0 => SwitcherAction::Select(
                ((session.index + delta) % (session.items.len() as int)) as usize,
            ),
            _ => SwitcherAction::Nothing,
        },
        Signal::Cancel(pressed) => if pressed {
            SwitcherAction::Close(
                match s.session {
                    Some(session) => Some(session.anchor),
                    None => None,
                },
            )
        } else {
            SwitcherAction::Nothing
        },
        Signal::Commit(released) => if released {
            SwitcherAction::Close(s.target())
        } else {
            SwitcherAction::Nothing
        },
        Signal::AltDown(down) => if s.session is Some && !down {
            SwitcherAction::Close(s.target())
        } else {
            SwitcherAction::Nothing
        },
    }
}

/// The switcher after an action.
pub open spec fn after_action(s: SwitcherView, action: SwitcherAction) -> SwitcherView {
    match action {
        SwitcherAction::Nothing => s,
        SwitcherAction::Select(i) => s.with_index(i as int),
        SwitcherAction::Close(_) => s.closed(),
    }
}

/// Takes one signal in. In each turn of the loop the signals come in the order in which `Signal`
/// lists them.
pub fn run(switcher: &mut Switcher, signal: Signal) -> (a: SwitcherAction)
    requires
        old(switcher)@.wf(),
    ensures
        a == action_for(old(switcher)@, signal),
        final(switcher)@ == after_action(old(switcher)@, a),
        final(switcher)@.wf(),
{
    match signal {
        Signal::Step(delta) => {
            if delta == 0 {
                return SwitcherAction::Nothing;
            }
            match step(switcher, delta) {
                Some(i) => SwitcherAction::Select(i),
                None => SwitcherAction::Nothing,
            }
        },
        Signal::Cancel(pressed) => if pressed {
            SwitcherAction::Close(cancel(switcher))
        } else {
            SwitcherAction::Nothing
        },
        Signal::Commit(released) => if released {
            SwitcherAction::Close(commit_current(switcher))
        } else {
            SwitcherAction::Nothing
        },
        Signal::AltDown(down) => if is_open(switcher) && !down {
            SwitcherAction::Close(commit_current(switcher))
        } else {
            SwitcherAction::Nothing
        },
    }
}

/// The script that hands the ring its first payload, for a ring whose listener came up late.
pub open spec fn pending_script_text(json: Seq<char>) -> Seq<char> {
    "window.__switcherPending = "@ + json
        + "; window.__switcherApply && window.__switcherApply(window.__switcherPending);"@
}

/// Writes the script that hands the ring its first payload.
pub fn pending_script(json: &str) -> (script: String)
    ensures
        script@ == pending_script_text(json@),
{
    let mut script = "window.__switcherPending = ".to_owned();
    script.append(json);
    script.append("; window.__switcherApply && window.__switcherApply(window.__switcherPending);");
    script
}

// ---------------------------------------------------------------- laws

proof fn lemma_opened_at(windows: Seq<ItemView>, dir: i32, anchor: isize, pos: int)
    requires
        is_anchor_at(windows, anchor, pos),
    ensures
        opened(windows, dir, anchor) == (SessionView {
            items: rotated(windows, pos),
            index: first_selection(dir, windows.len() as int),
            anchor,
        }),
{
    let chosen = choose|i: int| is_anchor_at(windows, anchor, i);
    assert(is_anchor_at(windows, anchor, chosen));
    if chosen < pos {
        assert(windows[chosen].id != anchor);
    }
    if pos < chosen {
        assert(windows[pos].id != anchor);
    }
}

/// Turning a list moves every element back by the same number of places, around the end.
pub proof fn rotation_shifts_places<A>(s: Seq<A>, pos: int, i: int)
    requires
        0 <= pos < s.len(),
        0 <= i < s.len(),
    ensures
        rotated(s, pos).len() == s.len(),
        rotated(s, pos)[i] == s[(pos + i) % (s.len() as int)],
{
    let n = s.len() as int;
    if pos + i < n {
        vstd::arithmetic::div_mod::lemma_small_mod((pos + i) as nat, n as nat);
    } else {
        vstd::arithmetic::div_mod::lemma_fundamental_div_mod_converse(pos + i, n, 1, pos + i - n);
    }
}

/// The ring shows the enumerated windows, each as often as it was enumerated.
pub proof fn ring_shows_every_window(windows: Seq<ItemView>, dir: i32, anchor: isize)
    ensures
        opened(windows, dir, anchor).items.to_multiset() == windows.to_multiset(),
{
    if exists|i: int| is_anchor_at(windows, anchor, i) {
        let pos = choose|i: int| is_anchor_at(windows, anchor, i);
        lemma_opened_at(windows, dir, anchor, pos);
        let front = windows.take(pos);
        let back = windows.skip(pos);
        vstd::seq_lib::lemma_multiset_commutative(back, front);
        vstd::seq_lib::lemma_multiset_commutative(front, back);
        assert(front + back =~= windows);
        assert(back.to_multiset().add(front.to_multiset()) =~= front.to_multiset().add(
            back.to_multiset(),
        ));
    }
}

/// In a ring that was opened on the foreground window, that window leads; forward, the window
/// behind it in Z-order is selected, and in reverse the one before it. In a ring of one window
/// that window is selected.
pub proof fn opening_selects_the_neighbour(
    windows: Seq<ItemView>,
    dir: i32,
    anchor: isize,
    pos: int,
)
    requires
        is_anchor_at(windows, anchor, pos),
    ensures
        ({
            let s = opened(windows, dir, anchor);
            let n = windows.len() as int;
            &&& s.items[0].id == anchor
            &&& dir >= 0 ==> s.items[s.index] == windows[(pos + 1) % n]
            &&& dir < 0 ==> s.items[s.index] == windows[(pos + n - 1) % n]
        }),
{
    let n = windows.len() as int;
    lemma_opened_at(windows, dir, anchor, pos);
    rotation_shifts_places(windows, pos, 0);
    vstd::arithmetic::div_mod::lemma_small_mod(pos as nat, n as nat);
    rotation_shifts_places(windows, pos, first_selection(dir, n));
    if n == 1 {
        assert(pos == 0);
        assert((pos + 1) % n == 0);
    }
}

/// Where the foreground window is not among the windows, the topmost window is selected.
pub proof fn opening_without_anchor_selects_the_top(
    windows: Seq<ItemView>,
    dir: i32,
    anchor: isize,
)
    requires
        forall|i: int| 0 <= i < windows.len() ==> (#[trigger] windows[i]).id != anchor,
    ensures
        opened(windows, dir, anchor).items == windows,
        opened(windows, dir, anchor).index == 0,
{
    assert forall|i: int| !is_anchor_at(windows, anchor, i) by {
        if is_anchor_at(windows, anchor, i) {
            assert(windows[i].id != anchor);
        }
    }
}

/// A quick tap goes to the previous window: a ring that opens forward and is committed at once
/// brings up the window behind the foreground window.
pub proof fn quick_tap_switches_to_the_previous_window(
    s: SwitcherView,
    windows: Seq<ItemView>,
    anchor: isize,
    pos: int,
)
    requires
        is_anchor_at(windows, anchor, pos),
        forall|i: int|
            0 <= i < windows.len() ==> isize::MIN <= (#[trigger] windows[i]).id <= isize::MAX,
    ensures
        ({
            let open = SwitcherView { session: Some(opened(windows, 1, anchor)), ..s };
            action_for(open, Signal::Commit(true)) == SwitcherAction::Close(
                Some(windows[(pos + 1) % (windows.len() as int)].id as isize),
            )
        }),
{
    opening_selects_the_neighbour(windows, 1, anchor, pos);
}

/// Steps add up: a step by `a` and one by `b` are a step by their sum.
pub proof fn steps_add_up(index: int, a: int, b: int, len: int)
    requires
        len >= 1,
    ensures
        ((index + a) % len + b) % len == (index + a + b) % len,
{
    vstd::arithmetic::div_mod::lemma_add_mod_noop_right(b, index + a, len);
}

/// A step and the same step back lead to the same selection, and so does a full turn.
pub proof fn stepping_back_undoes_a_step(index: int, delta: int, len: int)
    requires
        0 <= index < len,
    ensures
        ((index + delta) % len - delta) % len == index,
        (index + len) % len == index,
        (index - len) % len == index,
{
    steps_add_up(index, delta, -delta, len);
    vstd::arithmetic::div_mod::lemma_small_mod(index as nat, len as nat);
    vstd::arithmetic::div_mod::lemma_mod_add_multiples_vanish(index, len);
    vstd::arithmetic::div_mod::lemma_mod_sub_multiples_vanish(index, len);
}

/// A step forward from the last place leads to the first, and back.
pub proof fn steps_wrap_around(len: int)
    requires
        len >= 1,
    ensures
        (len - 1 + 1) % len == 0,
        (0 - 1) % len == len - 1,
{
    vstd::arithmetic::div_mod::lemma_mod_self_0(len);
    vstd::arithmetic::div_mod::lemma_fundamental_div_mod_converse(-1, len, -1, len - 1);
}

/// The thumbnails of a session are not wanted again once a newer session was prepared, short of a
/// full turn of the 64-bit counter.
pub proof fn newer_sessions_end_older_thumbnails(generation: u64, opened_since: nat)
    requires
        0 < opened_since < 0x1_0000_0000_0000_0000,
    ensures
        counter::seq_after(generation, opened_since) != generation,
{
    counter::earlier_values_stay_past(generation, opened_since);
}

/// No signal opens a session, and every session that is committed, cancelled or found with its
/// key released is closed.
pub proof fn every_ending_closes_the_session(s: SwitcherView, signal: Signal)
    ensures
        s.session is None ==> after_action(s, action_for(s, signal)).session is None,
        signal == Signal::Commit(true) || signal == Signal::Cancel(true) || signal
            == Signal::AltDown(false) ==> after_action(s, action_for(s, signal)).session is None,
        after_action(s, action_for(s, signal)).generation == s.generation,
{
}

/// Cancelling changes nothing but to end the session: focus goes back to where it was.
pub proof fn cancelling_returns_to_the_anchor(
    s: SwitcherView,
    windows: Seq<ItemView>,
    dir: i32,
    anchor: isize,
    index: int,
)
    ensures
        ({
            let open = SwitcherView { session: Some(opened(windows, dir, anchor)), ..s };
            action_for(open.with_index(index), Signal::Cancel(true)) == SwitcherAction::Close(
                Some(anchor),
            )
        }),
{
}

// ---------------------------------------------------------------- what signals do

/// The session has a selection among its windows, of which there are as many as memory holds.
pub open spec fn is_ring(s: SessionView) -> bool {
    0 <= s.index < s.items.len() <= usize::MAX
}

/// The selection of an open session moved to `j`, and nothing else changed.
pub open spec fn is_moved(before: SwitcherView, after: SwitcherView, j: int) -> bool {
    &&& before.session is Some && after.session is Some
    &&& after.session->0.items == before.session->0.items
    &&& after.session->0.anchor == before.session->0.anchor
    &&& after.session->0.index == j
    &&& after.generation == before.generation
}

proof fn lemma_congruent(a: int, n: int)
    requires
        n > 0,
    ensures
        0 <= a % n < n,
        (a % n - a) % n == 0,
{
    vstd::arithmetic::div_mod::lemma_fundamental_div_mod(a, n);
    let q = a / n;
    assert(a % n - a == (-q) * n + 0) by (nonlinear_arith)
        requires
            a == n * q + a % n,
    ;
    vstd::arithmetic::div_mod::lemma_fundamental_div_mod_converse(a % n - a, n, -q, 0);
}

/// A step selects the window that many places on, backwards for a negative step, around the ring;
/// the ring itself stays.
pub proof fn steps_move_the_selection(s: SwitcherView, delta: i32)
    requires
        s.session is Some,
        is_ring(s.session->0),
        delta != 0,
    ensures
        ({
            let n = s.session->0.items.len() as int;
            let a = action_for(s, Signal::Step(delta));
            &&& a is Select
            &&& 0 <= a->Select_0 < n
            &&& (a->Select_0 - (s.session->0.index + delta)) % n == 0
            &&& is_moved(s, after_action(s, a), a->Select_0 as int)
        }),
{
    let n = s.session->0.items.len() as int;
    lemma_congruent(s.session->0.index + delta, n);
}

/// A step by one selects the neighbour: the next window, or the first after the last; and a step
/// back by one the window before, or the last before the first.
pub proof fn single_steps_select_the_neighbour(s: SwitcherView)
    requires
        s.session is Some,
        is_ring(s.session->0),
    ensures
        ({
            let n = s.session->0.items.len() as int;
            let i = s.session->0.index;
            let on = action_for(s, Signal::Step(1));
            let back = action_for(s, Signal::Step((-1) as i32));
            &&& on is Select && back is Select
            &&& on->Select_0 == if i == n - 1 {
                0
            } else {
                i + 1
            }
            &&& back->Select_0 == if i == 0 {
                n - 1
            } else {
                i - 1
            }
        }),
{
    let n = s.session->0.items.len() as int;
    let i = s.session->0.index;
    if i < n - 1 {
        vstd::arithmetic::div_mod::lemma_small_mod((i + 1) as nat, n as nat);
    } else {
        vstd::arithmetic::div_mod::lemma_fundamental_div_mod_converse(i + 1, n, 1, 0);
    }
    if i > 0 {
        vstd::arithmetic::div_mod::lemma_small_mod((i - 1) as nat, n as nat);
    } else {
        vstd::arithmetic::div_mod::lemma_fundamental_div_mod_converse(-1, n, -1, n - 1);
    }
}

/// A step and then the same step back lead to the selection before, and leave the switcher as it
/// was.
pub proof fn a_step_and_back_change_nothing(s: SwitcherView, delta: i32)
    requires
        s.session is Some,
        is_ring(s.session->0),
        delta != 0,
        delta > i32::MIN,
    ensures
        ({
            let there = after_action(s, action_for(s, Signal::Step(delta)));
            let back = action_for(there, Signal::Step((-delta) as i32));
            &&& back == SwitcherAction::Select(s.session->0.index as usize)
            &&& after_action(there, back) == s
        }),
{
    let n = s.session->0.items.len() as int;
    let i = s.session->0.index;
    steps_move_the_selection(s, delta);
    let there = after_action(s, action_for(s, Signal::Step(delta)));
    steps_move_the_selection(there, (-delta) as i32);
    stepping_back_undoes_a_step(i, delta as int, n);
    assert(after_action(there, SwitcherAction::Select(i as usize)) =~= s);
}

/// Without a session, or by nothing, there is no step.
pub proof fn no_step_is_no_change(s: SwitcherView, delta: i32)
    requires
        s.session is None || delta == 0,
    ensures
        action_for(s, Signal::Step(delta)) is Nothing,
        after_action(s, action_for(s, Signal::Step(delta))) == s,
{
}

/// Releasing the key, seen or missed, ends the session and brings up the selected window;
/// escape ends it and brings up the window that was in the foreground before.
pub proof fn endings_bring_the_right_window_up(s: SwitcherView)
    requires
        s.session is Some,
        is_ring(s.session->0),
        isize::MIN <= s.session->0.items[s.session->0.index].id <= isize::MAX,
    ensures
        ({
            let selected = s.session->0.items[s.session->0.index].id;
            let commit = action_for(s, Signal::Commit(true));
            let missed = action_for(s, Signal::AltDown(false));
            let escape = action_for(s, Signal::Cancel(true));
            &&& commit matches SwitcherAction::Close(Some(w)) && w == selected
            &&& missed == commit
            &&& escape == SwitcherAction::Close(Some(s.session->0.anchor))
            &&& after_action(s, commit).session is None
            &&& after_action(s, escape).session is None
            &&& after_action(s, commit).generation == s.generation
            &&& after_action(s, escape).generation == s.generation
        }),
{
}

/// A key that is down, and keys that were not pressed, change nothing; and without a session no
/// window is brought up.
pub proof fn quiet_signals_change_nothing(s: SwitcherView)
    ensures
        action_for(s, Signal::Commit(false)) is Nothing,
        action_for(s, Signal::Cancel(false)) is Nothing,
        action_for(s, Signal::AltDown(true)) is Nothing,
        after_action(s, SwitcherAction::Nothing) == s,
        s.session is None ==> {
            &&& action_for(s, Signal::AltDown(false)) is Nothing
            &&& action_for(s, Signal::Commit(true)) == SwitcherAction::Close(None)
            &&& action_for(s, Signal::Cancel(true)) == SwitcherAction::Close(None)
        },
{
}

/// The mouse selects a place that the ring has, and no other; a click brings up the window at
/// the place, or the selected one where the ring has no such place.
pub proof fn the_mouse_selects_by_place(s: SwitcherView, index: int)
    requires
        0 <= index,
        s.session is Some,
        is_ring(s.session->0),
        forall|i: int|
            0 <= i < s.session->0.items.len() ==> isize::MIN <= (
            #[trigger] s.session->0.items[i]).id <= isize::MAX,
    ensures
        ({
            let items = s.session->0.items;
            &&& index < items.len() ==> is_moved(s, s.with_index(index), index)
            &&& index >= items.len() ==> s.with_index(index) == s
            &&& s.with_index(index).target() is Some
            &&& index < items.len() ==> s.with_index(index).target()->0 == items[index].id
            &&& index >= items.len() ==> s.with_index(index).target()->0
                == items[s.session->0.index].id
            &&& s.closed().session is None
            &&& s.closed().generation == s.generation
        }),
{
}

/// Without a session the mouse does nothing.
pub proof fn the_mouse_needs_a_ring(s: SwitcherView, index: int)
    requires
        s.session is None,
    ensures
        s.with_index(index) == s,
        s.target() is None,
        s.closed() == s,
{
}

/// A ring that opens where the foreground window is at `pos` holds the windows from there on
/// around, remembers that window, and selects the second place forward or the last in reverse.
/// Where that window is not among them, the ring is the list as it is, with its first place
/// selected.
pub proof fn rings_open_on_the_foreground(
    windows: Seq<ItemView>,
    dir: i32,
    anchor: isize,
    pos: int,
)
    ensures
        ({
            let s = opened(windows, dir, anchor);
            let n = windows.len() as int;
            let first = 0 <= pos < n && windows[pos].id == anchor && forall|j: int|
                0 <= j < pos ==> (#[trigger] windows[j]).id != anchor;
            let absent = forall|j: int| 0 <= j < n ==> (#[trigger] windows[j]).id != anchor;
            &&& s.anchor == anchor
            &&& s.items.len() == n
            &&& first ==> {
                &&& forall|i: int|
                    0 <= i < n ==> #[trigger] s.items[i] == windows[if pos + i < n {
                        pos + i
                    } else {
                        pos + i - n
                    }]
                &&& dir < 0 ==> s.index == n - 1
                &&& dir >= 0 && n >= 2 ==> s.index == 1
                &&& dir >= 0 && n == 1 ==> s.index == 0
            }
            &&& absent ==> s.items == windows && s.index == 0
        }),
{
    let n = windows.len() as int;
    if 0 <= pos < n && windows[pos].id == anchor && forall|j: int|
        0 <= j < pos ==> (#[trigger] windows[j]).id != anchor {
        assert(is_anchor_at(windows, anchor, pos));
        lemma_opened_at(windows, dir, anchor, pos);
    }
    if exists|i: int| is_anchor_at(windows, anchor, i) {
        let i = choose|i: int| is_anchor_at(windows, anchor, i);
        assert(windows[i].id == anchor);
    }
}

/// The place that is selected first: the second forward, where there is one, and the last in
/// reverse.
pub proof fn first_selections(dir: i32, len: int)
    requires
        len >= 1,
    ensures
        0 <= first_selection(dir, len) < len,
        dir >= 0 && len >= 2 ==> first_selection(dir, len) == 1,
        dir < 0 ==> first_selection(dir, len) == len - 1,
{
}

/// The place of a window is its first, and there is one exactly if the window is there.
pub proof fn first_places_are_unique(ids: Seq<i64>, anchor: i64, i: int)
    ensures
        is_first_at(ids, anchor, i) ==> 0 <= i < ids.len() && ids[i] == anchor && !ids.take(
            i,
        ).contains(anchor),
        0 <= i < ids.len() && ids[i] == anchor && !ids.take(i).contains(anchor) ==> is_first_at(
            ids,
            anchor,
            i,
        ),
{
    if 0 <= i < ids.len() && ids[i] == anchor && !ids.take(i).contains(anchor) {
        assert forall|j: int| 0 <= j < i implies ids[j] != anchor by {
            assert(ids.take(i)[j] == ids[j]);
        }
    }
}

/// The ring shows windows as they were enumerated: each under its handle, with its title, its
/// executable and whether it is minimized.
pub proof fn windows_are_shown_as_enumerated(windows: Seq<WindowInfo>, items: Seq<SwitcherItem>, i: int)
    requires
        0 <= i < windows.len(),
        window_views(windows) == item_views(items),
    ensures
        items.len() == windows.len(),
        items[i].id == windows[i].hwnd,
        items[i].title@ == windows[i].title@,
        items[i].exe_path@ == windows[i].exe_path@,
        items[i].minimized == windows[i].minimized,
{
    assert(item_views(items).len() == items.len());
    assert(window_views(windows).len() == windows.len());
    assert(window_views(windows)[i] == windows[i]@);
    assert(item_views(items)[i] == items[i]@);
}

/// The value of a session is what it holds.
pub proof fn sessions_are_seen_as_they_are(s: Session, i: int)
    requires
        0 <= i < s.items.len(),
    ensures
        s@.index == s.index,
        s@.anchor == s.anchor,
        s@.items.len() == s.items.len(),
        s@.items[i].id == s.items[i].id,
{
}

/// The script hands the payload over, unchanged, between its two fixed parts.
pub proof fn scripts_hold_their_payload(json: Seq<char>)
    ensures
        ({
            let head = "window.__switcherPending = "@;
            let tail = "; window.__switcherApply && window.__switcherApply(window.__switcherPending);"@;
            let script = pending_script_text(json);
            &&& script.len() == head.len() + json.len() + tail.len()
            &&& script.take(head.len() as int) == head
            &&& script.subrange(head.len() as int, (head.len() + json.len()) as int) == json
            &&& script.skip((head.len() + json.len()) as int) == tail
        }),
{
    let head = "window.__switcherPending = "@;
    let tail = "; window.__switcherApply && window.__switcherApply(window.__switcherPending);"@;
    let script = pending_script_text(json);
    assert(script.take(head.len() as int) =~= head);
    assert(script.subrange(head.len() as int, (head.len() + json.len()) as int) =~= json);
    assert(script.skip((head.len() + json.len()) as int) =~= tail);
}

/// The value of an item and of a window has their fields, and that of the switcher its session.
pub proof fn items_are_seen_as_they_are(it: SwitcherItem, w: WindowInfo, s: Switcher)
    ensures
        it@.id == it.id,
        it@.title == it.title@,
        it@.exe_path == it.exe_path@,
        it@.minimized == it.minimized,
        w@.id == w.hwnd,
        w@.title == w.title@,
        w@.exe_path == w.exe_path@,
        w@.minimized == w.minimized,
        s@.session is Some <==> s.session is Some,
        s.session is Some ==> s@.session->0 == s.session->0@,
        s@.generation == s.generation,
{
}

} // verus!
