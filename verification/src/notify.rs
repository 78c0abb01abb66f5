//! Encoding of the click messages that go back to the owner of a notify icon.
//!
//! The owner registers a callback message and a protocol version. Version 4 packs the cursor
//! position and the event; the legacy versions send the icon id and the plain mouse message.
//! Where the version is unknown, both forms are sent.

use vstd::prelude::*;

verus! {

/// Version-4 event: the icon was selected.
pub const NIN_SELECT: u32 = 0x0400;

/// Version-4 event: the icon's menu was asked for.
pub const WM_CONTEXTMENU: u32 = 0x007B;

pub const WM_LBUTTONDOWN: u32 = 0x0201;

pub const WM_LBUTTONUP: u32 = 0x0202;

pub const WM_RBUTTONDOWN: u32 = 0x0204;

pub const WM_RBUTTONUP: u32 = 0x0205;

/// A message without meaning, which lets a menu's message loop end.
pub const WM_NULL: u32 = 0x0000;

/// The low sixteen bits of an integer, as an unsigned value.
pub open spec fn low_word(v: int) -> int {
    v % 0x1_0000
}

/// Two words packed into one 32-bit value.
pub open spec fn packed(lo: int, hi: int) -> int {
    lo + 0x1_0000 * hi
}

/// The version-4 message for `event` at a cursor position.
pub open spec fn v4_message(event: u32, x: i32, y: i32, uid: u32) -> (usize, u32) {
    (
        packed(low_word(x as int), low_word(y as int)) as usize,
        packed(low_word(event as int), low_word(uid as int)) as u32,
    )
}

/// The two legacy messages of a click: button down, button up.
pub open spec fn legacy_messages(down: u32, up: u32, uid: u32) -> Seq<(usize, u32)> {
    seq![(uid as usize, down), (uid as usize, up)]
}

/// The messages of a click: the version-4 form for versions 4 and 0, the legacy form for every
/// version but 4.
pub open spec fn click_messages(
    version: u32,
    x: i32,
    y: i32,
    uid: u32,
    event: u32,
    down: u32,
    up: u32,
) -> Seq<(usize, u32)> {
    let v4 = if version == 4 || version == 0 {
        seq![v4_message(event, x, y, uid)]
    } else {
        seq![]
    };
    let legacy = if version != 4 {
        legacy_messages(down, up, uid)
    } else {
        seq![]
    };
    v4 + legacy
}

/// The messages that activate an icon.
pub open spec fn activation(version: u32, x: i32, y: i32, uid: u32) -> Seq<(usize, u32)> {
    click_messages(version, x, y, uid, NIN_SELECT, WM_LBUTTONDOWN, WM_LBUTTONUP)
}

/// The messages that open an icon's menu.
pub open spec fn menu_request(version: u32, x: i32, y: i32, uid: u32) -> Seq<(usize, u32)> {
    click_messages(version, x, y, uid, WM_CONTEXTMENU, WM_RBUTTONDOWN, WM_RBUTTONUP)
}

/// Packs two words into a 32-bit value.
pub fn loword_hiword(lo: u16, hi: u16) -> (v: u32)
    ensures
        v == packed(lo as int, hi as int),
{
    assert((lo as u32) | ((hi as u32) << 16u32) == (lo as u32) + 0x1_0000 * (hi as u32))
        by (bit_vector);
    (lo as u32) | ((hi as u32) << 16u32)
}

fn word_of(v: i32) -> (w: u16)
    ensures
        w == low_word(v as int),
{
    assert(v as u16 == (v as int) % 0x1_0000) by (bit_vector);
    #[verifier::truncate]
    (v as u16)
}

fn word_of_unsigned(v: u32) -> (w: u16)
    ensures
        w == low_word(v as int),
{
    assert(v as u16 == v % 0x1_0000) by (bit_vector);
    #[verifier::truncate]
    (v as u16)
}

fn encode_click(
    version: u32,
    x: i32,
    y: i32,
    uid: u32,
    event: u32,
    down: u32,
    up: u32,
) -> (msgs: Vec<(usize, u32)>)
    ensures
        msgs@ == click_messages(version, x, y, uid, event, down, up),
{
    let mut msgs: Vec<(usize, u32)> = Vec::new();
    if version == 4 || version == 0 {
        let w = loword_hiword(word_of(x), word_of(y)) as usize;
        let l = loword_hiword(word_of_unsigned(event), word_of_unsigned(uid));
        msgs.push((w, l));
    }
    if version != 4 {
        msgs.push((uid as usize, down));
        msgs.push((uid as usize, up));
    }
    msgs
}

/// The (wParam, lParam) pairs to post for a left click.
pub fn activate_messages(version: u32, x: i32, y: i32, uid: u32) -> (msgs: Vec<(usize, u32)>)
    ensures
        msgs@ == activation(version, x, y, uid),
{
    encode_click(version, x, y, uid, NIN_SELECT, WM_LBUTTONDOWN, WM_LBUTTONUP)
}

/// The (wParam, lParam) pairs to post for a right click.
pub fn menu_messages(version: u32, x: i32, y: i32, uid: u32) -> (msgs: Vec<(usize, u32)>)
    ensures
        msgs@ == menu_request(version, x, y, uid),
{
    encode_click(version, x, y, uid, WM_CONTEXTMENU, WM_RBUTTONDOWN, WM_RBUTTONUP)
}

/// One message to post to a window.
#[derive(Clone, Copy, Debug, PartialEq, Eq, Structural)]
pub struct Post {
    pub msg: u32,
    pub wparam: usize,
    pub lparam: isize,
}

/// A 32-bit lParam widened as a signed value.
pub open spec fn sign_extended(v: u32) -> int {
    if v < 0x8000_0000 {
        v as int
    } else {
        v - 0x1_0000_0000
    }
}

/// The posts that deliver messages under a callback number.
pub open spec fn posts_for(callback: u32, msgs: Seq<(usize, u32)>) -> Seq<Post> {
    Seq::new(
        msgs.len(),
        |i: int|
            Post { msg: callback, wparam: msgs[i].0, lparam: sign_extended(msgs[i].1) as isize },
    )
}

/// The signed value of a 32-bit word.
pub fn signed_word(v: u32) -> (s: i32)
    ensures
        s == sign_extended(v),
{
    if v < 0x8000_0000 {
        v as i32
    } else {
        (v as i64 - 0x1_0000_0000) as i32
    }
}

/// Widens a packed lParam to the signed word that a message carries.
pub fn make_lparam(v: u32) -> (l: isize)
    ensures
        l == sign_extended(v),
{
    signed_word(v) as isize
}

/// Addresses encoded clicks to a callback message.
pub fn make_posts(callback: u32, msgs: &Vec<(usize, u32)>) -> (posts: Vec<Post>)
    ensures
        posts@ == posts_for(callback, msgs@),
{
    let mut posts: Vec<Post> = Vec::new();
    let mut i: usize = 0;
    while i < msgs.len()
        invariant
            i <= msgs.len(),
            posts@ =~= posts_for(callback, msgs@).take(i as int),
        decreases msgs.len() - i,
    {
        posts.push(
            Post { msg: callback, wparam: msgs[i].0, lparam: make_lparam(msgs[i].1) },
        );
        i += 1;
    }
    posts
}

/// What a left click leads to.
#[derive(Debug)]
pub enum Activation {
    /// The owner has no callback: bring its window up.
    Focus,
    /// Post these to the owner.
    Send(Vec<Post>),
}

/// The posts of an activation; none where the window is to be brought up instead.
pub type ActivationView = Option<Seq<Post>>;

impl View for Activation {
    type V = ActivationView;

    open spec fn view(&self) -> ActivationView {
        match self {
            Activation::Focus => None,
            Activation::Send(posts) => Some(posts@),
        }
    }
}

/// What a left click leads to, by callback message and version.
pub open spec fn activation_plan(
    callback: u32,
    version: u32,
    x: i32,
    y: i32,
    uid: u32,
) -> ActivationView {
    if callback == 0 {
        None
    } else {
        Some(posts_for(callback, activation(version, x, y, uid)))
    }
}

/// Plans a left click.
pub fn plan_activation(callback: u32, version: u32, x: i32, y: i32, uid: u32) -> (a: Activation)
    ensures
        a@ == activation_plan(callback, version, x, y, uid),
{
    if callback == 0 {
        return Activation::Focus;
    }
    let msgs = activate_messages(version, x, y, uid);
    Activation::Send(make_posts(callback, &msgs))
}

/// The message without meaning that ends a menu request.
pub open spec fn null_post() -> Post {
    Post { msg: WM_NULL, wparam: 0, lparam: 0 }
}

/// What a right click posts, by callback message and version: nothing without a callback, and
/// else the request and the message without meaning.
pub open spec fn menu_plan(callback: u32, version: u32, x: i32, y: i32, uid: u32) -> Seq<Post> {
    if callback == 0 {
        seq![]
    } else {
        posts_for(callback, menu_request(version, x, y, uid)).push(null_post())
    }
}

/// Plans a right click.
pub fn plan_menu(callback: u32, version: u32, x: i32, y: i32, uid: u32) -> (posts: Vec<Post>)
    ensures
        posts@ == menu_plan(callback, version, x, y, uid),
{
    if callback == 0 {
        return Vec::new();
    }
    let msgs = menu_messages(version, x, y, uid);
    let mut posts = make_posts(callback, &msgs);
    posts.push(Post { msg: WM_NULL, wparam: 0, lparam: 0 });
    posts
}

/// Whether the owner's window is to be brought up after posting: none of the posts was taken.
pub fn focus_needed(delivered: &Vec<bool>) -> (r: bool)
    ensures
        r == !delivered@.contains(true),
{
    let mut i: usize = 0;
    while i < delivered.len()
        invariant
            i <= delivered.len(),
            forall|j: int| 0 <= j < i ==> !#[trigger] delivered@[j],
        decreases delivered.len() - i,
    {
        if delivered[i] {
            assert(delivered@[i as int] == true);
            return false;
        }
        i += 1;
    }
    true
}

// ---------------------------------------------------------------- laws

/// An unknown version sends what version 4 sends, and then what a legacy version sends.
pub proof fn unknown_version_sends_both(x: i32, y: i32, uid: u32, legacy: u32)
    requires
        legacy != 0,
        legacy != 4,
    ensures
        activation(0, x, y, uid) == activation(4, x, y, uid) + activation(legacy, x, y, uid),
        menu_request(0, x, y, uid) == menu_request(4, x, y, uid) + menu_request(legacy, x, y, uid),
{
}

/// No version-4 lParam is one of the legacy mouse messages, so a handler of either protocol
/// recognises only its own form.
pub proof fn encodings_are_disjoint(x: i32, y: i32, uid: u32)
    ensures
        ({
            let select = v4_message(NIN_SELECT, x, y, uid).1;
            let menu = v4_message(WM_CONTEXTMENU, x, y, uid).1;
            &&& select != WM_LBUTTONDOWN && select != WM_LBUTTONUP
            &&& select != WM_RBUTTONDOWN && select != WM_RBUTTONUP
            &&& menu != WM_LBUTTONDOWN && menu != WM_LBUTTONUP
            &&& menu != WM_RBUTTONDOWN && menu != WM_RBUTTONUP
        }),
{
}

/// The low word of a version-4 lParam is the event, and the high word is the low word of the
/// icon id.
pub proof fn v4_lparam_unpacks(event: u32, x: i32, y: i32, uid: u32)
    ensures
        ({
            let l = v4_message(event, x, y, uid).1;
            &&& l % 0x1_0000 == low_word(event as int)
            &&& l / 0x1_0000 == low_word(uid as int)
        }),
{
}

/// The post packs a cursor position, an event and an id, each cut to sixteen bits, as version 4
/// has it: the position in wParam, the event and the id in lParam.
pub open spec fn is_packed(p: Post, event: int, x: i32, y: i32, uid: u32) -> bool {
    &&& p.wparam as int % 0x1_0000 == x as int % 0x1_0000
    &&& p.wparam as int / 0x1_0000 == y as int % 0x1_0000
    &&& p.lparam as int % 0x1_0000 == event
    &&& p.lparam as int / 0x1_0000 % 0x1_0000 == uid as int % 0x1_0000
    &&& -0x8000_0000 <= p.lparam < 0x8000_0000
}

/// The post is a plain mouse message for an icon.
pub open spec fn is_plain(p: Post, mouse: int, uid: u32) -> bool {
    p.wparam == uid && p.lparam == mouse
}

proof fn lemma_packed_post(callback: u32, event: u32, x: i32, y: i32, uid: u32)
    requires
        event < 0x1_0000,
    ensures
        is_packed(
            Post {
                msg: callback,
                wparam: v4_message(event, x, y, uid).0,
                lparam: sign_extended(v4_message(event, x, y, uid).1) as isize,
            },
            event as int,
            x,
            y,
            uid,
        ),
{
}

/// A left click on an icon goes to the callback of its owner, in the form of its version: one
/// packed selection for version 4, the button down and up for a legacy version, and all three
/// where the version is unknown.
pub proof fn left_clicks_are_sent(callback: u32, version: u32, x: i32, y: i32, uid: u32)
    requires
        callback != 0,
    ensures
        activation_plan(callback, version, x, y, uid) is Some,
        ({
            let posts = activation_plan(callback, version, x, y, uid)->0;
            let n = posts.len() as int;
            &&& forall|i: int| 0 <= i < n ==> (#[trigger] posts[i]).msg == callback
            &&& version == 4 ==> n == 1
            &&& version == 0 ==> n == 3
            &&& version != 4 && version != 0 ==> n == 2
            &&& version == 4 || version == 0 ==> is_packed(posts[0], 0x0400, x, y, uid)
            &&& version != 4 ==> is_plain(posts[n - 2], 0x0201, uid) && is_plain(
                posts[n - 1],
                0x0202,
                uid,
            )
        }),
{
    lemma_packed_post(callback, NIN_SELECT, x, y, uid);
}

/// A right click goes the same way, as a request for the menu or the right button down and up,
/// and a message without meaning comes last.
pub proof fn right_clicks_are_sent(callback: u32, version: u32, x: i32, y: i32, uid: u32)
    requires
        callback != 0,
    ensures
        ({
            let posts = menu_plan(callback, version, x, y, uid);
            let n = posts.len() - 1;
            &&& posts[n] == (Post { msg: 0, wparam: 0, lparam: 0 })
            &&& forall|i: int| 0 <= i < n ==> (#[trigger] posts[i]).msg == callback
            &&& version == 4 ==> n == 1
            &&& version == 0 ==> n == 3
            &&& version != 4 && version != 0 ==> n == 2
            &&& version == 4 || version == 0 ==> is_packed(posts[0], 0x007B, x, y, uid)
            &&& version != 4 ==> is_plain(posts[n - 2], 0x0204, uid) && is_plain(
                posts[n - 1],
                0x0205,
                uid,
            )
        }),
{
    lemma_packed_post(callback, WM_CONTEXTMENU, x, y, uid);
}

/// Without a callback nothing is posted: a left click brings the window up instead.
pub proof fn nothing_is_sent_without_a_callback(version: u32, x: i32, y: i32, uid: u32)
    ensures
        activation_plan(0, version, x, y, uid) is None,
        menu_plan(0, version, x, y, uid).len() == 0,
{
}

/// Messages are posted one for one, under the callback: wParam as it is, lParam with the same 32
/// bits as a signed word.
pub proof fn posts_carry_their_messages(callback: u32, msgs: Seq<(usize, u32)>, i: int)
    requires
        0 <= i < msgs.len(),
    ensures
        ({
            let p = posts_for(callback, msgs)[i];
            &&& posts_for(callback, msgs).len() == msgs.len()
            &&& p.msg == callback
            &&& p.wparam == msgs[i].0
            &&& (p.lparam - msgs[i].1) % 0x1_0000_0000 == 0
            &&& -0x8000_0000 <= p.lparam < 0x8000_0000
        }),
{
}

/// Two words come out of a packed value as they went in.
pub proof fn packed_words_come_apart(lo: u16, hi: u16)
    ensures
        packed(lo as int, hi as int) % 0x1_0000 == lo,
        packed(lo as int, hi as int) / 0x1_0000 == hi,
{
}

/// The messages of a click, before they are addressed: those of the version.
pub proof fn clicks_follow_their_version(version: u32, x: i32, y: i32, uid: u32)
    ensures
        activation(version, x, y, uid).len() == menu_request(version, x, y, uid).len(),
        version == 4 || version == 0 ==> {
            let select = activation(version, x, y, uid)[0];
            let menu = menu_request(version, x, y, uid)[0];
            &&& select.0 == menu.0
            &&& select.0 as int % 0x1_0000 == x as int % 0x1_0000
            &&& select.0 as int / 0x1_0000 == y as int % 0x1_0000
            &&& select.1 as int % 0x1_0000 == 0x0400
            &&& menu.1 as int % 0x1_0000 == 0x007B
            &&& select.1 as int / 0x1_0000 == uid as int % 0x1_0000
            &&& menu.1 as int / 0x1_0000 == uid as int % 0x1_0000
        },
        version != 4 ==> {
            let n = activation(version, x, y, uid).len() as int;
            &&& n == if version == 0 {
                3int
            } else {
                2int
            }
            &&& activation(version, x, y, uid)[n - 2] == (uid as usize, 0x0201u32)
            &&& activation(version, x, y, uid)[n - 1] == (uid as usize, 0x0202u32)
            &&& menu_request(version, x, y, uid)[n - 2] == (uid as usize, 0x0204u32)
            &&& menu_request(version, x, y, uid)[n - 1] == (uid as usize, 0x0205u32)
        },
        version == 4 ==> activation(version, x, y, uid).len() == 1,
{
}

/// A click that is sent is seen as its posts, and one that only brings the owner up as none.
pub proof fn activations_are_seen_as_they_are(a: Activation)
    ensures
        a is Focus <==> a@ is None,
        a matches Activation::Send(posts) ==> a@ is Some && a@->0 == posts@,
{
}

} // verus!
