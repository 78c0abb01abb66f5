//! Window thumbnails: from a window's rectangle and the pixels painted for it to a PNG data URL.
//!
//! The caller makes the system calls one after another, as [`capture_step`] tells it to, and
//! hands the copied pixels to [`window_thumbnail_data_url`].
use crate::scale;
use base64::Engine;
use vstd::prelude::*;

verus! {

// ---------------------------------------------------------------- sizes

/// The larger of two numbers.
pub open spec fn larger(a: u32, b: u32) -> u32 {
    if a >= b {
        a
    } else {
        b
    }
}

/// A side of a thumbnail: the side scaled by `max_px / longest`, and at least one pixel.
pub open spec fn fitted_side(side: u32, longest: u32, max_px: u32) -> u32 {
    larger(scale::scaled(side as nat, max_px as nat, longest as nat) as u32, 1)
}

/// The size of a thumbnail: that of the window where its longest side is no longer than `max_px`,
/// else the one scaled down to it.
pub open spec fn fitted(w: u32, h: u32, max_px: u32) -> (u32, u32) {
    let longest = larger(w, h);
    if longest <= max_px {
        (larger(w, 1), larger(h, 1))
    } else {
        (fitted_side(w, longest, max_px), fitted_side(h, longest, max_px))
    }
}

fn max_of(a: u32, b: u32) -> (m: u32)
    ensures
        m == larger(a, b),
{
    if a >= b {
        a
    } else {
        b
    }
}

/// Scales a size so that its longest side is `max_px`; it never grows.
pub fn fit(w: u32, h: u32, max_px: u32) -> (r: (u32, u32))
    ensures
        r == fitted(w, h, max_px),
        1 <= max_px < larger(w, h) ==> larger(r.0, r.1) == max_px,
        max_px < larger(w, h) < 0x200_0000 ==> {
            &&& in_proportion(r.0, w, larger(w, h), max_px)
            &&& in_proportion(r.1, h, larger(w, h), max_px)
        },
{
    let longest: u32 = max_of(w, h);
    proof {
        if 1 <= max_px < longest {
            longest_side_becomes_the_limit(w, h, max_px);
        }
        if max_px < longest < 0x200_0000 {
            thumbnails_keep_proportions(w, h, max_px);
        }
    }
    if longest <= max_px {
        return (max_of(w, 1), max_of(h, 1));
    }
    let tw: u32 = scale::scale(w, max_px, longest);
    let th: u32 = scale::scale(h, max_px, longest);
    (max_of(tw, 1), max_of(th, 1))
}

/// A longest side that is too long becomes exactly `max_px`.
pub proof fn longest_side_becomes_the_limit(w: u32, h: u32, max_px: u32)
    requires
        1 <= max_px < larger(w, h),
    ensures
        w >= h ==> fitted(w, h, max_px).0 == max_px,
        h >= w ==> fitted(w, h, max_px).1 == max_px,
        larger(fitted(w, h, max_px).0, fitted(w, h, max_px).1) == max_px,
{
    let longest = larger(w, h);
    scale::whole_scales_to_the_part(max_px as nat, longest as nat);
    scale::scaling_down_never_lengthens(w as nat, max_px as nat, longest as nat);
    scale::scaling_down_never_lengthens(h as nat, max_px as nat, longest as nat);
}

/// A window that fits keeps its size.
pub proof fn small_windows_keep_their_size(w: u32, h: u32, max_px: u32)
    requires
        1 <= w <= max_px,
        1 <= h <= max_px,
    ensures
        fitted(w, h, max_px) == (w, h),
{
}

/// No side of a thumbnail is longer than that of its window, none is longer than `max_px`, and
/// none vanishes.
pub proof fn thumbnails_never_grow(w: u32, h: u32, max_px: u32)
    requires
        1 <= w,
        1 <= h,
    ensures
        ({
            let (tw, th) = fitted(w, h, max_px);
            &&& 1 <= tw <= w
            &&& 1 <= th <= h
            &&& max_px >= 1 ==> tw <= max_px && th <= max_px
        }),
{
    let longest = larger(w, h);
    if longest > max_px {
        scale::scaling_down_never_lengthens(w as nat, max_px as nat, longest as nat);
        scale::scaling_down_never_lengthens(h as nat, max_px as nat, longest as nat);
    }
}

/// `side` is an integer nearest to `window_side * max_px / longest`, or the one pixel that is left
/// where that would vanish.
pub open spec fn in_proportion(side: u32, window_side: u32, longest: u32, max_px: u32) -> bool {
    ||| side == 1 && 2 * window_side * max_px <= longest
    ||| {
        &&& 2 * (side * longest) <= 2 * (window_side * max_px) + longest
        &&& 2 * (window_side * max_px) <= 2 * (side * longest) + longest
    }
}

/// A thumbnail keeps the proportions of its window up to half a pixel (for windows of up to 25
/// bits a side).
pub proof fn thumbnails_keep_proportions(w: u32, h: u32, max_px: u32)
    requires
        max_px < larger(w, h) < 0x200_0000,
    ensures
        in_proportion(fitted(w, h, max_px).0, w, larger(w, h), max_px),
        in_proportion(fitted(w, h, max_px).1, h, larger(w, h), max_px),
{
    lemma_side_in_proportion(w, larger(w, h), max_px);
    lemma_side_in_proportion(h, larger(w, h), max_px);
}

proof fn lemma_side_in_proportion(side: u32, longest: u32, max_px: u32)
    requires
        max_px < longest < 0x200_0000,
        side <= longest,
    ensures
        in_proportion(fitted_side(side, longest, max_px), side, longest, max_px),
{
    let s = scale::scaled(side as nat, max_px as nat, longest as nat);
    scale::scaling_is_nearest(side as nat, max_px as nat, longest as nat);
    scale::scaling_down_never_lengthens(side as nat, max_px as nat, longest as nat);
    assert(2 * side * max_px == 2 * (side * max_px)) by (nonlinear_arith);
    if s == 0 {
        assert(s * longest == 0) by (nonlinear_arith)
            requires
                s == 0,
        ;
    }
}

// ---------------------------------------------------------------- taking the picture

/// A window's rectangle on the screen.
#[derive(Clone, Copy, Debug, PartialEq, Eq, Structural)]
pub struct WindowRect {
    pub left: i32,
    pub top: i32,
    pub right: i32,
    pub bottom: i32,
}

/// The handles that a capture has acquired and not released.
#[derive(Clone, Copy, Debug, PartialEq, Eq, Structural)]
pub struct Held {
    pub screen_dc: bool,
    pub mem_dc: bool,
    pub dib: bool,
}

/// A capture in progress.
#[derive(Clone, Copy, Debug, PartialEq, Eq, Structural)]
pub struct CaptureRun {
    pub width: u32,
    pub height: u32,
    pub held: Held,
}

/// What happened during a capture.
#[derive(Debug)]
pub enum CaptureEvent {
    /// Whether the window is minimized.
    Iconic(bool),
    /// The window's rectangle, or why it could not be had.
    Rect(Result<WindowRect, String>),
    /// A device context of the screen was asked for.
    ScreenDc { valid: bool },
    /// A device context in memory was asked for.
    MemDc { valid: bool },
    /// A bitmap was asked for.
    Dib(Result<Dib, String>),
    /// The window was asked to paint itself, and the bitmap's bytes were copied.
    Painted { ok: bool },
}

/// A bitmap as it came back.
#[derive(Clone, Copy, Debug, PartialEq, Eq, Structural)]
pub struct Dib {
    pub handle_valid: bool,
    pub bits_valid: bool,
}

/// What to do next.
#[derive(Debug)]
pub enum CaptureAction {
    QueryRect,
    GetScreenDc,
    CreateMemDc,
    /// Create a top-down bitmap of 32 bits a pixel.
    CreateDib { width: u32, height: u32 },
    /// Have the window paint itself into the bitmap and copy that many bytes out of it.
    Paint { len: u32 },
    /// Release what is held; the bytes that were copied are the picture, or there is none.
    Finish(Result<(), String>),
}

/// The value of a `CaptureAction`.
#[verifier::ext_equal]
pub enum CaptureActionView {
    QueryRect,
    GetScreenDc,
    CreateMemDc,
    CreateDib { width: u32, height: u32 },
    Paint { len: u32 },
    Finish(Result<(), Seq<char>>),
}

impl View for CaptureAction {
    type V = CaptureActionView;

    open spec fn view(&self) -> CaptureActionView {
        match self {
            CaptureAction::QueryRect => CaptureActionView::QueryRect,
            CaptureAction::GetScreenDc => CaptureActionView::GetScreenDc,
            CaptureAction::CreateMemDc => CaptureActionView::CreateMemDc,
            CaptureAction::CreateDib { width, height } => CaptureActionView::CreateDib {
                width: *width,
                height: *height,
            },
            CaptureAction::Paint { len } => CaptureActionView::Paint { len: *len },
            CaptureAction::Finish(r) => CaptureActionView::Finish(
                match *r {
                    Ok(_) => Ok(()),
                    Err(e) => Err(e@),
                },
            ),
        }
    }
}

/// The length from one edge to another, in 32-bit arithmetic that wraps around; none where the
/// edges are the wrong way round.
pub open spec fn span(low: i32, high: i32) -> u32 {
    let d = high - low;
    let wrapped = if d > i32::MAX {
        d - 0x1_0000_0000
    } else if d < i32::MIN {
        d + 0x1_0000_0000
    } else {
        d
    };
    if wrapped > 0 {
        wrapped as u32
    } else {
        0
    }
}

/// How many bytes a bitmap has, in 32-bit arithmetic that wraps around.
pub open spec fn dib_len(w: u32, h: u32) -> u32 {
    ((w * h * 4) % 0x1_0000_0000) as u32
}

/// What a capture knows and holds after an event.
pub open spec fn capture_after(run: CaptureRun, event: CaptureEvent) -> CaptureRun {
    match event {
        CaptureEvent::Rect(Ok(r)) => CaptureRun {
            width: span(r.left, r.right),
            height: span(r.top, r.bottom),
            ..run
        },
        CaptureEvent::ScreenDc { valid: true } => CaptureRun {
            held: Held { screen_dc: true, ..run.held },
            ..run
        },
        CaptureEvent::MemDc { valid: true } => CaptureRun {
            held: Held { mem_dc: true, ..run.held },
            ..run
        },
        CaptureEvent::Dib(Ok(Dib { handle_valid: true, .. })) => CaptureRun {
            held: Held { dib: true, ..run.held },
            ..run
        },
        _ => run,
    }
}

/// What follows from an event, for a capture that has taken note of it.
pub open spec fn capture_next(run: CaptureRun, event: CaptureEvent) -> CaptureActionView {
    match event {
        CaptureEvent::Iconic(true) => CaptureActionView::Finish(Err("minimized"@)),
        CaptureEvent::Iconic(false) => CaptureActionView::QueryRect,
        CaptureEvent::Rect(Err(e)) => CaptureActionView::Finish(Err(e@)),
        CaptureEvent::Rect(Ok(_)) => if run.width == 0 || run.height == 0 {
            CaptureActionView::Finish(Err("zero-size window"@))
        } else {
            CaptureActionView::GetScreenDc
        },
        CaptureEvent::ScreenDc { valid } => if valid {
            CaptureActionView::CreateMemDc
        } else {
            CaptureActionView::Finish(Err("GetDC failed"@))
        },
        CaptureEvent::MemDc { valid } => if valid {
            CaptureActionView::CreateDib { width: run.width, height: run.height }
        } else {
            CaptureActionView::Finish(Err("CreateCompatibleDC failed"@))
        },
        CaptureEvent::Dib(Err(e)) => CaptureActionView::Finish(Err(e@)),
        CaptureEvent::Dib(Ok(dib)) => if dib.handle_valid && dib.bits_valid {
            CaptureActionView::Paint { len: dib_len(run.width, run.height) }
        } else {
            CaptureActionView::Finish(Err("CreateDIBSection failed"@))
        },
        CaptureEvent::Painted { ok } => if ok {
            CaptureActionView::Finish(Ok(()))
        } else {
            CaptureActionView::Finish(Err("PrintWindow returned false"@))
        },
    }
}

impl CaptureRun {
    /// A capture that has not begun. Its first step is to see whether the window is minimized.
    pub fn new() -> (run: CaptureRun)
        ensures
            run.width == 0,
            run.height == 0,
            !run.held.screen_dc,
            !run.held.mem_dc,
            !run.held.dib,
    {
        CaptureRun {
            width: 0,
            height: 0,
            held: Held { screen_dc: false, mem_dc: false, dib: false },
        }
    }
}

fn edge_span(low: i32, high: i32) -> (r: u32)
    ensures
        r == span(low, high),
{
    let d: i64 = high as i64 - low as i64;
    let wrapped: i64 = if d > 0x7fff_ffff {
        d - 0x1_0000_0000
    } else if d < -0x8000_0000 {
        d + 0x1_0000_0000
    } else {
        d
    };
    if wrapped > 0 {
        wrapped as u32
    } else {
        0
    }
}

fn dib_bytes(w: u32, h: u32) -> (len: u32)
    ensures
        len == dib_len(w, h),
{
    assert(w * h <= 0xffff_ffff * 0xffff_ffff) by (nonlinear_arith)
        requires
            w <= 0xffff_ffff,
            h <= 0xffff_ffff,
    ;
    ((w as u128 * h as u128 * 4) % 0x1_0000_0000) as u32
}

fn give_up(why: &str) -> (a: CaptureAction)
    ensures
        a@ == CaptureActionView::Finish(Err(why@)),
{
    CaptureAction::Finish(Err(why.to_owned()))
}

/// One step of a capture. The first event is `CaptureEvent::Iconic`.
pub fn capture_step(run: &mut CaptureRun, event: CaptureEvent) -> (a: CaptureAction)
    ensures
        *final(run) == capture_after(*old(run), event),
        a@ == capture_next(*final(run), event),
{
    match event {
        CaptureEvent::Iconic(iconic) => if iconic {
            give_up("minimized")
        } else {
            CaptureAction::QueryRect
        },
        CaptureEvent::Rect(rect) => match rect {
            Err(e) => CaptureAction::Finish(Err(e)),
            Ok(r) => {
                run.width = edge_span(r.left, r.right);
                run.height = edge_span(r.top, r.bottom);
                if run.width == 0 || run.height == 0 {
                    give_up("zero-size window")
                } else {
                    CaptureAction::GetScreenDc
                }
            },
        },
        CaptureEvent::ScreenDc { valid } => if valid {
            run.held.screen_dc = true;
            CaptureAction::CreateMemDc
        } else {
            give_up("GetDC failed")
        },
        CaptureEvent::MemDc { valid } => if valid {
            run.held.mem_dc = true;
            CaptureAction::CreateDib { width: run.width, height: run.height }
        } else {
            give_up("CreateCompatibleDC failed")
        },
        CaptureEvent::Dib(dib) => match dib {
            Err(e) => CaptureAction::Finish(Err(e)),
            Ok(d) => {
                if d.handle_valid {
                    run.held.dib = true;
                }
                if d.handle_valid && d.bits_valid {
                    CaptureAction::Paint { len: dib_bytes(run.width, run.height) }
                } else {
                    give_up("CreateDIBSection failed")
                }
            },
        },
        CaptureEvent::Painted { ok } => if ok {
            CaptureAction::Finish(Ok(()))
        } else {
            give_up("PrintWindow returned false")
        },
    }
}

/// A capture after all of `events`.
pub open spec fn capture_after_all(run: CaptureRun, events: Seq<CaptureEvent>) -> CaptureRun
    decreases events.len(),
{
    if events.len() == 0 {
        run
    } else {
        capture_after(capture_after_all(run, events.drop_last()), events.last())
    }
}

/// The event hands over a bitmap handle.
pub open spec fn gives_dib(event: CaptureEvent) -> bool {
    event matches CaptureEvent::Dib(Ok(dib)) && dib.handle_valid
}

/// Whenever a capture ends, it holds every handle that it acquired, and no other: nothing leaks,
/// and nothing is released that was not acquired.
pub proof fn acquired_handles_are_held(run: CaptureRun, events: Seq<CaptureEvent>)
    requires
        run.held == (Held { screen_dc: false, mem_dc: false, dib: false }),
    ensures
        ({
            let held = capture_after_all(run, events).held;
            &&& held.screen_dc <==> exists|i: int|
                0 <= i < events.len() && #[trigger] events[i] == (CaptureEvent::ScreenDc {
                    valid: true,
                })
            &&& held.mem_dc <==> exists|i: int|
                0 <= i < events.len() && #[trigger] events[i] == (CaptureEvent::MemDc {
                    valid: true,
                })
            &&& held.dib <==> exists|i: int| 0 <= i < events.len() && gives_dib(#[trigger] events[i])
        }),
    decreases events.len(),
{
    if events.len() > 0 {
        let before = events.drop_last();
        acquired_handles_are_held(run, before);
        assert forall|i: int| 0 <= i < before.len() implies before[i] == #[trigger] events[i] by {}
        assert(events.last() == events[events.len() - 1]);
        let held = capture_after_all(run, before).held;
        if held.screen_dc {
            let i = choose|i: int|
                0 <= i < before.len() && #[trigger] before[i] == (CaptureEvent::ScreenDc {
                    valid: true,
                });
            assert(events[i] == before[i]);
        }
        if held.mem_dc {
            let i = choose|i: int|
                0 <= i < before.len() && #[trigger] before[i] == (CaptureEvent::MemDc {
                    valid: true,
                });
            assert(events[i] == before[i]);
        }
        if held.dib {
            let i = choose|i: int| 0 <= i < before.len() && gives_dib(#[trigger] before[i]);
            assert(events[i] == before[i]);
        }
    }
}

// ---------------------------------------------------------------- pixels

/// How many bytes belong to whole pixels.
pub open spec fn whole_pixels(len: nat) -> nat {
    4 * (len / 4)
}

/// The bytes with the first and the third byte of each pixel exchanged.
pub open spec fn exchanged(bytes: Seq<u8>) -> Seq<u8> {
    Seq::new(
        bytes.len(),
        |i: int|
            if i >= whole_pixels(bytes.len()) {
                bytes[i]
            } else if i % 4 == 0 {
                bytes[i + 2]
            } else if i % 4 == 2 {
                bytes[i - 2]
            } else {
                bytes[i]
            },
    )
}

/// The bytes with the fourth byte of each pixel at its largest.
pub open spec fn opaque_pixels(bytes: Seq<u8>) -> Seq<u8> {
    Seq::new(
        bytes.len(),
        |i: int|
            if i < whole_pixels(bytes.len()) && i % 4 == 3 {
                255u8
            } else {
                bytes[i]
            },
    )
}

/// No pixel has any colour.
pub open spec fn blank(bytes: Seq<u8>) -> bool {
    forall|i: int|
        0 <= i < whole_pixels(bytes.len()) && i % 4 != 3 ==> #[trigger] bytes[i] == 0
}

proof fn lemma_exchanged_pixel(bytes: Seq<u8>, i: int)
    requires
        0 <= i,
        i % 4 == 0,
        i + 4 <= bytes.len(),
    ensures
        exchanged(bytes)[i] == bytes[i + 2],
        exchanged(bytes)[i + 1] == bytes[i + 1],
        exchanged(bytes)[i + 2] == bytes[i],
        exchanged(bytes)[i + 3] == bytes[i + 3],
{
}

proof fn lemma_exchanged_rest(bytes: Seq<u8>, i: int)
    requires
        0 <= i <= bytes.len() < i + 4,
        i % 4 == 0,
    ensures
        exchanged(bytes).skip(i) == bytes.skip(i),
{
    assert(whole_pixels(bytes.len()) == i);
    assert(exchanged(bytes).skip(i) =~= bytes.skip(i));
}

/// Turns pixels of blue, green, red into pixels of red, green, blue.
#[verifier::spinoff_prover]
pub fn bgra_to_rgba(bytes: &mut Vec<u8>)
    ensures
        final(bytes)@ == exchanged(old(bytes)@),
{
    let ghost before = bytes@;
    let len: usize = bytes.len();
    let mut i: usize = 0;
    while len - i >= 4
        invariant
            i <= len,
            i % 4 == 0,
            len == before.len(),
            bytes@.len() == len,
            bytes@ == exchanged(before).take(i as int) + before.skip(i as int),
        decreases len - i,
    {
        let blue: u8 = bytes[i];
        let red: u8 = bytes[i + 2];
        bytes.set(i, red);
        bytes.set(i + 2, blue);
        proof {
            lemma_exchanged_pixel(before, i as int);
            assert(bytes@ =~= exchanged(before).take(i + 4) + before.skip(i + 4));
        }
        i += 4;
    }
    proof {
        lemma_exchanged_rest(before, i as int);
        assert(exchanged(before).take(i as int) + exchanged(before).skip(i as int)
            =~= exchanged(before));
    }
}

/// Makes every pixel opaque.
pub fn make_opaque(bytes: &mut Vec<u8>)
    ensures
        final(bytes)@ == opaque_pixels(old(bytes)@),
{
    let ghost before = bytes@;
    let len: usize = bytes.len();
    let mut i: usize = 0;
    while len - i >= 4
        invariant
            i <= len,
            i % 4 == 0,
            len == before.len(),
            bytes@.len() == len,
            forall|j: int|
                0 <= j < len ==> #[trigger] bytes@[j] == (if j < i {
                    opaque_pixels(before)[j]
                } else {
                    before[j]
                }),
        decreases len - i,
    {
        bytes.set(i + 3, 255);
        i += 4;
    }
    assert(bytes@ =~= opaque_pixels(before));
}

/// Whether no pixel has any colour.
pub fn is_blank(bytes: &Vec<u8>) -> (r: bool)
    ensures
        r == blank(bytes@),
{
    let len: usize = bytes.len();
    let mut i: usize = 0;
    while len - i >= 4
        invariant
            i <= len,
            i % 4 == 0,
            len == bytes@.len(),
            forall|j: int| 0 <= j < i && j % 4 != 3 ==> #[trigger] bytes@[j] == 0,
        decreases len - i,
    {
        if bytes[i] != 0 || bytes[i + 1] != 0 || bytes[i + 2] != 0 {
            return false;
        }
        i += 4;
    }
    true
}

/// Exchanging red and blue twice changes nothing.
pub proof fn exchange_undoes_itself(bytes: Seq<u8>)
    ensures
        exchanged(exchanged(bytes)) == bytes,
{
    assert(exchanged(exchanged(bytes)) =~= bytes);
}

/// Whether a picture is blank depends neither on the order of its colours nor on its
/// transparency.
pub proof fn blankness_is_about_colour(bytes: Seq<u8>)
    ensures
        blank(exchanged(bytes)) == blank(bytes),
        blank(opaque_pixels(bytes)) == blank(bytes),
{
    let turned = exchanged(bytes);
    let opaque = opaque_pixels(bytes);
    assert forall|k: int| 0 <= k < bytes.len() as int / 4 implies #[trigger] has_colour(bytes, k)
        == has_colour(turned, k) by {
        colours_change_places(bytes, k);
    }
    assert forall|k: int| 0 <= k < bytes.len() as int / 4 implies #[trigger] has_colour(bytes, k)
        == has_colour(opaque, k) by {
        opaque_pixels_keep_their_colours(bytes, k);
    }
    lemma_blank_alike(bytes, turned);
    lemma_blank_alike(bytes, opaque);
}

proof fn lemma_blank_alike(a: Seq<u8>, b: Seq<u8>)
    requires
        a.len() == b.len(),
        forall|k: int|
            0 <= k < a.len() as int / 4 ==> #[trigger] has_colour(a, k) == has_colour(b, k),
    ensures
        blank(a) == blank(b),
{
    blank_pictures_have_no_colour(a);
    blank_pictures_have_no_colour(b);
    if blank(a) {
        assert forall|k: int| 0 <= k < b.len() as int / 4 implies !#[trigger] has_colour(b, k) by {
            assert(has_colour(a, k) == has_colour(b, k));
        }
    }
    if blank(b) {
        assert forall|k: int| 0 <= k < a.len() as int / 4 implies !#[trigger] has_colour(a, k) by {}
    }
}

// ---------------------------------------------------------------- text

/// The character that stands for six bits.
pub open spec fn base64_symbol(bits: int) -> char {
    if bits < 26 {
        ('A' as int + bits) as char
    } else if bits < 52 {
        ('a' as int + bits - 26) as char
    } else if bits < 62 {
        ('0' as int + bits - 52) as char
    } else if bits == 62 {
        '+'
    } else {
        '/'
    }
}

/// Bytes as base64 text: four characters for each three bytes, padded at the end.
pub open spec fn base64_text(bytes: Seq<u8>) -> Seq<char>
    decreases bytes.len(),
{
    if bytes.len() == 0 {
        Seq::empty()
    } else {
        let b0 = bytes[0] as int;
        let b1 = if bytes.len() > 1 {
            bytes[1] as int
        } else {
            0
        };
        let b2 = if bytes.len() > 2 {
            bytes[2] as int
        } else {
            0
        };
        let group = seq![
            base64_symbol(b0 / 4),
            base64_symbol((b0 % 4) * 16 + b1 / 16),
            if bytes.len() > 1 {
                base64_symbol((b1 % 16) * 4 + b2 / 64)
            } else {
                '='
            },
            if bytes.len() > 2 {
                base64_symbol(b2 % 64)
            } else {
                '='
            },
        ];
        if bytes.len() > 3 {
            group + base64_text(bytes.skip(3))
        } else {
            group
        }
    }
}

/// So many bytes have a base64 text that memory can hold.
pub open spec fn base64_fits(len: nat) -> bool {
    (len + 2) / 3 * 4 <= isize::MAX
}

/// Calls `Engine::encode` of base64's `STANDARD` engine: the standard alphabet, with padding.
/// The text is the one that RFC 4648 gives.
#[verifier::external_body]
fn encode_base64(bytes: &Vec<u8>) -> (text: String)
    requires
        base64_fits(bytes@.len()),
    ensures
        text@ == base64_text(bytes@),
{
    base64::engine::general_purpose::STANDARD.encode(bytes)
}

/// The data URL of a PNG file.
pub open spec fn png_url(png: Seq<u8>) -> Seq<char> {
    "data:image/png;base64,"@ + base64_text(png)
}

/// Writes the data URL of a PNG file.
pub fn data_url(png: &Vec<u8>) -> (url: String)
    requires
        base64_fits(png@.len()),
    ensures
        url@ == png_url(png@),
{
    let mut url = "data:image/png;base64,".to_owned();
    let text = encode_base64(png);
    url.append(text.as_str());
    url
}

/// A base64 text has four characters for every three bytes, begun ones included.
pub proof fn base64_length(bytes: Seq<u8>)
    ensures
        base64_text(bytes).len() == (bytes.len() + 2) / 3 * 4,
    decreases bytes.len(),
{
    if bytes.len() > 3 {
        base64_length(bytes.skip(3));
    }
}

// ---------------------------------------------------------------- thumbnails

/// A window's picture: its size, and its pixels as blue, green, red and a byte without meaning.
#[derive(Debug)]
pub struct Capture {
    pub width: u32,
    pub height: u32,
    pub bgra: Vec<u8>,
}

/// The value of a `Capture`.
#[verifier::ext_equal]
pub struct CaptureView {
    pub width: u32,
    pub height: u32,
    pub bgra: Seq<u8>,
}

impl View for Capture {
    type V = CaptureView;

    open spec fn view(&self) -> CaptureView {
        CaptureView { width: self.width, height: self.height, bgra: self.bgra@ }
    }
}

/// The value of bytes or an error text.
pub open spec fn bytes_result(r: Result<Vec<u8>, String>) -> Result<Seq<u8>, Seq<char>> {
    match r {
        Ok(bytes) => Ok(bytes@),
        Err(e) => Err(e@),
    }
}

/// Names the pixels that `image::imageops::resize` gives, with the triangle filter, for an image
/// of `w` by `h` pixels made from `rgba`, at the size `tw` by `th`.
pub uninterp spec fn resized(rgba: Seq<u8>, w: u32, h: u32, tw: u32, th: u32) -> Seq<u8>;

/// Names the PNG file, or the error text, that the image crate's PNG encoder gives for `w` by `h`
/// pixels.
pub uninterp spec fn png_file(rgba: Seq<u8>, w: u32, h: u32) -> Result<Seq<u8>, Seq<char>>;

/// Makes an image with `RgbaImage::from_raw`, which refuses bytes that are too few, and calls
/// `image::imageops::resize` with the triangle filter. The result has the pixels of the new size;
/// where that is the old size, they are the old pixels. What the filter makes of the pixels
/// otherwise is only named.
///
/// Only an image that was made is sampled. The sampling works in single precision: the new sides are kept so short that some pixel
/// always has weight, and the intermediate image of `w` by `th` pixels of 16 bytes has to fit in
/// memory, as has the list of weights of one column, which grows by doubling.
#[verifier::external_body]
fn resize_rgba(rgba: Vec<u8>, w: u32, h: u32, tw: u32, th: u32) -> (r: Option<Vec<u8>>)
    requires
        rgba@.len() >= 4 * w * h ==> {
            &&& 1 <= tw <= w
            &&& 1 <= th <= h
            &&& 16 * w * th <= isize::MAX
            &&& 8 * h <= isize::MAX
            &&& (tw == w && th == h) || (tw <= 0x10_0000 && th <= 0x10_0000)
        },
    ensures
        r is None <==> rgba@.len() < 4 * w * h,
        r matches Some(bytes) ==> bytes@ == resized(rgba@, w, h, tw, th),
        r matches Some(bytes) ==> bytes@.len() == 4 * tw * th,
        r matches Some(bytes) ==> tw == w && th == h ==> bytes@ == rgba@.take(4 * w * h),
{
    match image::RgbaImage::from_raw(w, h, rgba) {
        Some(img) => Some(
            image::imageops::resize(&img, tw, th, image::imageops::FilterType::Triangle).into_raw(),
        ),
        None => None,
    }
}

/// Calls `image::write_buffer_with_format` with 8-bit RGBA pixels and the PNG format, writing to
/// memory. The file, or the text of the error, is only named.
///
/// The encoder asserts the length of the pixels. Its compressor counts the zeros of a filtered
/// row, of four bytes a pixel and one more, in 32 bits: the row is kept so short that the count
/// cannot pass its end. What the compressor writes may take up to twice the pixels before it is
/// measured, and grows by doubling: four times the pixels have to fit in memory.
#[verifier::external_body]
fn encode_png(rgba: &Vec<u8>, w: u32, h: u32) -> (r: Result<Vec<u8>, String>)
    requires
        rgba@.len() == 4 * w * h,
        w < 0x4000_0000,
        16 * w * h <= isize::MAX,
    ensures
        bytes_result(r) == png_file(rgba@, w, h),
{
    let mut out: Vec<u8> = Vec::new();
    let color = image::ExtendedColorType::Rgba8;
    let format = image::ImageFormat::Png;
    match image::write_buffer_with_format(&mut std::io::Cursor::new(&mut out), rgba, w, h, color, format) {
        Ok(()) => Ok(out),
        Err(e) => Err(e.to_string()),
    }
}

/// The pixels to scale: red, green, blue, opaque. Content that paints nothing is refused.
pub open spec fn prepared(bgra: Seq<u8>) -> Result<Seq<u8>, Seq<char>> {
    if blank(exchanged(bgra)) {
        Err("blank capture"@)
    } else {
        Ok(opaque_pixels(exchanged(bgra)))
    }
}

/// Prepares pixels for scaling.
pub fn prepare_pixels(bgra: Vec<u8>) -> (r: Result<Vec<u8>, String>)
    ensures
        bytes_result(r) == prepared(bgra@),
{
    let mut bytes = bgra;
    bgra_to_rgba(&mut bytes);
    if is_blank(&bytes) {
        return Err("blank capture".to_owned());
    }
    make_opaque(&mut bytes);
    Ok(bytes)
}

/// A thumbnail of this picture can be made: it has pixels, its longest side fits or the limit is
/// one that the sampling works with, memory can hold what lies between, and the thumbnail is not
/// too wide for the encoder.
pub open spec fn can_be_scaled(c: CaptureView, max_px: u32) -> bool {
    &&& 1 <= c.width
    &&& 1 <= c.height
    &&& larger(c.width, c.height) <= max_px || max_px <= 0x10_0000
    &&& 16 * c.width * fitted(c.width, c.height, max_px).1 <= isize::MAX
    &&& 8 * c.height <= isize::MAX
    &&& fitted(c.width, c.height, max_px).0 < 0x4000_0000
}

/// This picture is not refused before it is scaled: it is not blank, and has all its bytes.
pub open spec fn reaches_scaling(c: CaptureView) -> bool {
    prepared(c.bgra) is Ok && c.bgra.len() >= 4 * c.width * c.height
}

/// A picture that is scaled at all can be.
pub open spec fn is_ready(c: CaptureView, max_px: u32) -> bool {
    reaches_scaling(c) ==> can_be_scaled(c, max_px)
}

/// Whether a picture that is scaled at all can be.
pub fn is_scalable(capture: &Capture, max_px: u32) -> (r: bool)
    ensures
        r == is_ready(capture@, max_px),
{
    let w: u32 = capture.width;
    let h: u32 = capture.height;
    proof {
        blankness_is_about_colour(capture.bgra@);
    }
    assert(w * h <= 0xffff_ffff * 0xffff_ffff) by (nonlinear_arith)
        requires
            w <= 0xffff_ffff,
            h <= 0xffff_ffff,
    ;
    assert(4 * w * h == 4 * (w * h)) by (nonlinear_arith);
    (capture.bgra.len() as u128) < 4 * (w as u128 * h as u128) || is_blank(&capture.bgra)
        || sides_can_be_scaled(capture, max_px)
}

fn sides_can_be_scaled(capture: &Capture, max_px: u32) -> (r: bool)
    ensures
        r == can_be_scaled(capture@, max_px),
{
    let w: u32 = capture.width;
    let h: u32 = capture.height;
    if w == 0 || h == 0 || (max_of(w, h) > max_px && max_px > 0x10_0000) {
        return false;
    }
    let (tw, th) = fit(w, h, max_px);
    if tw >= 0x4000_0000 {
        return false;
    }
    assert(w * th <= 0xffff_ffff * 0xffff_ffff) by (nonlinear_arith)
        requires
            w <= 0xffff_ffff,
            th <= 0xffff_ffff,
    ;
    assert(16 * w * th == 16 * (w * th)) by (nonlinear_arith);
    16 * (w as u128 * th as u128) <= isize::MAX as u128 && 8 * (h as u128) <= isize::MAX as u128
}

/// The PNG file of a picture's thumbnail, or why there is none.
pub open spec fn thumbnail_png(c: CaptureView, max_px: u32) -> Result<Seq<u8>, Seq<char>> {
    match prepared(c.bgra) {
        Err(e) => Err(e),
        Ok(rgba) => if rgba.len() < 4 * c.width * c.height {
            Err("from_raw failed"@)
        } else {
            let (tw, th) = fitted(c.width, c.height, max_px);
            png_file(resized(rgba, c.width, c.height, tw, th), tw, th)
        },
    }
}

/// Makes the PNG file of a picture's thumbnail.
pub fn window_thumbnail_png(capture: Capture, max_px: u32) -> (r: Result<Vec<u8>, String>)
    requires
        is_ready(capture@, max_px),
    ensures
        bytes_result(r) == thumbnail_png(capture@, max_px),
{
    let w: u32 = capture.width;
    let h: u32 = capture.height;
    let rgba = match prepare_pixels(capture.bgra) {
        Ok(rgba) => rgba,
        Err(e) => return Err(e),
    };
    let (tw, th) = fit(w, h, max_px);
    proof {
        if reaches_scaling(capture@) {
            thumbnails_never_grow(w, h, max_px);
            assert(16 * tw * th <= 16 * w * th) by (nonlinear_arith)
                requires
                    tw <= w,
            ;
        }
    }
    match resize_rgba(rgba, w, h, tw, th) {
        Some(scaled) => encode_png(&scaled, tw, th),
        None => Err("from_raw failed".to_owned()),
    }
}

/// The value of a text or an error text.
pub open spec fn text_result(r: Result<String, String>) -> Result<Seq<char>, Seq<char>> {
    match r {
        Ok(s) => Ok(s@),
        Err(e) => Err(e@),
    }
}

/// The data URL of a thumbnail, or why there is none; nothing where the file is too large to be
/// written as text.
pub open spec fn thumbnail_url(png: Result<Seq<u8>, Seq<char>>) -> Option<
    Result<Seq<char>, Seq<char>>,
> {
    match png {
        Err(e) => Some(Err(e)),
        Ok(bytes) => if base64_fits(bytes.len()) {
            Some(Ok(png_url(bytes)))
        } else {
            None
        },
    }
}

/// Turns a thumbnail's PNG file into its data URL.
pub fn url_of_png(png: Result<Vec<u8>, String>) -> (r: Option<Result<String, String>>)
    ensures
        match r {
            Some(url) => thumbnail_url(bytes_result(png)) == Some(text_result(url)),
            None => thumbnail_url(bytes_result(png)) is None,
        },
{
    match png {
        Err(e) => Some(Err(e)),
        Ok(bytes) => {
            let groups: usize = bytes.len() / 3 + if bytes.len() % 3 == 0 {
                0
            } else {
                1
            };
            if groups <= isize::MAX as usize / 4 {
                Some(Ok(data_url(&bytes)))
            } else {
                None
            }
        },
    }
}

/// Makes the data URL of a window's thumbnail, or passes on why there is no picture. Windows whose
/// content cannot be captured give an error: the caller shows the application's icon instead.
/// `None` says that the PNG file is too large to be written as text.
pub fn window_thumbnail_data_url(captured: Result<Capture, String>, max_px: u32) -> (r: Option<
    Result<String, String>,
>)
    requires
        captured matches Ok(c) ==> is_ready(c@, max_px),
    ensures
        ({
            let png = match captured {
                Ok(c) => thumbnail_png(c@, max_px),
                Err(e) => Err(e@),
            };
            match r {
                Some(url) => thumbnail_url(png) == Some(text_result(url)),
                None => thumbnail_url(png) is None,
            }
        }),
{
    match captured {
        Ok(capture) => url_of_png(window_thumbnail_png(capture, max_px)),
        Err(e) => Some(Err(e)),
    }
}

/// Pictures without colour give no thumbnail, whatever their size.
pub proof fn blank_pictures_are_refused(c: CaptureView, max_px: u32)
    requires
        blank(c.bgra),
    ensures
        thumbnail_png(c, max_px) == Err::<Seq<u8>, Seq<char>>("blank capture"@),
{
    blankness_is_about_colour(c.bgra);
}

/// A thumbnail does not depend on the bytes that carry no meaning.
pub proof fn transparency_is_ignored(c1: CaptureView, c2: CaptureView, max_px: u32)
    requires
        c1.width == c2.width,
        c1.height == c2.height,
        c1.bgra.len() == c2.bgra.len() == whole_pixels(c1.bgra.len()),
        forall|i: int|
            0 <= i < c1.bgra.len() && i % 4 != 3 ==> #[trigger] c1.bgra[i] == c2.bgra[i],
    ensures
        thumbnail_png(c1, max_px) == thumbnail_png(c2, max_px),
{
    let p1 = opaque_pixels(exchanged(c1.bgra));
    let p2 = opaque_pixels(exchanged(c2.bgra));
    assert(p1 =~= p2);
    blankness_is_about_colour(exchanged(c1.bgra));
    blankness_is_about_colour(exchanged(c2.bgra));
}

// ---------------------------------------------------------------- what each step is for

/// No side of a thumbnail vanishes, whatever the window; and where no pixel is allowed, one is
/// left.
pub proof fn one_pixel_is_left(w: u32, h: u32, max_px: u32)
    ensures
        fitted(w, h, max_px).0 >= 1,
        fitted(w, h, max_px).1 >= 1,
        max_px == 0 ==> fitted(w, h, max_px) == (1u32, 1u32),
{
    let longest = larger(w, h);
    if longest > max_px {
        scale::scaling_down_never_lengthens(w as nat, max_px as nat, longest as nat);
        scale::scaling_down_never_lengthens(h as nat, max_px as nat, longest as nat);
    }
}

/// A side of a window is the distance of its edges, and nothing where they are the wrong way
/// round; what does not fit in a signed word of 32 bits wraps around first.
pub proof fn sides_are_distances(low: i32, high: i32)
    ensures
        0 <= high - low <= i32::MAX ==> span(low, high) == high - low,
        i32::MIN <= high - low <= 0 ==> span(low, high) == 0,
        high - low > i32::MAX ==> span(low, high) == 0,
        high - low < i32::MIN ==> span(low, high) == high - low + 0x1_0000_0000,
{
}

/// A bitmap has four bytes for each pixel, counted in 32 bits.
pub proof fn bitmaps_have_four_bytes_a_pixel(w: u32, h: u32)
    ensures
        (4 * (w * h) - dib_len(w, h)) % 0x1_0000_0000 == 0,
        4 * (w * h) < 0x1_0000_0000 ==> dib_len(w, h) == 4 * (w * h),
{
    assert(0 <= w * h) by (nonlinear_arith);
    let area: int = w * h;
    assert(w * h * 4 == area * 4);
}

/// The bitmap of a window has the size of its rectangle, and all its bytes are copied.
pub proof fn bitmaps_have_the_size_of_the_window(run: CaptureRun, r: WindowRect)
    requires
        1 <= r.right - r.left <= i32::MAX,
        1 <= r.bottom - r.top <= i32::MAX,
    ensures
        ({
            let w = r.right - r.left;
            let h = r.bottom - r.top;
            let bitmap = Dib { handle_valid: true, bits_valid: true };
            let run1 = capture_after(run, CaptureEvent::Rect(Ok(r)));
            let run2 = capture_after(run1, CaptureEvent::ScreenDc { valid: true });
            let run3 = capture_after(run2, CaptureEvent::MemDc { valid: true });
            let run4 = capture_after(run3, CaptureEvent::Dib(Ok(bitmap)));
            let paint = capture_next(run4, CaptureEvent::Dib(Ok(bitmap)));
            &&& capture_next(run1, CaptureEvent::Rect(Ok(r))) is GetScreenDc
            &&& capture_next(run2, CaptureEvent::ScreenDc { valid: true }) is CreateMemDc
            &&& capture_next(run3, CaptureEvent::MemDc { valid: true }) == (
            CaptureActionView::CreateDib { width: w as u32, height: h as u32 })
            &&& paint is Paint
            &&& 4 * (w * h) < 0x1_0000_0000 ==> paint->len == 4 * (w * h)
            &&& run4.width == w
            &&& run4.height == h
        }),
{
    bitmaps_have_four_bytes_a_pixel((r.right - r.left) as u32, (r.bottom - r.top) as u32);
}

/// A window without pixels is not captured, and its size is remembered by no other event than its
/// rectangle.
pub proof fn empty_windows_are_not_captured(run: CaptureRun, r: WindowRect, event: CaptureEvent)
    ensures
        i32::MIN <= r.right - r.left <= 0 || i32::MIN <= r.bottom - r.top <= 0 ==> capture_next(
            capture_after(run, CaptureEvent::Rect(Ok(r))),
            CaptureEvent::Rect(Ok(r)),
        ) == CaptureActionView::Finish(Err("zero-size window"@)),
        !(event matches CaptureEvent::Rect(Ok(_))) ==> {
            &&& capture_after(run, event).width == run.width
            &&& capture_after(run, event).height == run.height
        },
{
}

/// A capture ends with a picture only after the window painted itself. It ends without one, and
/// says why, where a step fails, and goes on otherwise.
pub proof fn captures_end_with_the_first_failure(run: CaptureRun, event: CaptureEvent)
    ensures
        ({
            let a = capture_next(run, event);
            &&& a == CaptureActionView::Finish(Ok(())) <==> event == (CaptureEvent::Painted {
                ok: true,
            })
            &&& event matches CaptureEvent::Iconic(iconic) ==> {
                &&& iconic ==> a == CaptureActionView::Finish(Err("minimized"@))
                &&& !iconic ==> a is QueryRect
            }
            &&& event matches CaptureEvent::Rect(Err(e)) ==> a == CaptureActionView::Finish(Err(e@))
            &&& event matches CaptureEvent::ScreenDc { valid } ==> {
                &&& !valid ==> a == CaptureActionView::Finish(Err("GetDC failed"@))
                &&& valid ==> a is CreateMemDc
            }
            &&& event matches CaptureEvent::MemDc { valid } ==> {
                &&& !valid ==> a == CaptureActionView::Finish(Err("CreateCompatibleDC failed"@))
                &&& valid ==> a is CreateDib
            }
            &&& event matches CaptureEvent::Dib(Err(e)) ==> a == CaptureActionView::Finish(Err(e@))
            &&& event matches CaptureEvent::Dib(Ok(dib)) ==> {
                &&& !(dib.handle_valid && dib.bits_valid) ==> a == CaptureActionView::Finish(
                    Err("CreateDIBSection failed"@),
                )
                &&& dib.handle_valid && dib.bits_valid ==> a is Paint
            }
            &&& event == (CaptureEvent::Painted { ok: false }) ==> a == CaptureActionView::Finish(
                Err("PrintWindow returned false"@),
            )
        }),
{
}

/// In every whole pixel the first and the third byte change places and the others stay; bytes
/// beyond the last whole pixel stay too.
pub proof fn colours_change_places(bytes: Seq<u8>, k: int)
    requires
        0 <= k,
    ensures
        exchanged(bytes).len() == bytes.len(),
        4 * k + 4 <= bytes.len() ==> {
            &&& exchanged(bytes)[4 * k] == bytes[4 * k + 2]
            &&& exchanged(bytes)[4 * k + 1] == bytes[4 * k + 1]
            &&& exchanged(bytes)[4 * k + 2] == bytes[4 * k]
            &&& exchanged(bytes)[4 * k + 3] == bytes[4 * k + 3]
        },
        4 * k <= bytes.len() < 4 * k + 4 ==> exchanged(bytes).skip(4 * k) == bytes.skip(4 * k),
{
    if 4 * k + 4 <= bytes.len() {
        lemma_exchanged_pixel(bytes, 4 * k);
    } else if 4 * k <= bytes.len() {
        lemma_exchanged_rest(bytes, 4 * k);
    }
}

/// Every whole pixel keeps its colours and becomes opaque; bytes beyond the last whole pixel stay.
pub proof fn opaque_pixels_keep_their_colours(bytes: Seq<u8>, k: int)
    requires
        0 <= k,
    ensures
        opaque_pixels(bytes).len() == bytes.len(),
        4 * k + 4 <= bytes.len() ==> {
            &&& opaque_pixels(bytes)[4 * k] == bytes[4 * k]
            &&& opaque_pixels(bytes)[4 * k + 1] == bytes[4 * k + 1]
            &&& opaque_pixels(bytes)[4 * k + 2] == bytes[4 * k + 2]
            &&& opaque_pixels(bytes)[4 * k + 3] == 255
        },
        4 * k <= bytes.len() < 4 * k + 4 ==> opaque_pixels(bytes).skip(4 * k) == bytes.skip(4 * k),
{
    if 4 * k <= bytes.len() < 4 * k + 4 {
        assert(opaque_pixels(bytes).skip(4 * k) =~= bytes.skip(4 * k));
    }
}

/// The `k`-th pixel has some colour.
pub open spec fn has_colour(bytes: Seq<u8>, k: int) -> bool {
    bytes[4 * k] != 0 || bytes[4 * k + 1] != 0 || bytes[4 * k + 2] != 0
}

/// A picture is blank exactly if none of its whole pixels has any colour.
pub proof fn blank_pictures_have_no_colour(bytes: Seq<u8>)
    ensures
        blank(bytes) <==> forall|k: int|
            0 <= k < bytes.len() as int / 4 ==> !#[trigger] has_colour(bytes, k),
{
    if forall|k: int| 0 <= k < bytes.len() as int / 4 ==> !#[trigger] has_colour(bytes, k) {
        assert forall|i: int|
            0 <= i < whole_pixels(bytes.len()) && i % 4 != 3 implies #[trigger] bytes[i] == 0 by {
            assert(!has_colour(bytes, i / 4));
        }
    }
}

/// A picture with some colour is prepared pixel by pixel: red, green, blue, opaque. One without
/// is refused.
pub proof fn pictures_are_prepared_pixel_by_pixel(bgra: Seq<u8>, k: int)
    requires
        0 <= k < bgra.len() as int / 4,
    ensures
        has_colour(bgra, k) ==> prepared(bgra) is Ok,
        prepared(bgra) is Err ==> prepared(bgra) == Err::<Seq<u8>, Seq<char>>("blank capture"@),
        prepared(bgra) matches Ok(rgba) ==> {
            &&& rgba.len() == bgra.len()
            &&& rgba[4 * k] == bgra[4 * k + 2]
            &&& rgba[4 * k + 1] == bgra[4 * k + 1]
            &&& rgba[4 * k + 2] == bgra[4 * k]
            &&& rgba[4 * k + 3] == 255
        },
{
    blankness_is_about_colour(bgra);
    blank_pictures_have_no_colour(bgra);
    colours_change_places(bgra, k);
    opaque_pixels_keep_their_colours(exchanged(bgra), k);
}

/// The number that a base64 character stands for; negative for any other.
pub open spec fn base64_value(c: char) -> int {
    if 'A' <= c <= 'Z' {
        c as int - 'A' as int
    } else if 'a' <= c <= 'z' {
        c as int - 'a' as int + 26
    } else if '0' <= c <= '9' {
        c as int - '0' as int + 52
    } else if c == '+' {
        62
    } else if c == '/' {
        63
    } else {
        -1
    }
}

proof fn lemma_symbol_reads_back(v: int)
    requires
        0 <= v < 64,
    ensures
        base64_value(base64_symbol(v)) == v,
{
}

/// The `k`-th four characters of a base64 text are the bits of the `k`-th three bytes. Where the
/// bytes end before, the bits beyond are zero and the characters beyond are padding.
pub proof fn base64_reads_back(bytes: Seq<u8>, k: int)
    requires
        0 <= k,
        3 * k < bytes.len(),
    ensures
        ({
            let t = base64_text(bytes);
            let v0 = base64_value(t[4 * k]);
            let v1 = base64_value(t[4 * k + 1]);
            let v2 = base64_value(t[4 * k + 2]);
            let v3 = base64_value(t[4 * k + 3]);
            &&& 4 * k + 4 <= t.len()
            &&& 0 <= v0 < 64
            &&& 0 <= v1 < 64
            &&& 4 * v0 + v1 / 16 == bytes[3 * k]
            &&& if 3 * k + 1 < bytes.len() {
                &&& 0 <= v2 < 64
                &&& (v1 % 16) * 16 + v2 / 4 == bytes[3 * k + 1]
            } else {
                v1 % 16 == 0 && t[4 * k + 2] == '='
            }
            &&& if 3 * k + 2 < bytes.len() {
                &&& 0 <= v3 < 64
                &&& (v2 % 4) * 64 + v3 == bytes[3 * k + 2]
            } else {
                &&& t[4 * k + 3] == '='
                &&& 3 * k + 1 < bytes.len() ==> v2 % 4 == 0
            }
        }),
    decreases k,
{
    if k == 0 {
        lemma_first_group(bytes);
    } else {
        base64_length(bytes);
        base64_length(bytes.skip(3));
        base64_reads_back(bytes.skip(3), k - 1);
        let rest = base64_text(bytes.skip(3));
        let t = base64_text(bytes);
        assert(t[4 * k] == rest[4 * (k - 1)]);
        assert(t[4 * k + 1] == rest[4 * (k - 1) + 1]);
        assert(t[4 * k + 2] == rest[4 * (k - 1) + 2]);
        assert(t[4 * k + 3] == rest[4 * (k - 1) + 3]);
    }
}

proof fn lemma_first_group(bytes: Seq<u8>)
    requires
        0 < bytes.len(),
    ensures
        ({
            let t = base64_text(bytes);
            let v0 = base64_value(t[0]);
            let v1 = base64_value(t[1]);
            let v2 = base64_value(t[2]);
            let v3 = base64_value(t[3]);
            &&& 4 <= t.len()
            &&& 0 <= v0 < 64
            &&& 0 <= v1 < 64
            &&& 4 * v0 + v1 / 16 == bytes[0]
            &&& if 1 < bytes.len() {
                &&& 0 <= v2 < 64
                &&& (v1 % 16) * 16 + v2 / 4 == bytes[1]
            } else {
                v1 % 16 == 0 && t[2] == '='
            }
            &&& if 2 < bytes.len() {
                &&& 0 <= v3 < 64
                &&& (v2 % 4) * 64 + v3 == bytes[2]
            } else {
                &&& t[3] == '='
                &&& 1 < bytes.len() ==> v2 % 4 == 0
            }
        }),
{
    let b0 = bytes[0] as int;
    let b1 = if bytes.len() > 1 {
        bytes[1] as int
    } else {
        0
    };
    let b2 = if bytes.len() > 2 {
        bytes[2] as int
    } else {
        0
    };
    lemma_symbol_reads_back(b0 / 4);
    lemma_symbol_reads_back((b0 % 4) * 16 + b1 / 16);
    lemma_symbol_reads_back((b1 % 16) * 4 + b2 / 64);
    lemma_symbol_reads_back(b2 % 64);
}

/// The data URL of a thumbnail names its kind and holds the whole file as base64; there is none
/// exactly where that text would be too long, and what went wrong before is passed on.
pub proof fn urls_hold_the_file(png: Seq<u8>, e: Seq<char>)
    ensures
        thumbnail_url(Err(e)) == Some(Err::<Seq<char>, Seq<char>>(e)),
        thumbnail_url(Ok(png)) is Some <==> base64_text(png).len() <= isize::MAX,
        thumbnail_url(Ok(png)) matches Some(url) ==> {
            &&& url is Ok
            &&& url->Ok_0.take(22) == "data:image/png;base64,"@
            &&& url->Ok_0.skip(22) == base64_text(png)
        },
{
    reveal_strlit("data:image/png;base64,");
    base64_length(png);
    let url = png_url(png);
    assert(url.take(22) =~= "data:image/png;base64,"@);
    assert(url.skip(22) =~= base64_text(png));
}

/// A thumbnail is the PNG file of the prepared picture, scaled from the window's size to the
/// fitted one; a picture that lacks bytes is refused.
pub proof fn thumbnails_are_made_of_the_picture(c: CaptureView, max_px: u32, rgba: Seq<u8>, p: int)
    requires
        c.bgra.len() % 4 == 0,
        0 <= p < c.bgra.len() as int / 4,
        has_colour(c.bgra, p),
        rgba.len() == c.bgra.len(),
        forall|k: int| 0 <= k < c.bgra.len() as int / 4 ==> #[trigger] is_turned(c.bgra, rgba, k),
    ensures
        ({
            let size = fitted(c.width, c.height, max_px);
            &&& c.bgra.len() < 4 * c.width * c.height ==> thumbnail_png(c, max_px) == Err::<
                Seq<u8>,
                Seq<char>,
            >("from_raw failed"@)
            &&& c.bgra.len() >= 4 * c.width * c.height ==> thumbnail_png(c, max_px) == png_file(
                resized(rgba, c.width, c.height, size.0, size.1),
                size.0,
                size.1,
            )
        }),
{
    pictures_are_prepared_pixel_by_pixel(c.bgra, p);
    let made = prepared(c.bgra)->Ok_0;
    assert forall|i: int| 0 <= i < rgba.len() implies made[i] == rgba[i] by {
        let k = i / 4;
        assert(is_turned(c.bgra, rgba, k));
        pictures_are_prepared_pixel_by_pixel(c.bgra, k);
        assert(i == 4 * k || i == 4 * k + 1 || i == 4 * k + 2 || i == 4 * k + 3);
    }
    assert(made =~= rgba);
}

/// The `k`-th pixel of `rgba` has the colours of that of `bgra`, and is opaque.
pub open spec fn is_turned(bgra: Seq<u8>, rgba: Seq<u8>, k: int) -> bool {
    &&& rgba[4 * k] == bgra[4 * k + 2]
    &&& rgba[4 * k + 1] == bgra[4 * k + 1]
    &&& rgba[4 * k + 2] == bgra[4 * k]
    &&& rgba[4 * k + 3] == 255
}

/// Every picture that memory holds four times over, and whose width the encoder takes, can be
/// scaled to a limit that the sampling works with, or left as it is; a picture that is refused
/// before needs nothing.
pub proof fn pictures_in_memory_can_be_scaled(c: CaptureView, max_px: u32)
    requires
        1 <= c.width < 0x4000_0000,
        1 <= c.height,
        16 * (c.width * c.height) <= isize::MAX,
        8 * c.height <= isize::MAX,
        max_px <= 0x10_0000 || (c.width <= max_px && c.height <= max_px),
    ensures
        can_be_scaled(c, max_px),
        is_ready(c, max_px),
{
    thumbnails_never_grow(c.width, c.height, max_px);
    let th = fitted(c.width, c.height, max_px).1;
    assert(16 * c.width * th <= 16 * (c.width * c.height)) by (nonlinear_arith)
        requires
            th <= c.height,
    ;
}

/// A picture that is refused before it is scaled is ready, whatever its size.
pub proof fn refused_pictures_need_nothing(c: CaptureView, max_px: u32)
    requires
        blank(c.bgra) || c.bgra.len() < 4 * c.width * c.height,
    ensures
        is_ready(c, max_px),
{
    blankness_is_about_colour(c.bgra);
}

/// Steps, pictures and results are seen with what they carry.
pub proof fn captures_are_seen_as_they_are(
    a: CaptureAction,
    c: Capture,
    bytes: Result<Vec<u8>, String>,
    url: Result<String, String>,
)
    ensures
        a is QueryRect <==> a@ is QueryRect,
        a is GetScreenDc <==> a@ is GetScreenDc,
        a is CreateMemDc <==> a@ is CreateMemDc,
        a matches CaptureAction::CreateDib { width, height } ==> a@
            == (CaptureActionView::CreateDib { width, height }),
        a matches CaptureAction::Paint { len } ==> a@ == (CaptureActionView::Paint { len }),
        a matches CaptureAction::Finish(Ok(_)) ==> a@ == CaptureActionView::Finish(Ok(())),
        a matches CaptureAction::Finish(Err(e)) ==> a@ == CaptureActionView::Finish(Err(e@)),
        c@.width == c.width,
        c@.height == c.height,
        c@.bgra == c.bgra@,
        bytes matches Ok(v) ==> bytes_result(bytes) == Ok::<Seq<u8>, Seq<char>>(v@),
        bytes matches Err(e) ==> bytes_result(bytes) == Err::<Seq<u8>, Seq<char>>(e@),
        url matches Ok(s) ==> text_result(url) == Ok::<Seq<char>, Seq<char>>(s@),
        url matches Err(e) ==> text_result(url) == Err::<Seq<char>, Seq<char>>(e@),
{
}

} // verus!
