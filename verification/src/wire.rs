//! Bounds-checked little-endian readers over raw message and memory buffers.
//!
//! An offset that does not leave room for the value yields `None` (or, for text, whatever
//! was readable before the end): no offset and no buffer makes a read fail otherwise.

use vstd::prelude::*;

use crate::text;

verus! {

/// The 16-bit little-endian value at `off`.
pub open spec fn u16_value(buf: Seq<u8>, off: int) -> int {
    buf[off] + 0x100 * buf[off + 1]
}

/// The 32-bit little-endian value at `off`.
pub open spec fn u32_value(buf: Seq<u8>, off: int) -> int {
    u16_value(buf, off) + 0x1_0000 * u16_value(buf, off + 2)
}

/// The 64-bit little-endian value at `off`.
pub open spec fn u64_value(buf: Seq<u8>, off: int) -> int {
    u32_value(buf, off) + 0x1_0000_0000 * u32_value(buf, off + 4)
}

/// What reading a `u32` at `off` gives: the value where four bytes are there.
pub open spec fn u32_at(buf: Seq<u8>, off: int) -> Option<u32> {
    if off + 4 <= buf.len() {
        Some(u32_value(buf, off) as u32)
    } else {
        None
    }
}

/// What reading a `u64` at `off` gives: the value where eight bytes are there.
pub open spec fn u64_at(buf: Seq<u8>, off: int) -> Option<u64> {
    if off + 8 <= buf.len() {
        Some(u64_value(buf, off) as u64)
    } else {
        None
    }
}

/// The UTF-16 units from `off` on: up to the first NUL, to the end of the buffer, or to
/// `max` units, whichever comes first.
pub open spec fn wide_units_at(buf: Seq<u8>, off: int, max: nat) -> Seq<u16>
    decreases max,
{
    if max == 0 || off + 2 > buf.len() || u16_value(buf, off) == 0 {
        seq![]
    } else {
        seq![u16_value(buf, off) as u16] + wide_units_at(buf, off + 2, (max - 1) as nat)
    }
}

fn u16_from(buf: &[u8], off: usize) -> (v: u16)
    requires
        off + 2 <= buf.len(),
    ensures
        v == u16_value(buf@, off as int),
{
    buf[off] as u16 + 0x100 * buf[off + 1] as u16
}

fn u32_from(buf: &[u8], off: usize) -> (v: u32)
    requires
        off + 4 <= buf.len(),
    ensures
        v == u32_value(buf@, off as int),
{
    u16_from(buf, off) as u32 + 0x1_0000 * u16_from(buf, off + 2) as u32
}

/// Reads a little-endian `u32`.
pub fn read_u32(buf: &[u8], off: usize) -> (v: Option<u32>)
    ensures
        v == u32_at(buf@, off as int),
{
    if off <= buf.len() && buf.len() - off >= 4 {
        Some(u32_from(buf, off))
    } else {
        None
    }
}

/// Reads a little-endian `u64`.
pub fn read_u64(buf: &[u8], off: usize) -> (v: Option<u64>)
    ensures
        v == u64_at(buf@, off as int),
{
    if off <= buf.len() && buf.len() - off >= 8 {
        Some(u32_from(buf, off) as u64 + 0x1_0000_0000 * u32_from(buf, off + 4) as u64)
    } else {
        None
    }
}

/// Reads a NUL-terminated UTF-16 string of at most `max_chars` units.
pub fn read_wstr(buf: &[u8], off: usize, max_chars: usize) -> (s: String)
    ensures
        s@ == text::decode_utf16(wide_units_at(buf@, off as int, max_chars as nat)),
{
    let mut units: Vec<u16> = Vec::new();
    let mut at: usize = off;
    let mut left: usize = max_chars;
    assert(units@ + wide_units_at(buf@, off as int, max_chars as nat) =~= wide_units_at(
        buf@,
        off as int,
        max_chars as nat,
    ));
    while left > 0 && at <= buf.len() && buf.len() - at >= 2 && u16_from(buf, at) != 0
        invariant
            units@ + wide_units_at(buf@, at as int, left as nat) == wide_units_at(
                buf@,
                off as int,
                max_chars as nat,
            ),
        decreases left,
    {
        let ghost before = units@;
        let u: u16 = u16_from(buf, at);
        units.push(u);
        at += 2;
        left -= 1;
        proof {
            let tail = wide_units_at(buf@, at as int, left as nat);
            assert(before.push(u) + tail =~= before + (seq![u] + tail));
        }
    }
    assert(units@ =~= wide_units_at(buf@, off as int, max_chars as nat));
    text::utf16_lossy(units.as_slice())
}

/// All UTF-16 units of a buffer, NULs included.
pub open spec fn all_units(buf: Seq<u8>) -> Seq<u16>
    decreases buf.len(),
{
    if buf.len() < 2 {
        seq![]
    } else {
        seq![u16_value(buf, 0) as u16] + all_units(buf.skip(2))
    }
}

/// Decodes a whole buffer of UTF-16 units. A NUL does not end the text, and an odd last byte
/// is left out.
pub fn decode_wide_buffer(buf: &[u8]) -> (s: String)
    ensures
        s@ == text::decode_utf16(all_units(buf@)),
{
    let mut units: Vec<u16> = Vec::new();
    let mut at: usize = 0;
    assert(buf@.skip(0) =~= buf@);
    assert(units@ + all_units(buf@.skip(0)) =~= all_units(buf@));
    while buf.len() - at >= 2
        invariant
            at <= buf.len(),
            units@ + all_units(buf@.skip(at as int)) == all_units(buf@),
        decreases buf.len() - at,
    {
        let ghost before = units@;
        let u: u16 = u16_from(buf, at);
        assert(buf@.skip(at as int).skip(2) =~= buf@.skip(at + 2));
        units.push(u);
        at += 2;
        proof {
            let tail = all_units(buf@.skip(at as int));
            assert(before.push(u) + tail =~= before + (seq![u] + tail));
        }
    }
    assert(units@ =~= all_units(buf@));
    text::utf16_lossy(units.as_slice())
}

// ---------------------------------------------------------------- laws

/// The bytes that hold `v` in little-endian order.
pub open spec fn le_bytes(v: nat, width: nat) -> Seq<u8>
    decreases width,
{
    if width == 0 {
        seq![]
    } else {
        seq![(v % 0x100) as u8] + le_bytes(v / 0x100, (width - 1) as nat)
    }
}

/// `part` stands in `buf` from `off` on.
pub open spec fn holds_at(buf: Seq<u8>, off: int, part: Seq<u8>) -> bool {
    &&& 0 <= off
    &&& off + part.len() <= buf.len()
    &&& buf.subrange(off, off + part.len()) == part
}

/// A `u32` that was laid down in little-endian order is read back unchanged.
pub proof fn u32_reads_back(buf: Seq<u8>, off: int, v: u32)
    requires
        holds_at(buf, off, le_bytes(v as nat, 4)),
    ensures
        u32_at(buf, off) == Some(v),
{
    reveal_with_fuel(le_bytes, 5);
    let got = buf.subrange(off, off + 4);
    assert(buf[off] == got[0] && buf[off + 1] == got[1] && buf[off + 2] == got[2] && buf[off + 3]
        == got[3]);
}

/// A `u64` that was laid down in little-endian order is read back unchanged.
pub proof fn u64_reads_back(buf: Seq<u8>, off: int, v: u64)
    requires
        holds_at(buf, off, le_bytes(v as nat, 8)),
    ensures
        u64_at(buf, off) == Some(v),
{
    reveal_with_fuel(le_bytes, 9);
    let got = buf.subrange(off, off + 8);
    assert(buf[off] == got[0] && buf[off + 1] == got[1] && buf[off + 2] == got[2] && buf[off + 3]
        == got[3]);
    assert(buf[off + 4] == got[4] && buf[off + 5] == got[5] && buf[off + 6] == got[6] && buf[off
        + 7] == got[7]);
}

/// The bytes of a sequence of UTF-16 units.
pub open spec fn unit_bytes(units: Seq<u16>) -> Seq<u8>
    decreases units.len(),
{
    if units.len() == 0 {
        seq![]
    } else {
        le_bytes(units[0] as nat, 2) + unit_bytes(units.skip(1))
    }
}

proof fn lemma_unit_bytes_len(units: Seq<u16>)
    ensures
        unit_bytes(units).len() == 2 * units.len(),
    decreases units.len(),
{
    reveal_with_fuel(le_bytes, 3);
    if units.len() > 0 {
        lemma_unit_bytes_len(units.skip(1));
    }
}

proof fn lemma_units_read_back(buf: Seq<u8>, off: int, max: nat, units: Seq<u16>)
    requires
        holds_at(buf, off, unit_bytes(units)),
        units.len() <= max,
        forall|i: int| 0 <= i < units.len() ==> units[i] != 0,
        ({
            let end = off + 2 * units.len();
            units.len() == max || end + 2 > buf.len() || u16_value(buf, end) == 0
        }),
    ensures
        wide_units_at(buf, off, max) == units,
    decreases units.len(),
{
    reveal_with_fuel(le_bytes, 3);
    lemma_unit_bytes_len(units);
    if units.len() > 0 {
        let rest = units.skip(1);
        let here = unit_bytes(units);
        let got = buf.subrange(off, off + here.len());
        lemma_unit_bytes_len(rest);
        assert(buf[off] == got[0] && buf[off + 1] == got[1]);
        assert(u16_value(buf, off) == units[0]);
        assert(buf.subrange(off + 2, off + 2 + unit_bytes(rest).len()) =~= got.skip(2));
        assert(got.skip(2) =~= unit_bytes(rest));
        assert forall|i: int| 0 <= i < rest.len() implies rest[i] != 0 by {
            assert(rest[i] == units[i + 1]);
        }
        lemma_units_read_back(buf, off + 2, (max - 1) as nat, rest);
        assert(seq![units[0]] + rest =~= units);
    } else {
        assert(units =~= seq![]);
    }
}

proof fn lemma_no_nul_unit(s: Seq<char>)
    requires
        forall|i: int| 0 <= i < s.len() ==> s[i] != '\0',
    ensures
        forall|i: int|
            0 <= i < text::encode_utf16(s).len() ==> #[trigger] text::encode_utf16(s)[i] != 0,
    decreases s.len(),
{
    if s.len() > 0 {
        let rest = s.skip(1);
        assert forall|i: int| 0 <= i < rest.len() implies rest[i] != '\0' by {
            assert(rest[i] == s[i + 1]);
        }
        lemma_no_nul_unit(rest);
        text::lemma_char_value(s[0]);
        let head = text::utf16_units(s[0]);
        assert forall|i: int| 0 <= i < text::encode_utf16(s).len() implies #[trigger] text::encode_utf16(
            s,
        )[i] != 0 by {
            if i < head.len() {
                assert(text::encode_utf16(s)[i] == head[i]);
            } else {
                assert(text::encode_utf16(s)[i] == text::encode_utf16(rest)[i - head.len()]);
            }
        }
    }
}

/// A text without NULs that was laid down in UTF-16, and that fills the field, reaches the end
/// of the buffer or is followed by a NUL, is read back unchanged.
pub proof fn wstr_reads_back(buf: Seq<u8>, off: int, max: nat, s: Seq<char>)
    requires
        holds_at(buf, off, unit_bytes(text::encode_utf16(s))),
        text::encode_utf16(s).len() <= max,
        forall|i: int| 0 <= i < s.len() ==> s[i] != '\0',
        ({
            let end = off + 2 * text::encode_utf16(s).len();
            text::encode_utf16(s).len() == max || end + 2 > buf.len() || u16_value(buf, end) == 0
        }),
    ensures
        text::decode_utf16(wide_units_at(buf, off, max)) == s,
{
    lemma_no_nul_unit(s);
    lemma_units_read_back(buf, off, max, text::encode_utf16(s));
    text::utf16_round_trip(s);
}

proof fn lemma_unit_bytes_push(units: Seq<u16>, last: u16)
    ensures
        unit_bytes(units.push(last)) == unit_bytes(units) + le_bytes(last as nat, 2),
    decreases units.len(),
{
    let all = units.push(last);
    if units.len() > 0 {
        lemma_unit_bytes_push(units.skip(1), last);
        assert(all.skip(1) =~= units.skip(1).push(last));
        assert(unit_bytes(all) =~= unit_bytes(units) + le_bytes(last as nat, 2));
    } else {
        assert(all.skip(1) =~= Seq::<u16>::empty());
        assert(unit_bytes(all.skip(1)) =~= Seq::<u8>::empty());
        assert(unit_bytes(units) =~= Seq::<u8>::empty());
        assert(unit_bytes(all) =~= unit_bytes(units) + le_bytes(last as nat, 2));
    }
}

/// A text without NULs that was laid down in UTF-16 with a NUL after it is read back unchanged.
pub proof fn terminated_wstr_reads_back(buf: Seq<u8>, off: int, max: nat, s: Seq<char>)
    requires
        holds_at(buf, off, unit_bytes(text::encode_utf16(s).push(0))),
        text::encode_utf16(s).len() <= max,
        forall|i: int| 0 <= i < s.len() ==> s[i] != '\0',
    ensures
        text::decode_utf16(wide_units_at(buf, off, max)) == s,
{
    reveal_with_fuel(le_bytes, 3);
    let units = text::encode_utf16(s);
    lemma_unit_bytes_len(units);
    lemma_unit_bytes_push(units, 0);
    let part = unit_bytes(units.push(0));
    let got = buf.subrange(off, off + part.len());
    let end = off + 2 * units.len();
    assert(buf.subrange(off, end) =~= got.take(2 * units.len() as int));
    assert(got.take(2 * units.len() as int) =~= unit_bytes(units));
    assert(buf[end] == got[2 * units.len() as int]);
    assert(buf[end + 1] == got[2 * units.len() as int + 1]);
    wstr_reads_back(buf, off, max, s);
}

/// A word is read exactly where all its bytes are in the buffer.
pub proof fn reads_stay_inside(buf: Seq<u8>, off: int)
    requires
        0 <= off,
    ensures
        u32_at(buf, off) is Some <==> off + 4 <= buf.len(),
        u64_at(buf, off) is Some <==> off + 8 <= buf.len(),
{
}

/// A text field gives the units that stand there, one after another, and ends only at its limit,
/// at the end of the buffer or at a NUL, whichever comes first.
pub proof fn fields_end_where_they_must(buf: Seq<u8>, off: int, max: nat)
    requires
        0 <= off,
    ensures
        ({
            let units = wide_units_at(buf, off, max);
            let end = off + 2 * units.len();
            &&& units.len() <= max
            &&& units.len() > 0 ==> end <= buf.len()
            &&& forall|k: int|
                0 <= k < units.len() ==> #[trigger] units[k] == buf[off + 2 * k] + 0x100 * buf[off
                    + 2 * k + 1] && units[k] != 0
            &&& units.len() == max || end + 2 > buf.len() || (buf[end] == 0 && buf[end + 1] == 0)
        }),
    decreases max,
{
    let units = wide_units_at(buf, off, max);
    if max > 0 && off + 2 <= buf.len() && u16_value(buf, off) != 0 {
        fields_end_where_they_must(buf, off + 2, (max - 1) as nat);
        let rest = wide_units_at(buf, off + 2, (max - 1) as nat);
        assert forall|k: int| 0 <= k < units.len() implies #[trigger] units[k] == buf[off + 2 * k]
            + 0x100 * buf[off + 2 * k + 1] && units[k] != 0 by {
            if k > 0 {
                assert(units[k] == rest[k - 1]);
                assert(off + 2 + 2 * (k - 1) == off + 2 * k);
            }
        }
    }
}

/// A buffer of units gives all of them, in order.
pub proof fn all_units_are_read(buf: Seq<u8>)
    ensures
        all_units(buf).len() == buf.len() / 2,
        forall|k: int|
            0 <= k < all_units(buf).len() ==> #[trigger] all_units(buf)[k] == buf[2 * k] + 0x100
                * buf[2 * k + 1],
    decreases buf.len(),
{
    let units = all_units(buf);
    if buf.len() >= 2 {
        let rest = buf.skip(2);
        all_units_are_read(rest);
        assert forall|k: int| 0 <= k < units.len() implies #[trigger] units[k] == buf[2 * k] + 0x100
            * buf[2 * k + 1] by {
            if k > 0 {
                assert(units[k] == all_units(rest)[k - 1]);
                assert(rest[2 * (k - 1)] == buf[2 * k]);
                assert(rest[2 * (k - 1) + 1] == buf[2 * k + 1]);
            }
        }
    }
}

} // verus!
