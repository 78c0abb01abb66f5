//! Text building: numerals, hex dumps and UTF-16 conversion.
//!
//! The window system speaks UTF-16 and raw integers; the rest of the library speaks
//! `String`. The functions here turn one into the other, and their contracts say which
//! characters come out.

use vstd::prelude::*;

verus! {

/// `String::push`: appends one character to the end of the string.
pub assume_specification[ String::push ](s: &mut String, c: char)
    ensures
        final(s)@ == old(s)@.push(c),
;

/// `char::from_u32`: the character with the given scalar value. It is `None` exactly for the
/// values that are no `char`: the surrogates and everything past the last code point.
pub assume_specification[ char::from_u32 ](i: u32) -> (r: Option<char>)
    ensures
        r is Some <==> (i < 0xD800 || 0xE000 <= i < 0x110000),
        r matches Some(c) ==> c as u32 == i,
;

// ---------------------------------------------------------------- numerals

/// The character of one digit. Digits past nine are letters.
pub open spec fn digit_char(d: int, upper: bool) -> char {
    if d < 10 {
        ('0' as int + d) as char
    } else if upper {
        ('A' as int + d - 10) as char
    } else {
        ('a' as int + d - 10) as char
    }
}

/// The numeral of `n` in the given base, without leading zeros.
pub open spec fn numeral(n: nat, base: nat, upper: bool) -> Seq<char>
    decreases n,
{
    if n < base || base < 2 {
        seq![digit_char(n as int, upper)]
    } else {
        proof {
            assert(n / base < n) by (nonlinear_arith)
                requires
                    n >= base,
                    base >= 2,
            ;
        }
        numeral(n / base, base, upper).push(digit_char((n % base) as int, upper))
    }
}

/// The decimal numeral of an integer, with a leading minus sign where it is negative.
pub open spec fn decimal(n: int) -> Seq<char> {
    if n < 0 {
        seq!['-'] + numeral((-n) as nat, 10, false)
    } else {
        numeral(n as nat, 10, false)
    }
}

/// The lower-case hexadecimal numeral of `n`.
pub open spec fn hexadecimal(n: nat) -> Seq<char> {
    numeral(n, 16, false)
}

/// `s` with as many zeros before it as the width asks for.
pub open spec fn zero_padded(s: Seq<char>, width: nat) -> Seq<char> {
    if s.len() >= width {
        s
    } else {
        Seq::new((width - s.len()) as nat, |i: int| '0') + s
    }
}

proof fn lemma_quotient_shrinks(n: nat, base: nat)
    requires
        n >= base >= 2,
    ensures
        n / base < n,
{
    assert(n / base < n) by (nonlinear_arith)
        requires
            n >= base,
            base >= 2,
    ;
}

fn digit(d: u8, upper: bool) -> (c: char)
    requires
        d < 16,
    ensures
        c == digit_char(d as int, upper),
{
    if d < 10 {
        (0x30 + d) as char
    } else if upper {
        (0x41 + (d - 10)) as char
    } else {
        (0x61 + (d - 10)) as char
    }
}

/// Appends the numeral of `n` in a base of at most sixteen.
pub fn push_numeral(out: &mut String, n: u128, base: u128, upper: bool)
    requires
        2 <= base <= 16,
    ensures
        final(out)@ == old(out)@ + numeral(n as nat, base as nat, upper),
    decreases n,
{
    if n < base {
        out.push(digit(n as u8, upper));
    } else {
        proof {
            lemma_quotient_shrinks(n as nat, base as nat);
        }
        push_numeral(out, n / base, base, upper);
        out.push(digit((n % base) as u8, upper));
    }
}

/// Appends the decimal numeral of `n`.
pub fn push_decimal(out: &mut String, n: i128)
    requires
        n > i128::MIN,
    ensures
        final(out)@ == old(out)@ + decimal(n as int),
{
    if n < 0 {
        out.push('-');
        push_numeral(out, (-n) as u128, 10, false);
    } else {
        push_numeral(out, n as u128, 10, false);
    }
}

/// Appends the lower-case hexadecimal numeral of `n`.
pub fn push_hex(out: &mut String, n: u64)
    ensures
        final(out)@ == old(out)@ + hexadecimal(n as nat),
{
    push_numeral(out, n as u128, 16, false);
}

/// The machine word that holds a handle, as an unsigned number.
pub open spec fn word_bits(v: isize) -> nat {
    if v < 0 {
        (v + usize::MAX + 1) as nat
    } else {
        v as nat
    }
}

/// Appends the bits of a handle in lower-case hexadecimal.
pub fn push_hex_handle(out: &mut String, v: isize)
    ensures
        final(out)@ == old(out)@ + hexadecimal(word_bits(v)),
{
    if v < 0 {
        let bits: i128 = v as i128 + usize::MAX as i128 + 1;
        push_numeral(out, bits as u128, 16, false);
    } else {
        push_numeral(out, v as u128, 16, false);
    }
}

/// What `{:?}` prints for a string: quoted and escaped.
pub uninterp spec fn debug_text(s: Seq<char>) -> Seq<char>;

/// The `Debug` form of a string, as `format!` with `{:?}` gives it: a function of the text
/// alone.
#[verifier::external_body]
pub(crate) fn debug_quoted(s: &str) -> (r: String)
    ensures
        r@ == debug_text(s@),
{
    format!("{:?}", s)
}

/// The number of hexadecimal digits that a 32-bit value has.
fn hex_width(n: u32) -> (w: usize)
    ensures
        w == numeral(n as nat, 16, true).len(),
        w == numeral(n as nat, 16, false).len(),
        1 <= w <= 8,
        n < 0x10 ==> w == 1,
        n < 0x100 ==> w <= 2,
    decreases n,
{
    if n < 16 {
        1
    } else {
        let shorter: usize = hex_width(n / 16);
        proof {
            lemma_hex_len(n as nat);
            lemma_hex_len_bound(n as nat, 8);
        }
        shorter + 1
    }
}

proof fn lemma_hex_len(n: nat)
    requires
        n >= 16,
    ensures
        numeral(n, 16, true).len() == numeral(n / 16, 16, true).len() + 1,
        numeral(n, 16, false).len() == numeral(n / 16, 16, false).len() + 1,
{
}

proof fn lemma_hex_len_bound(n: nat, digits: nat)
    requires
        1 <= digits <= 8,
        digits == 8 ==> n < 0x1_0000_0000,
        digits == 7 ==> n < 0x1000_0000,
        digits == 6 ==> n < 0x100_0000,
        digits == 5 ==> n < 0x10_0000,
        digits == 4 ==> n < 0x1_0000,
        digits == 3 ==> n < 0x1000,
        digits == 2 ==> n < 0x100,
        digits == 1 ==> n < 0x10,
    ensures
        numeral(n, 16, true).len() <= digits,
        numeral(n, 16, false).len() <= digits,
    decreases digits,
{
    if n >= 16 {
        lemma_hex_len(n);
        lemma_hex_len_bound(n / 16, (digits - 1) as nat);
    }
}

/// Appends a 32-bit value in hexadecimal, padded with zeros to at least `width` digits.
pub fn push_hex_padded(out: &mut String, n: u32, width: usize, upper: bool)
    ensures
        final(out)@ == old(out)@ + zero_padded(numeral(n as nat, 16, upper), width as nat),
{
    let ghost start = out@;
    let digits: usize = hex_width(n);
    let mut have: usize = digits;
    while have < width
        invariant
            digits <= have,
            digits >= width ==> have == digits,
            digits < width ==> have <= width,
            out@ == start + Seq::new((have - digits) as nat, |i: int| '0'),
        decreases width - have,
    {
        out.push('0');
        have += 1;
        assert(out@ =~= start + Seq::new((have - digits) as nat, |i: int| '0'));
    }
    push_numeral(out, n as u128, 16, upper);
    proof {
        let zeros = Seq::new((have - digits) as nat, |i: int| '0');
        let num = numeral(n as nat, 16, upper);
        assert(start + zeros + num =~= start + (zeros + num));
        if digits >= width {
            assert(start + zeros + num =~= start + num);
        } else {
            assert(zeros =~= Seq::new((width - num.len()) as nat, |i: int| '0'));
        }
    }
}

/// Every character of a decimal numeral is a digit.
proof fn lemma_numeral_digits(n: nat)
    ensures
        numeral(n, 10, false).len() >= 1,
        forall|i: int|
            0 <= i < numeral(n, 10, false).len() ==> '0' <= #[trigger] numeral(n, 10, false)[i]
                <= '9',
    decreases n,
{
    if n >= 10 {
        lemma_numeral_digits(n / 10);
    }
}

proof fn lemma_numeral_injective(a: nat, b: nat)
    requires
        numeral(a, 10, false) == numeral(b, 10, false),
    ensures
        a == b,
    decreases a,
{
    let na = numeral(a, 10, false);
    let nb = numeral(b, 10, false);
    lemma_numeral_digits(a / 10);
    lemma_numeral_digits(b / 10);
    if a < 10 {
        assert(na.len() == 1);
        assert(b < 10);
        assert(na[0] == nb[0]);
    } else {
        assert(na.len() > 1);
        assert(b >= 10);
        assert(na.drop_last() =~= numeral(a / 10, 10, false));
        assert(nb.drop_last() =~= numeral(b / 10, 10, false));
        lemma_numeral_injective(a / 10, b / 10);
        assert(na.last() == nb.last());
    }
}

/// A decimal numeral holds nothing but digits and the minus sign.
pub proof fn decimal_has_no_colon(n: int)
    ensures
        forall|i: int| 0 <= i < decimal(n).len() ==> #[trigger] decimal(n)[i] != ':',
{
    lemma_numeral_digits(n as nat);
    lemma_numeral_digits((-n) as nat);
}

/// Two integers with the same decimal numeral are the same integer.
pub proof fn decimal_injective(a: int, b: int)
    requires
        decimal(a) == decimal(b),
    ensures
        a == b,
{
    lemma_numeral_digits(if a < 0 { (-a) as nat } else { a as nat });
    lemma_numeral_digits(if b < 0 { (-b) as nat } else { b as nat });
    assert(decimal(a)[0] == decimal(b)[0]);
    assert(a >= 0 ==> '0' <= numeral(a as nat, 10, false)[0]);
    assert(b >= 0 ==> '0' <= numeral(b as nat, 10, false)[0]);
    if a < 0 {
        assert(b < 0);
        assert(decimal(a).skip(1) =~= numeral((-a) as nat, 10, false));
        assert(decimal(b).skip(1) =~= numeral((-b) as nat, 10, false));
        lemma_numeral_injective((-a) as nat, (-b) as nat);
    } else {
        assert(b >= 0);
        lemma_numeral_injective(a as nat, b as nat);
    }
}

/// A hex dump: two lower-case digits per byte, and a space before every eighth byte but the
/// first.
pub open spec fn hex_dump(bytes: Seq<u8>) -> Seq<char>
    decreases bytes.len(),
{
    if bytes.len() == 0 {
        seq![]
    } else {
        let at = bytes.len() - 1;
        let before = hex_dump(bytes.drop_last());
        let gap = if at > 0 && at % 8 == 0 {
            before.push(' ')
        } else {
            before
        };
        gap + zero_padded(numeral(bytes.last() as nat, 16, false), 2)
    }
}

/// The hex dump of a byte slice.
pub fn hex(bytes: &[u8]) -> (s: String)
    ensures
        s@ == hex_dump(bytes@),
{
    let mut s = String::new();
    let mut i: usize = 0;
    assert(bytes@.take(0) =~= seq![]);
    while i < bytes.len()
        invariant
            i <= bytes.len(),
            s@ == hex_dump(bytes@.take(i as int)),
        decreases bytes.len() - i,
    {
        assert(bytes@.take(i + 1).drop_last() =~= bytes@.take(i as int));
        if i > 0 && i % 8 == 0 {
            s.push(' ');
        }
        push_hex_padded(&mut s, bytes[i] as u32, 2, false);
        i += 1;
    }
    assert(bytes@.take(bytes.len() as int) =~= bytes@);
    s
}

// ---------------------------------------------------------------- UTF-16

pub open spec fn is_surrogate(u: u16) -> bool {
    0xD800 <= u < 0xE000
}

pub open spec fn is_high_surrogate(u: u16) -> bool {
    0xD800 <= u < 0xDC00
}

pub open spec fn is_low_surrogate(u: u16) -> bool {
    0xDC00 <= u < 0xE000
}

/// The UTF-16 code units of one character.
pub open spec fn utf16_units(c: char) -> Seq<u16> {
    let v = c as int;
    if v < 0x10000 {
        seq![v as u16]
    } else {
        seq![(0xD800 + (v - 0x10000) / 0x400) as u16, (0xDC00 + (v - 0x10000) % 0x400) as u16]
    }
}

/// The UTF-16 encoding of a text.
pub open spec fn encode_utf16(s: Seq<char>) -> Seq<u16>
    decreases s.len(),
{
    if s.len() == 0 {
        seq![]
    } else {
        utf16_units(s[0]) + encode_utf16(s.skip(1))
    }
}

/// The character that a high and a low surrogate stand for together.
pub open spec fn surrogate_pair(high: u16, low: u16) -> char {
    (0x10000 + (high - 0xD800) * 0x400 + (low - 0xDC00)) as char
}

/// The text of a sequence of UTF-16 code units. An unpaired surrogate becomes U+FFFD.
pub open spec fn decode_utf16(u: Seq<u16>) -> Seq<char>
    decreases u.len(),
{
    if u.len() == 0 {
        seq![]
    } else if !is_surrogate(u[0]) {
        seq![u[0] as char] + decode_utf16(u.skip(1))
    } else if is_high_surrogate(u[0]) && u.len() >= 2 && is_low_surrogate(u[1]) {
        seq![surrogate_pair(u[0], u[1])] + decode_utf16(u.skip(2))
    } else {
        seq!['\u{FFFD}'] + decode_utf16(u.skip(1))
    }
}

/// A character is its scalar value, and no scalar value is a surrogate.
pub proof fn lemma_char_value(c: char)
    ensures
        (c as int) as char == c,
        0 <= c as int <= 0xD7FF || 0xE000 <= c as int <= 0x10FFFF,
{
}

/// The text of a UTF-16 buffer, with U+FFFD for every unpaired surrogate.
pub fn utf16_lossy(units: &[u16]) -> (s: String)
    ensures
        s@ == decode_utf16(units@),
{
    let mut s = String::new();
    let mut i: usize = 0;
    assert(units@.skip(0) =~= units@);
    assert(s@ + decode_utf16(units@.skip(0)) =~= decode_utf16(units@));
    while i < units.len()
        invariant
            i <= units.len(),
            s@ + decode_utf16(units@.skip(i as int)) == decode_utf16(units@),
        decreases units.len() - i,
    {
        let ghost rest = units@.skip(i as int);
        let ghost before = s@;
        assert(rest.skip(1) =~= units@.skip(i + 1));
        let u: u16 = units[i];
        let mut c: char = '\u{FFFD}';
        let mut used: usize = 1;
        if u < 0xD800 || u >= 0xE000 {
            if let Some(plain) = char::from_u32(u as u32) {
                c = plain;
            }
        } else if u < 0xDC00 && i + 1 < units.len() && units[i + 1] >= 0xDC00 && units[i + 1]
            < 0xE000 {
            let low: u16 = units[i + 1];
            assert(rest.skip(2) =~= units@.skip(i + 2));
            let high_part: u32 = (u - 0xD800) as u32;
            let low_part: u32 = (low - 0xDC00) as u32;
            if let Some(joined) = char::from_u32(0x10000 + high_part * 0x400 + low_part) {
                c = joined;
            }
            used = 2;
        }
        s.push(c);
        i += used;
        proof {
            let tail = decode_utf16(units@.skip(i as int));
            lemma_char_value(c);
            assert(decode_utf16(rest) == seq![c] + tail);
            assert(before.push(c) + tail =~= before + (seq![c] + tail));
        }
    }
    assert(units@.skip(i as int) =~= seq![]);
    s
}

/// The NUL-terminated UTF-16 form of a text.
pub fn wide(s: &str) -> (units: Vec<u16>)
    ensures
        units@ == encode_utf16(s@).push(0),
{
    let mut units: Vec<u16> = Vec::new();
    let total: usize = s.unicode_len();
    let mut i: usize = 0;
    assert(s@.skip(0) =~= s@);
    while i < total
        invariant
            i <= total == s@.len(),
            units@ + encode_utf16(s@.skip(i as int)) =~= encode_utf16(s@),
        decreases total - i,
    {
        let ghost before = units@;
        let c: char = s.get_char(i);
        let v: u32 = c as u32;
        assert(s@.skip(i as int).skip(1) =~= s@.skip(i + 1));
        if v < 0x10000 {
            units.push(v as u16);
        } else {
            units.push((0xD800 + (v - 0x10000) / 0x400) as u16);
            units.push((0xDC00 + (v - 0x10000) % 0x400) as u16);
        }
        assert(units@ =~= before + utf16_units(c));
        i += 1;
    }
    units.push(0);
    units
}

/// Decoding what was encoded gives the text back, whatever its characters are.
pub proof fn utf16_round_trip(s: Seq<char>)
    ensures
        decode_utf16(encode_utf16(s)) == s,
    decreases s.len(),
{
    if s.len() > 0 {
        let head = utf16_units(s[0]);
        let rest = encode_utf16(s.skip(1));
        let all = encode_utf16(s);
        utf16_round_trip(s.skip(1));
        assert(all =~= head + rest);
        lemma_char_value(s[0]);
        if (s[0] as int) < 0x10000 {
            assert(all.skip(1) =~= rest);
        } else {
            assert(all.skip(2) =~= rest);
        }
        assert(seq![s[0]] + s.skip(1) =~= s);
    }
}

// ---------------------------------------------------------------- laws of numerals and dumps

/// The value of a digit; sixteen for a character that is none.
pub open spec fn digit_value(c: char) -> nat {
    if '0' <= c <= '9' {
        (c as int - 0x30) as nat
    } else if 'a' <= c <= 'f' {
        (c as int - 0x61 + 10) as nat
    } else if 'A' <= c <= 'F' {
        (c as int - 0x41 + 10) as nat
    } else {
        16
    }
}

/// The number that a row of digits stands for.
pub open spec fn digits_value(s: Seq<char>, base: nat) -> nat
    decreases s.len(),
{
    if s.len() == 0 {
        0
    } else {
        digits_value(s.drop_last(), base) * base + digit_value(s.last())
    }
}

/// The number that a decimal text stands for.
pub open spec fn decimal_value(s: Seq<char>) -> int {
    if s.len() > 0 && s[0] == '-' {
        -(digits_value(s.skip(1), 10) as int)
    } else {
        digits_value(s, 10) as int
    }
}

/// A numeral stands for its number, holds digits of its base in the case that was asked for, and
/// has no zero before the others.
pub proof fn numerals_read_back(n: nat, base: nat, upper: bool)
    requires
        2 <= base <= 16,
    ensures
        digits_value(numeral(n, base, upper), base) == n,
        numeral(n, base, upper).len() >= 1,
        numeral(n, base, upper)[0] == '0' <==> n == 0,
        n == 0 ==> numeral(n, base, upper).len() == 1,
        forall|i: int|
            0 <= i < numeral(n, base, upper).len() ==> {
                let c = #[trigger] numeral(n, base, upper)[i];
                &&& digit_value(c) < base
                &&& upper ==> !('a' <= c <= 'f')
                &&& !upper ==> !('A' <= c <= 'F')
            },
    decreases n,
{
    let s = numeral(n, base, upper);
    if n < base {
        assert(s.drop_last() =~= seq![]);
        assert(digits_value(s.drop_last(), base) == 0);
        assert(0 * base == 0);
    } else {
        lemma_quotient_shrinks(n, base);
        let q = n / base;
        let r = n % base;
        numerals_read_back(q, base, upper);
        assert(q >= 1) by (nonlinear_arith)
            requires
                q == n / base,
                n >= base,
                base >= 2,
        ;
        assert(0 <= r < base) by (nonlinear_arith)
            requires
                r == n % base,
                base >= 2,
        ;
        assert(q * base + r == n) by {
            vstd::arithmetic::div_mod::lemma_fundamental_div_mod(n as int, base as int);
            assert(base * q == q * base) by (nonlinear_arith);
        }
        assert(s.drop_last() =~= numeral(q, base, upper));
    }
}

/// A decimal numeral stands for its number, and begins with a minus sign exactly if that is
/// negative.
pub proof fn decimals_read_back(n: int)
    ensures
        decimal_value(decimal(n)) == n,
        decimal(n).len() > 0,
        decimal(n)[0] == '-' <==> n < 0,
        decimal(n)[0] == '0' <==> n == 0,
{
    let m = if n < 0 {
        (-n) as nat
    } else {
        n as nat
    };
    numerals_read_back(m, 10, false);
    if n < 0 {
        assert(decimal(n).skip(1) =~= numeral(m, 10, false));
    } else {
        assert(digit_value(decimal(n)[0]) < 10);
    }
}

/// A hexadecimal numeral stands for its number and is in lower case.
pub proof fn hexadecimals_read_back(n: nat)
    ensures
        digits_value(hexadecimal(n), 16) == n,
        forall|i: int|
            0 <= i < hexadecimal(n).len() ==> {
                let c = #[trigger] hexadecimal(n)[i];
                '0' <= c <= '9' || 'a' <= c <= 'f'
            },
{
    numerals_read_back(n, 16, false);
}

proof fn lemma_leading_zeros(s: Seq<char>, zeros: nat, base: nat)
    ensures
        digits_value(Seq::new(zeros, |i: int| '0') + s, base) == digits_value(s, base),
    decreases zeros + s.len(),
{
    let z = Seq::new(zeros, |i: int| '0');
    let all = z + s;
    if s.len() > 0 {
        assert(all.drop_last() =~= z + s.drop_last());
        assert(all.last() == s.last());
        lemma_leading_zeros(s.drop_last(), zeros, base);
    } else if zeros > 0 {
        let fewer = Seq::new((zeros - 1) as nat, |i: int| '0');
        assert(all.drop_last() =~= fewer + s);
        assert(all.last() == '0');
        lemma_leading_zeros(s, (zeros - 1) as nat, base);
        assert(0 * base == 0);
    } else {
        assert(all =~= s);
    }
}

/// Padding puts nothing but zeros before a text, as many as are missing: the number stays.
pub proof fn padding_keeps_the_number(s: Seq<char>, width: nat, base: nat)
    ensures
        ({
            let p = zero_padded(s, width);
            &&& p.len() >= s.len() && p.len() >= width
            &&& p.len() == s.len() || p.len() == width
            &&& p.skip(p.len() - s.len()) == s
            &&& forall|i: int| 0 <= i < p.len() - s.len() ==> #[trigger] p[i] == '0'
            &&& digits_value(p, base) == digits_value(s, base)
        }),
{
    let p = zero_padded(s, width);
    assert(p.skip(p.len() - s.len()) =~= s);
    if s.len() < width {
        lemma_leading_zeros(s, (width - s.len()) as nat, base);
    }
}

/// The bits of a handle are those of its word: they differ from the handle by a whole turn or
/// not at all.
pub proof fn handles_keep_their_bits(v: isize)
    ensures
        0 <= word_bits(v) <= usize::MAX,
        v >= 0 ==> word_bits(v) == v,
        v < 0 ==> word_bits(v) - v == usize::MAX + 1,
{
}

/// Where a byte stands in a dump.
pub open spec fn dump_place(k: int) -> int {
    2 * k + k / 8
}

proof fn lemma_byte_digits(b: u8)
    ensures
        zero_padded(numeral(b as nat, 16, false), 2).len() == 2,
        digits_value(zero_padded(numeral(b as nat, 16, false), 2), 16) == b,
{
    lemma_hex_len_bound(b as nat, 2);
    numerals_read_back(b as nat, 16, false);
    padding_keeps_the_number(numeral(b as nat, 16, false), 2, 16);
}

/// In a dump every byte has its two digits, in order, and there is a space between each eight
/// bytes and the next.
pub proof fn dumps_read_back(bytes: Seq<u8>, k: int)
    requires
        0 <= k < bytes.len(),
    ensures
        hex_dump(bytes).len() == dump_place(bytes.len() - 1) + 2,
        digits_value(hex_dump(bytes).subrange(dump_place(k), dump_place(k) + 2), 16) == bytes[k],
        k > 0 && k % 8 == 0 ==> hex_dump(bytes)[dump_place(k) - 1] == ' ',
    decreases bytes.len(),
{
    let d = hex_dump(bytes);
    let front = bytes.drop_last();
    let before = hex_dump(front);
    let last = zero_padded(numeral(bytes.last() as nat, 16, false), 2);
    let at = bytes.len() - 1;
    lemma_byte_digits(bytes.last());
    if front.len() > 0 {
        dumps_read_back(front, if k < at {
            k
        } else {
            at - 1
        });
    } else {
        assert(before =~= seq![]);
    }
    assert(d.len() == dump_place(at) + 2);
    if k == at {
        assert(d.subrange(dump_place(k), dump_place(k) + 2) =~= last);
    } else {
        assert(d.subrange(dump_place(k), dump_place(k) + 2) =~= before.subrange(
            dump_place(k),
            dump_place(k) + 2,
        ));
        assert(front[k] == bytes[k]);
    }
}

// ---------------------------------------------------------------- laws of UTF-16

/// A character of the basic plane is one unit with its value; any other is a high and a low
/// surrogate that hold the twenty bits of its value past the basic plane.
pub proof fn units_hold_the_character(c: char)
    ensures
        (c as int) < 0x1_0000 ==> encode_utf16(seq![c]).len() == 1 && encode_utf16(seq![c])[0]
            == c as int,
        (c as int) >= 0x1_0000 ==> {
            let u = encode_utf16(seq![c]);
            &&& u.len() == 2
            &&& 0xD800 <= u[0] < 0xDC00
            &&& 0xDC00 <= u[1] < 0xE000
            &&& 0x1_0000 + (u[0] - 0xD800) * 0x400 + (u[1] - 0xDC00) == c as int
        },
{
    lemma_char_value(c);
    assert(seq![c].skip(1) =~= seq![]);
    assert(encode_utf16(seq![c].skip(1)) =~= seq![]);
    assert(encode_utf16(seq![c]) =~= utf16_units(c));
}

/// A text is encoded character by character.
pub proof fn encoding_is_piecewise(a: Seq<char>, b: Seq<char>)
    ensures
        encode_utf16(a + b) == encode_utf16(a) + encode_utf16(b),
    decreases a.len(),
{
    if a.len() == 0 {
        assert(a + b =~= b);
        assert(encode_utf16(a) + encode_utf16(b) =~= encode_utf16(b));
    } else {
        assert((a + b).skip(1) =~= a.skip(1) + b);
        encoding_is_piecewise(a.skip(1), b);
        assert(encode_utf16(a + b) =~= encode_utf16(a) + encode_utf16(b));
    }
}

/// Whatever comes after a text that is encoded, the text is decoded first.
pub proof fn decoding_takes_the_text_first(s: Seq<char>, rest: Seq<u16>)
    ensures
        decode_utf16(encode_utf16(s) + rest) == s + decode_utf16(rest),
    decreases s.len(),
{
    if s.len() == 0 {
        assert(encode_utf16(s) + rest =~= rest);
        assert(s + decode_utf16(rest) =~= decode_utf16(rest));
    } else {
        let tail = encode_utf16(s.skip(1)) + rest;
        let all = encode_utf16(s) + rest;
        decoding_takes_the_text_first(s.skip(1), rest);
        lemma_char_value(s[0]);
        if (s[0] as int) < 0x1_0000 {
            assert(all.skip(1) =~= tail);
        } else {
            assert(all.skip(2) =~= tail);
        }
        assert(seq![s[0]] + (s.skip(1) + decode_utf16(rest)) =~= s + decode_utf16(rest));
    }
}

/// A surrogate without its other half becomes U+FFFD, and what follows it is decoded as if it
/// stood alone.
pub proof fn lone_surrogates_are_replaced(u: u16, rest: Seq<u16>)
    requires
        0xD800 <= u < 0xE000,
        u < 0xDC00 ==> rest.len() == 0 || !(0xDC00 <= rest[0] < 0xE000),
    ensures
        decode_utf16(seq![u] + rest) == seq!['\u{FFFD}'] + decode_utf16(rest),
{
    let all = seq![u] + rest;
    assert(all.skip(1) =~= rest);
    assert(rest.len() > 0 ==> all[1] == rest[0]);
}

// ---------------------------------------------------------------- laws of lines

/// The line holds the part, without a gap.
pub open spec fn shows(line: Seq<char>, part: Seq<char>) -> bool {
    exists|i: int| #[trigger] stands_at(line, part, i)
}

/// The part stands in the line from `i` on.
pub open spec fn stands_at(line: Seq<char>, part: Seq<char>, i: int) -> bool {
    0 <= i && i + part.len() <= line.len() && line.subrange(i, i + part.len()) == part
}

/// What is appended to a line is shown, and so is everything that was shown before.
pub proof fn lemma_appended(line: Seq<char>, name: Seq<char>, value: Seq<char>)
    ensures
        shows(line + name + value, name + value),
        forall|p: Seq<char>| shows(line, p) ==> #[trigger] shows(line + name + value, p),
{
    let all = line + name + value;
    assert(stands_at(all, name + value, line.len() as int)) by {
        assert(all.subrange(line.len() as int, all.len() as int) =~= name + value);
    }
    assert forall|p: Seq<char>| shows(line, p) implies #[trigger] shows(all, p) by {
        let i = choose|i: int| stands_at(line, p, i);
        assert(all.subrange(i, i + p.len()) =~= line.subrange(i, i + p.len()));
        assert(stands_at(all, p, i));
    }
}

/// Digits below ten are decimal digits; those above are letters of the case that was asked for.
pub proof fn digits_follow_the_case(d: int)
    requires
        0 <= d < 16,
    ensures
        digit_value(digit_char(d, true)) == d,
        digit_value(digit_char(d, false)) == d,
        d < 10 ==> '0' <= digit_char(d, true) <= '9' && digit_char(d, true) == digit_char(d, false),
        d >= 10 ==> 'A' <= digit_char(d, true) <= 'F' && 'a' <= digit_char(d, false) <= 'f',
{
}

} // verus!
