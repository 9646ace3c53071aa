//! Byte strings: comparison, prefixes and decimal numbers.
//!
//! Everything the modem and the charger say is ASCII, so text is handled
//! as bytes throughout.

use vstd::prelude::*;

verus! {

/// ASCII carriage return.
pub const CR: u8 = 13;

/// ASCII line feed.
pub const LF: u8 = 10;

/// ASCII horizontal tab.
pub const TAB: u8 = 9;

/// ASCII `0`.
pub const ZERO: u8 = 48;

/// ASCII `+`.
pub const PLUS: u8 = 43;

/// ASCII `-`.
pub const MINUS: u8 = 45;

/// Whether `b` is one of the ASCII digits `0` to `9`.
pub open spec fn is_digit(b: u8) -> bool {
    48 <= b <= 57
}

/// Whether `line` begins with `prefix`.
pub open spec fn has_prefix(line: Seq<u8>, prefix: Seq<u8>) -> bool {
    prefix.len() <= line.len() && line.subrange(0, prefix.len() as int) == prefix
}

/// Whether `input` holds `tag` at position `at`.
pub open spec fn has_tag_at(input: Seq<u8>, at: int, tag: Seq<u8>) -> bool {
    0 <= at && at + tag.len() <= input.len() && input.subrange(at, at + tag.len()) == tag
}

/// The position behind the run of digits that begins at `from`.
pub open spec fn digit_end(s: Seq<u8>, from: int) -> int
    decreases s.len() - from,
{
    if 0 <= from < s.len() && is_digit(s[from]) {
        digit_end(s, from + 1)
    } else {
        from
    }
}

/// The number that a string of digits writes, most significant digit first.
pub open spec fn digits_value(s: Seq<u8>) -> nat
    decreases s.len(),
{
    if s.len() == 0 {
        0
    } else {
        digits_value(s.drop_last()) * 10 + (s.last() - 48) as nat
    }
}

/// The shortest decimal writing of `n`.
pub open spec fn decimal(n: nat) -> Seq<u8>
    decreases n,
{
    if n < 10 {
        seq![(48 + n) as u8]
    } else {
        decimal(n / 10).push((48 + n % 10) as u8)
    }
}

/// What reading an unsigned number at `from` gives when values up to
/// `limit` are allowed: the value and the position behind its last digit.
/// There is no result when no digit stands at `from` or the digits write a
/// number above `limit`.
pub open spec fn unsigned_at(s: Seq<u8>, from: int, limit: nat) -> Option<(nat, int)> {
    let end = digit_end(s, from);
    if 0 <= from < end && digits_value(s.subrange(from, end)) <= limit {
        Some((digits_value(s.subrange(from, end)), end))
    } else {
        None
    }
}

/// What reading a signed 32-bit number at `from` gives: an optional `+` or
/// `-`, then digits. There is no result when the digits are missing or the
/// number does not fit.
pub open spec fn signed_at(s: Seq<u8>, from: int) -> Option<(int, int)> {
    if 0 <= from < s.len() && s[from] == 45 {
        match unsigned_at(s, from + 1, 0x8000_0000) {
            Some((v, end)) => Some((-(v as int), end)),
            None => None,
        }
    } else if 0 <= from < s.len() && s[from] == 43 {
        match unsigned_at(s, from + 1, 0x7fff_ffff) {
            Some((v, end)) => Some((v as int, end)),
            None => None,
        }
    } else {
        match unsigned_at(s, from, 0x7fff_ffff) {
            Some((v, end)) => Some((v as int, end)),
            None => None,
        }
    }
}

/// A longer run of digits writes a number at least as large.
pub proof fn lemma_digits_value_grows(s: Seq<u8>, from: int, mid: int, end: int)
    requires
        0 <= from <= mid <= end <= s.len(),
        forall|j: int| from <= j < end ==> is_digit(#[trigger] s[j]),
    ensures
        digits_value(s.subrange(from, mid)) <= digits_value(s.subrange(from, end)),
    decreases end - mid,
{
    if mid < end {
        lemma_digits_value_grows(s, from, mid, end - 1);
        assert(s.subrange(from, end).drop_last() == s.subrange(from, end - 1));
        assert(is_digit(s[end - 1]));
    }
}

/// Whether two byte strings are equal.
pub fn bytes_eq(a: &[u8], b: &[u8]) -> (r: bool)
    ensures
        r == (a@ == b@),
{
    if a.len() != b.len() {
        return false;
    }
    let mut i: usize = 0;
    while i < a.len()
        invariant
            i <= a.len(),
            a.len() == b.len(),
            forall|j: int| 0 <= j < i ==> a[j] == b[j],
        decreases a.len() - i,
    {
        if a[i] != b[i] {
            return false;
        }
        i += 1;
    }
    assert(a@ =~= b@);
    true
}

/// Whether `input` holds `tag` at position `at`.
pub fn tag_at(input: &[u8], at: usize, tag: &[u8]) -> (r: bool)
    ensures
        r == has_tag_at(input@, at as int, tag@),
{
    if at > input.len() || tag.len() > input.len() - at {
        return false;
    }
    let mut i: usize = 0;
    while i < tag.len()
        invariant
            i <= tag.len(),
            at + tag.len() <= input.len(),
            forall|j: int| 0 <= j < i ==> input[at + j] == tag[j],
        decreases tag.len() - i,
    {
        if input[at + i] != tag[i] {
            assert(input@.subrange(at as int, at + tag.len())[i as int] != tag@[i as int]);
            return false;
        }
        i += 1;
    }
    assert(input@.subrange(at as int, at + tag.len()) =~= tag@);
    true
}

/// Whether `line` begins with `prefix`.
pub fn starts_with(line: &[u8], prefix: &[u8]) -> (r: bool)
    ensures
        r == has_prefix(line@, prefix@),
{
    tag_at(line, 0, prefix)
}

/// Reads an unsigned decimal number at `from`, allowing values up to
/// `limit`.
pub fn read_unsigned(input: &[u8], from: usize, limit: u64) -> (r: Option<(u64, usize)>)
    requires
        limit <= 0xffff_ffff_ffff,
    ensures
        match unsigned_at(input@, from as int, limit as nat) {
            Some((v, end)) => r == Some((v as u64, end as usize)) && v <= limit && from < end
                <= input@.len(),
            None => r.is_none(),
        },
{
    if from >= input.len() {
        return None;
    }
    let mut i: usize = from;
    let mut value: u64 = 0;
    while i < input.len() && input[i] >= 48 && input[i] <= 57
        invariant
            from <= i <= input.len(),
            limit <= 0xffff_ffff_ffff,
            forall|j: int| from <= j < i ==> is_digit(#[trigger] input@[j]),
            digit_end(input@, from as int) == digit_end(input@, i as int),
            value == digits_value(input@.subrange(from as int, i as int)),
            value <= limit,
        decreases input.len() - i,
    {
        let digit: u64 = (input[i] - 48) as u64;
        let next: u64 = value * 10 + digit;
        proof {
            assert(input@.subrange(from as int, i + 1).drop_last() == input@.subrange(
                from as int,
                i as int,
            ));
            assert(next == digits_value(input@.subrange(from as int, i + 1)));
        }
        if next > limit {
            proof {
                lemma_digit_end_bounds(input@, i as int);
                let end = digit_end(input@, from as int);
                lemma_digits_value_grows(input@, from as int, i + 1, end);
            }
            return None;
        }
        value = next;
        i += 1;
    }
    if i == from {
        None
    } else {
        Some((value, i))
    }
}

/// The run of digits that begins at `from` ends inside the string, and
/// holds digits only.
pub proof fn lemma_digit_end_bounds(s: Seq<u8>, from: int)
    requires
        0 <= from <= s.len(),
    ensures
        from <= digit_end(s, from) <= s.len(),
        forall|j: int| from <= j < digit_end(s, from) ==> is_digit(#[trigger] s[j]),
        digit_end(s, from) < s.len() ==> !is_digit(s[digit_end(s, from)]),
    decreases s.len() - from,
{
    if from < s.len() && is_digit(s[from]) {
        lemma_digit_end_bounds(s, from + 1);
    }
}

/// Reads a decimal number that fits 32 unsigned bits.
pub fn read_u32(input: &[u8], from: usize) -> (r: Option<(u32, usize)>)
    ensures
        match unsigned_at(input@, from as int, 0xffff_ffff) {
            Some((v, end)) => r == Some((v as u32, end as usize)) && v <= 0xffff_ffff && from < end
                <= input@.len(),
            None => r.is_none(),
        },
{
    match read_unsigned(input, from, 0xffff_ffff) {
        Some((v, end)) => Some((v as u32, end)),
        None => None,
    }
}

/// Reads a signed decimal number that fits 32 bits: an optional sign, then
/// digits.
pub fn read_i32(input: &[u8], from: usize) -> (r: Option<(i32, usize)>)
    ensures
        match signed_at(input@, from as int) {
            Some((v, end)) => r == Some((v as i32, end as usize)) && -0x8000_0000 <= v
                <= 0x7fff_ffff && from < end <= input@.len(),
            None => r.is_none(),
        },
{
    if from < input.len() && input[from] == MINUS {
        match read_unsigned(input, from + 1, 0x8000_0000) {
            Some((v, end)) => Some(((0 - (v as i64)) as i32, end)),
            None => None,
        }
    } else if from < input.len() && input[from] == PLUS {
        match read_unsigned(input, from + 1, 0x7fff_ffff) {
            Some((v, end)) => Some((v as i32, end)),
            None => None,
        }
    } else {
        match read_unsigned(input, from, 0x7fff_ffff) {
            Some((v, end)) => Some((v as i32, end)),
            None => None,
        }
    }
}

/// Appends `bytes` to `out`.
pub fn push_bytes(out: &mut Vec<u8>, bytes: &[u8])
    ensures
        final(out)@ == old(out)@ + bytes@,
{
    let mut i: usize = 0;
    while i < bytes.len()
        invariant
            i <= bytes.len(),
            out@ == old(out)@ + bytes@.subrange(0, i as int),
        decreases bytes.len() - i,
    {
        out.push(bytes[i]);
        i += 1;
        assert(bytes@.subrange(0, i as int) == bytes@.subrange(0, i - 1).push(bytes@[i - 1]));
    }
    assert(bytes@.subrange(0, bytes.len() as int) == bytes@);
}

/// Appends the decimal writing of `n` to `out`.
pub fn push_decimal(out: &mut Vec<u8>, n: u64)
    ensures
        final(out)@ == old(out)@ + decimal(n as nat),
    decreases n,
{
    if n >= 10 {
        push_decimal(out, n / 10);
    }
    out.push(ZERO + (n % 10) as u8);
}

/// An ASCII string has one byte for each of its characters.
pub proof fn lemma_ascii_len(s: &str)
    requires
        vstd::utf8::is_ascii_chars(s@),
    ensures
        vstd::string::StringSliceAdditionalSpecFns::spec_bytes(s).len() == s@.len(),
        forall|i: int|
            0 <= i < s@.len() ==> vstd::string::StringSliceAdditionalSpecFns::spec_bytes(s)[i]
                == #[trigger] s@[i] as u8,
{
    vstd::utf8::is_ascii_chars_encode_utf8(s@);
}

/// The number that a text writes as a whole, where it writes an unsigned
/// number of 32 bits: an optional `+`, then digits and nothing else.
pub open spec fn whole_u32(s: Seq<u8>) -> Option<int> {
    let from: int = if s.len() > 0 && s[0] == 43 {
        1
    } else {
        0
    };
    match unsigned_at(s, from, 0xffff_ffff) {
        Some((v, end)) => if end == s.len() {
            Some(v as int)
        } else {
            None
        },
        None => None,
    }
}

/// The number that a text writes as a whole, where it writes a signed
/// number of 32 bits: an optional `+` or `-`, then digits and nothing
/// else.
pub open spec fn whole_i32(s: Seq<u8>) -> Option<int> {
    match signed_at(s, 0) {
        Some((v, end)) => if end == s.len() {
            Some(v)
        } else {
            None
        },
        None => None,
    }
}

/// Reads a text as a whole as an unsigned number of 32 bits.
pub fn parse_u32(s: &[u8]) -> (r: Option<u32>)
    ensures
        match whole_u32(s@) {
            Some(v) => r == Some(v as u32) && 0 <= v <= 0xffff_ffff,
            None => r.is_none(),
        },
{
    let from: usize = if s.len() > 0 && s[0] == PLUS {
        1
    } else {
        0
    };
    assert(s@.len() == s.len());
    match read_unsigned(s, from, 0xffff_ffff) {
        Some((v, end)) => if end == s.len() {
            Some(v as u32)
        } else {
            None
        },
        None => None,
    }
}

/// Reads a text as a whole as a signed number of 32 bits.
pub fn parse_i32(s: &[u8]) -> (r: Option<i32>)
    ensures
        match whole_i32(s@) {
            Some(v) => r == Some(v as i32) && -0x8000_0000 <= v <= 0x7fff_ffff,
            None => r.is_none(),
        },
{
    assert(s@.len() == s.len());
    match read_i32(s, 0) {
        Some((v, end)) => if end == s.len() {
            Some(v)
        } else {
            None
        },
        None => None,
    }
}

/// The decimal writing of a number holds digits only, at least one, and
/// writes the number.
pub proof fn lemma_decimal_digits(n: nat)
    ensures
        decimal(n).len() >= 1,
        forall|i: int| 0 <= i < decimal(n).len() ==> is_digit(#[trigger] decimal(n)[i]),
        digits_value(decimal(n)) == n,
    decreases n,
{
    if n < 10 {
        assert(decimal(n).drop_last() =~= Seq::<u8>::empty());
        assert(digits_value(decimal(n)) == n) by {
            reveal_with_fuel(digits_value, 2);
        }
    } else {
        lemma_decimal_digits(n / 10);
        let head = decimal(n / 10);
        let digit = (48 + n % 10) as u8;
        assert(decimal(n) == head.push(digit));
        assert(decimal(n).drop_last() =~= head);
        assert(decimal(n).last() == digit);
    }
}

/// A run of digits ends where the digits end.
pub proof fn lemma_digit_end_is(s: Seq<u8>, from: int, end: int)
    requires
        0 <= from <= end <= s.len(),
        forall|j: int| from <= j < end ==> is_digit(#[trigger] s[j]),
        end == s.len() || !is_digit(s[end]),
    ensures
        digit_end(s, from) == end,
    decreases end - from,
{
    if from < end {
        lemma_digit_end_is(s, from + 1, end);
    }
}

/// Numbers read back as written: where the decimal writing of a number
/// stands in a text and no digit follows it, reading an unsigned number at
/// its first digit gives the number and the position behind its last digit.
pub proof fn lemma_decimal_round_trip(prefix: Seq<u8>, n: nat, rest: Seq<u8>, limit: nat)
    requires
        n <= limit,
        rest.len() == 0 || !is_digit(rest[0]),
    ensures
        unsigned_at(prefix + decimal(n) + rest, prefix.len() as int, limit) == Some(
            (n, prefix.len() as int + decimal(n).len()),
        ),
{
    let s = prefix + decimal(n) + rest;
    let from = prefix.len() as int;
    let end = from + decimal(n).len();
    lemma_decimal_digits(n);
    assert forall|j: int| from <= j < end implies is_digit(#[trigger] s[j]) by {
        assert(s[j] == decimal(n)[j - from]);
    }
    if rest.len() > 0 {
        assert(s[end] == rest[0]);
    }
    lemma_digit_end_is(s, from, end);
    assert(s.subrange(from, end) =~= decimal(n));
}

} // verus!
