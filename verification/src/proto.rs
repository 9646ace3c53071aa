//! The messages that the node sends to the backend, and their wire form.
//!
//! The messages are protocol buffers:
//!
//! ```text
//! Reading     { battery_voltage = 1, battery_current = 2, panel_voltage = 3,
//!               panel_power = 4, load_current = 5 : int32 }
//! UploadEntry { offset_in_seconds = 1 : int32, reading = 2 : Reading }
//! Upload      { start_timestamp = 1 : int64, entries = 2 : repeated UploadEntry }
//! SystemEvent { timestamp = 1 : int64,
//!               oneof event { startup_event = 2, offline_event = 3, online_event = 4 } }
//! StartupEvent, OfflineEvent, OnlineEvent { uptime_seconds = 1 : uint32 }
//! ```
//!
//! A number that is zero is left out, a message inside a message is
//! written with its length in front, and every number is a varint.

use crate::bounded::{Entries, MAX_ENTRIES, UPLOAD_MAX_MESSAGE_SIZE};
use crate::sensor::ve_direct::Reading;
use crate::text::push_bytes;
use vstd::prelude::*;

verus! {

/// The most bytes that the wire form of a system event takes.
pub const EVENT_MAX_MESSAGE_SIZE: usize = 19;

/// One averaged reading with the seconds from the start of its upload.
#[derive(Debug, Clone, Copy, PartialEq, Eq)]
pub struct UploadEntry {
    pub offset_in_seconds: i32,
    pub reading: Reading,
}

/// A batch of readings: the UTC second at which it began, and its entries
/// in the order they were taken.
#[derive(Debug, PartialEq, Eq)]
pub struct Upload {
    pub start_timestamp: i64,
    pub entries: Entries,
}

/// What an [`Upload`] holds.
pub struct UploadView {
    pub start_timestamp: int,
    pub entries: Seq<UploadEntry>,
}

impl View for Upload {
    type V = UploadView;

    open spec fn view(&self) -> UploadView {
        UploadView { start_timestamp: self.start_timestamp as int, entries: self.entries@ }
    }
}

/// What happened to the node.
#[derive(Debug, Clone, Copy, PartialEq, Eq)]
pub enum Event {
    /// The node came up and reached the network.
    StartupEvent { uptime_seconds: u32 },
    /// The node is about to put the modem to sleep.
    OfflineEvent { uptime_seconds: u32 },
    /// The node woke the modem.
    OnlineEvent { uptime_seconds: u32 },
}

/// A lifecycle event with the UTC second at which it happened.
#[derive(Debug, Clone, Copy, PartialEq, Eq)]
pub struct SystemEvent {
    pub timestamp: i64,
    pub event: Option<Event>,
}

/// The varint of `n`: seven bits to a byte, least significant first, the
/// top bit of every byte but the last set.
pub open spec fn varint(n: nat) -> Seq<u8>
    decreases n,
{
    if n < 128 {
        seq![n as u8]
    } else {
        seq![(n % 128 + 128) as u8] + varint(n / 128)
    }
}

/// A signed number as the 64 bits of its two's complement.
pub open spec fn twos_complement(v: int) -> nat {
    if v >= 0 {
        v as nat
    } else {
        (v + 0x1_0000_0000_0000_0000) as nat
    }
}

/// The wire form of a number field: nothing for zero, and otherwise its
/// key and the varint of the number.
pub open spec fn number_field(field: nat, v: int) -> Seq<u8> {
    if v == 0 {
        Seq::empty()
    } else {
        seq![(field * 8) as u8] + varint(twos_complement(v))
    }
}

/// The wire form of a message field: its key, the length of the message
/// and the message.
pub open spec fn message_field(field: nat, payload: Seq<u8>) -> Seq<u8> {
    seq![(field * 8 + 2) as u8] + varint(payload.len()) + payload
}

/// The wire form of a reading.
pub open spec fn reading_wire(r: Reading) -> Seq<u8> {
    number_field(1, r.battery_voltage as int) + number_field(2, r.battery_current as int)
        + number_field(3, r.panel_voltage as int) + number_field(4, r.panel_power as int)
        + number_field(5, r.load_current as int)
}

/// The wire form of an entry.
pub open spec fn entry_wire(e: UploadEntry) -> Seq<u8> {
    number_field(1, e.offset_in_seconds as int) + message_field(2, reading_wire(e.reading))
}

/// The wire form of entries, one message field each, in order.
pub open spec fn entries_wire(entries: Seq<UploadEntry>) -> Seq<u8>
    decreases entries.len(),
{
    if entries.len() == 0 {
        Seq::empty()
    } else {
        entries_wire(entries.drop_last()) + message_field(2, entry_wire(entries.last()))
    }
}

/// The wire form of an upload.
pub open spec fn upload_wire(u: UploadView) -> Seq<u8> {
    number_field(1, u.start_timestamp) + entries_wire(u.entries)
}

/// The wire form of a system event.
pub open spec fn event_wire(e: SystemEvent) -> Seq<u8> {
    number_field(1, e.timestamp as int) + match e.event {
        Some(Event::StartupEvent { uptime_seconds }) => message_field(
            2,
            number_field(1, uptime_seconds as int),
        ),
        Some(Event::OfflineEvent { uptime_seconds }) => message_field(
            3,
            number_field(1, uptime_seconds as int),
        ),
        Some(Event::OnlineEvent { uptime_seconds }) => message_field(
            4,
            number_field(1, uptime_seconds as int),
        ),
        None => Seq::empty(),
    }
}

/// A varint of a number below two to the power of `7 * k` has at most `k`
/// bytes.
pub proof fn lemma_varint_len(n: nat, k: nat)
    requires
        k >= 1,
        n < vstd::arithmetic::power2::pow2(7 * k),
    ensures
        1 <= varint(n).len() <= k,
    decreases k,
{
    vstd::arithmetic::power2::lemma2_to64();
    if n >= 128 {
        if k == 1 {
            assert(vstd::arithmetic::power2::pow2(7) == 128);
        } else {
            vstd::arithmetic::power2::lemma_pow2_adds(7, (7 * (k - 1)) as nat);
            assert(7 + 7 * (k - 1) == 7 * k);
            let rest = vstd::arithmetic::power2::pow2((7 * (k - 1)) as nat);
            assert(n < 128 * rest);
            assert(n / 128 < rest) by (nonlinear_arith)
                requires
                    n < 128 * rest,
            ;
            lemma_varint_len(n / 128, (k - 1) as nat);
        }
    }
}

/// A varint of a number of 64 bits has at most ten bytes.
pub proof fn lemma_varint64_len(n: nat)
    requires
        n <= u64::MAX,
    ensures
        1 <= varint(n).len() <= 10,
{
    vstd::arithmetic::power2::lemma2_to64();
    vstd::arithmetic::power2::lemma_pow2_strictly_increases(64, 70);
    lemma_varint_len(n, 10);
}

/// Appends the varint of `n` to `out`.
pub fn push_varint(out: &mut Vec<u8>, n: u64)
    ensures
        final(out)@ == old(out)@ + varint(n as nat),
    decreases n,
{
    if n < 128 {
        out.push(n as u8);
    } else {
        out.push((n % 128 + 128) as u8);
        push_varint(out, n / 128);
        assert(final(out)@ =~= old(out)@ + varint(n as nat));
    }
}

/// Appends the wire form of a number field to `out`.
pub fn push_number_field(out: &mut Vec<u8>, field: u8, v: i64)
    requires
        1 <= field <= 15,
    ensures
        final(out)@ == old(out)@ + number_field(field as nat, v as int),
{
    if v != 0 {
        out.push(field * 8);
        let bits: u64 = if v >= 0 {
            v as u64
        } else {
            ((v as i128) + 0x1_0000_0000_0000_0000) as u64
        };
        push_varint(out, bits);
        assert(final(out)@ =~= old(out)@ + number_field(field as nat, v as int));
    } else {
        assert(final(out)@ =~= old(out)@ + number_field(field as nat, v as int));
    }
}

/// Appends the wire form of a message field to `out`.
pub fn push_message_field(out: &mut Vec<u8>, field: u8, payload: &Vec<u8>)
    requires
        1 <= field <= 15,
    ensures
        final(out)@ == old(out)@ + message_field(field as nat, payload@),
{
    out.push(field * 8 + 2);
    push_varint(out, payload.len() as u64);
    push_bytes(out, payload.as_slice());
    assert(final(out)@ =~= old(out)@ + message_field(field as nat, payload@));
}

impl Reading {
    /// The wire form of the reading.
    pub fn encode(&self) -> (r: Vec<u8>)
        ensures
            r@ == reading_wire(*self),
    {
        let mut out: Vec<u8> = Vec::new();
        push_number_field(&mut out, 1, self.battery_voltage as i64);
        push_number_field(&mut out, 2, self.battery_current as i64);
        push_number_field(&mut out, 3, self.panel_voltage as i64);
        push_number_field(&mut out, 4, self.panel_power as i64);
        push_number_field(&mut out, 5, self.load_current as i64);
        assert(out@ =~= reading_wire(*self));
        out
    }
}

impl UploadEntry {
    /// The wire form of the entry.
    pub fn encode(&self) -> (r: Vec<u8>)
        ensures
            r@ == entry_wire(*self),
    {
        let mut out: Vec<u8> = Vec::new();
        push_number_field(&mut out, 1, self.offset_in_seconds as i64);
        let reading = self.reading.encode();
        push_message_field(&mut out, 2, &reading);
        assert(out@ =~= entry_wire(*self));
        out
    }
}

impl Upload {
    /// The wire form of the upload.
    pub fn encode(&self) -> (r: Vec<u8>)
        ensures
            r@ == upload_wire(self@),
    {
        let mut out: Vec<u8> = Vec::new();
        push_number_field(&mut out, 1, self.start_timestamp);
        let entries = self.entries.as_slice();
        assert(entries@.len() == entries.len());
        let mut i: usize = 0;
        while i < entries.len()
            invariant
                i <= entries.len(),
                entries@.len() == entries.len(),
                entries@ == self.entries@,
                out@ == number_field(1, self.start_timestamp as int) + entries_wire(
                    entries@.take(i as int),
                ),
            decreases entries.len() - i,
        {
            let entry = entries[i].encode();
            push_message_field(&mut out, 2, &entry);
            proof {
                assert(entries@.take(i + 1).drop_last() =~= entries@.take(i as int));
                assert(entries@.take(i + 1).last() == entries@[i as int]);
                assert(out@ =~= number_field(1, self.start_timestamp as int) + entries_wire(
                    entries@.take(i + 1),
                ));
            }
            i += 1;
        }
        assert(entries@.take(entries.len() as int) =~= entries@);
        out
    }
}

impl SystemEvent {
    /// The wire form of the event.
    pub fn encode(&self) -> (r: Vec<u8>)
        ensures
            r@ == event_wire(*self),
    {
        let mut out: Vec<u8> = Vec::new();
        push_number_field(&mut out, 1, self.timestamp);
        match self.event {
            Some(Event::StartupEvent { uptime_seconds }) => {
                let mut inner: Vec<u8> = Vec::new();
                push_number_field(&mut inner, 1, uptime_seconds as i64);
                push_message_field(&mut out, 2, &inner);
            },
            Some(Event::OfflineEvent { uptime_seconds }) => {
                let mut inner: Vec<u8> = Vec::new();
                push_number_field(&mut inner, 1, uptime_seconds as i64);
                push_message_field(&mut out, 3, &inner);
            },
            Some(Event::OnlineEvent { uptime_seconds }) => {
                let mut inner: Vec<u8> = Vec::new();
                push_number_field(&mut inner, 1, uptime_seconds as i64);
                push_message_field(&mut out, 4, &inner);
            },
            None => {},
        }
        assert(out@ =~= event_wire(*self));
        out
    }
}

/// The number that a varint at position `at` writes and the position
/// behind it, reading at most `room` bytes. There is no result where the
/// varint does not end within `room` bytes or within the text, or writes a
/// number of more than 64 bits.
pub open spec fn varint_at(s: Seq<u8>, at: int, room: nat) -> Option<(nat, int)>
    decreases room,
{
    if room == 0 || at < 0 || at >= s.len() {
        None
    } else if s[at] < 128 {
        Some((s[at] as nat, at + 1))
    } else {
        match varint_at(s, at + 1, (room - 1) as nat) {
            Some((rest, end)) => if 128 * rest + (s[at] - 128) <= u64::MAX {
                Some(((128 * rest + (s[at] - 128)) as nat, end))
            } else {
                None
            },
            None => None,
        }
    }
}

/// The signed number whose two's complement the 64 bits `n` are.
pub open spec fn from_twos_complement(n: nat) -> int {
    if n < 0x8000_0000_0000_0000 {
        n as int
    } else {
        n - 0x1_0000_0000_0000_0000
    }
}

/// What the number field `field` reads at position `at`: zero and the
/// same position where the field's key does not stand there, and otherwise
/// the number written and the position behind it. There is no result where
/// the key stands there without a well-formed number behind it, or with a
/// zero, which the wire form leaves out.
pub open spec fn number_at(s: Seq<u8>, at: int, field: nat) -> Option<(int, int)> {
    if 0 <= at < s.len() && s[at] == field * 8 {
        match varint_at(s, at + 1, 10) {
            Some((n, end)) => if n == 0 {
                None
            } else {
                Some((from_twos_complement(n), end))
            },
            None => None,
        }
    } else {
        Some((at - at, at))
    }
}

/// Where the message field `field` at position `at` has its payload: from
/// the first position to before the second. There is no result where the
/// field's key does not stand there or the length announced leads out of
/// the text.
pub open spec fn message_at(s: Seq<u8>, at: int, field: nat) -> Option<(int, int)> {
    if 0 <= at < s.len() && s[at] == field * 8 + 2 {
        match varint_at(s, at + 1, 10) {
            Some((n, start)) => if start + n <= s.len() {
                Some((start, start + n))
            } else {
                None
            },
            None => None,
        }
    } else {
        None
    }
}

/// Whether a number fits 32 signed bits.
pub open spec fn fits_i32(v: int) -> bool {
    -0x8000_0000 <= v <= 0x7fff_ffff
}

/// The reading that a wire form writes, if it is the wire form of one: the
/// five fields in the order of their numbers, each at most once, and
/// nothing else.
#[verifier::opaque]
pub open spec fn reading_from_wire(s: Seq<u8>) -> Option<Reading> {
    match number_at(s, 0, 1) {
        Some((v1, p1)) => match number_at(s, p1, 2) {
            Some((v2, p2)) => match number_at(s, p2, 3) {
                Some((v3, p3)) => match number_at(s, p3, 4) {
                    Some((v4, p4)) => match number_at(s, p4, 5) {
                        Some((v5, p5)) => if p5 == s.len() && fits_i32(v1) && fits_i32(v2)
                            && fits_i32(v3) && fits_i32(v4) && fits_i32(v5) {
                            Some(
                                Reading {
                                    battery_voltage: v1 as i32,
                                    battery_current: v2 as i32,
                                    panel_voltage: v3 as i32,
                                    panel_power: v4 as i32,
                                    load_current: v5 as i32,
                                },
                            )
                        } else {
                            None
                        },
                        None => None,
                    },
                    None => None,
                },
                None => None,
            },
            None => None,
        },
        None => None,
    }
}

/// The entry that a wire form writes, if it is the wire form of one: the
/// offset, if not zero, then the reading, and nothing else.
#[verifier::opaque]
pub open spec fn entry_from_wire(s: Seq<u8>) -> Option<UploadEntry> {
    match number_at(s, 0, 1) {
        Some((offset, p1)) => match message_at(s, p1, 2) {
            Some((start, end)) => match reading_from_wire(s.subrange(start, end)) {
                Some(reading) => if end == s.len() && fits_i32(offset) {
                    Some(UploadEntry { offset_in_seconds: offset as i32, reading })
                } else {
                    None
                },
                None => None,
            },
            None => None,
        },
        None => None,
    }
}

/// The entries that a wire form writes from position `at` to its end,
/// behind the entries `seen`.
pub open spec fn entries_from_wire(s: Seq<u8>, at: int, seen: Seq<UploadEntry>) -> Option<
    Seq<UploadEntry>,
>
    decreases s.len() - at,
{
    if at >= s.len() {
        Some(seen)
    } else {
        match message_at(s, at, 2) {
            Some((start, end)) => match entry_from_wire(s.subrange(start, end)) {
                Some(entry) => if end > at {
                    entries_from_wire(s, end, seen.push(entry))
                } else {
                    None
                },
                None => None,
            },
            None => None,
        }
    }
}

/// Entries read behind entries seen before are at least as many as
/// those.
pub proof fn lemma_entries_grow(s: Seq<u8>, at: int, seen: Seq<UploadEntry>)
    ensures
        entries_from_wire(s, at, seen) matches Some(all) ==> all.len() >= seen.len(),
    decreases s.len() - at,
{
    if at < s.len() {
        match message_at(s, at, 2) {
            Some((start, end)) => match entry_from_wire(s.subrange(start, end)) {
                Some(entry) => if end > at {
                    lemma_entries_grow(s, end, seen.push(entry));
                },
                None => {},
            },
            None => {},
        }
    }
}

/// The upload that a wire form writes, if it is the wire form of one with
/// at most twelve entries: the start, if not zero, then the entries, and
/// nothing else.
pub open spec fn upload_from_wire(s: Seq<u8>) -> Option<UploadView> {
    match number_at(s, 0, 1) {
        Some((start_timestamp, p1)) => match entries_from_wire(s, p1, Seq::empty()) {
            Some(entries) => if entries.len() <= 12 && -0x8000_0000_0000_0000 <= start_timestamp
                <= 0x7fff_ffff_ffff_ffff {
                Some(UploadView { start_timestamp, entries })
            } else {
                None
            },
            None => None,
        },
        None => None,
    }
}

/// Reads a varint at position `at`, of at most `room` bytes.
pub fn read_varint(input: &[u8], at: usize, room: u8) -> (r: Option<(u64, usize)>)
    ensures
        match varint_at(input@, at as int, room as nat) {
            Some((n, end)) => r == Some((n as u64, end as usize)) && n <= u64::MAX && at < end
                <= input@.len(),
            None => r.is_none(),
        },
    decreases room,
{
    assert(input@.len() == input.len());
    if room == 0 || at >= input.len() {
        return None;
    }
    let byte = input[at];
    if byte < 128 {
        return Some((byte as u64, at + 1));
    }
    match read_varint(input, at + 1, room - 1) {
        Some((rest, end)) => {
            let low: u64 = (byte - 128) as u64;
            if rest > (u64::MAX - low) / 128 {
                assert(128 * rest + low > u64::MAX) by (nonlinear_arith)
                    requires
                        rest > (u64::MAX - low) / 128,
                        0 <= low < 128,
                ;
                None
            } else {
                assert(128 * rest + low <= u64::MAX) by (nonlinear_arith)
                    requires
                        rest <= (u64::MAX - low) / 128,
                        0 <= low < 128,
                ;
                Some((128 * rest + low, end))
            }
        },
        None => None,
    }
}

/// Reads the number field `field` at position `at`.
pub fn read_number_field(input: &[u8], at: usize, field: u8) -> (r: Option<(i64, usize)>)
    requires
        1 <= field <= 15,
    ensures
        match number_at(input@, at as int, field as nat) {
            Some((v, end)) => r == Some((v as i64, end as usize)) && -0x8000_0000_0000_0000 <= v
                <= 0x7fff_ffff_ffff_ffff && at <= end && (at <= input@.len() ==> end
                <= input@.len()),
            None => r.is_none(),
        },
{
    assert(input@.len() == input.len());
    if at < input.len() && input[at] == field * 8 {
        match read_varint(input, at + 1, 10) {
            Some((n, end)) => {
                if n == 0 {
                    None
                } else if n < 0x8000_0000_0000_0000 {
                    Some((n as i64, end))
                } else {
                    Some((((n as i128) - 0x1_0000_0000_0000_0000) as i64, end))
                }
            },
            None => None,
        }
    } else {
        Some((0, at))
    }
}

/// Finds the payload of the message field `field` at position `at`.
pub fn read_message_field(input: &[u8], at: usize, field: u8) -> (r: Option<(usize, usize)>)
    requires
        1 <= field <= 15,
    ensures
        match message_at(input@, at as int, field as nat) {
            Some((start, end)) => r == Some((start as usize, end as usize)) && at < start <= end
                <= input@.len(),
            None => r.is_none(),
        },
{
    assert(input@.len() == input.len());
    if at < input.len() && input[at] == field * 8 + 2 {
        match read_varint(input, at + 1, 10) {
            Some((n, start)) => {
                if n <= (input.len() - start) as u64 {
                    Some((start, start + n as usize))
                } else {
                    None
                }
            },
            None => None,
        }
    } else {
        None
    }
}

/// Whether a number fits 32 signed bits.
fn is_i32(v: i64) -> (r: bool)
    ensures
        r == fits_i32(v as int),
{
    -0x8000_0000 <= v && v <= 0x7fff_ffff
}

impl Reading {
    /// Reads the wire form of a reading.
    pub fn decode(input: &[u8]) -> (r: Option<Reading>)
        ensures
            r == reading_from_wire(input@),
    {
        reveal(reading_from_wire);
        assert(input@.len() == input.len());
        let (v1, p1) = read_number_field(input, 0, 1)?;
        let (v2, p2) = read_number_field(input, p1, 2)?;
        let (v3, p3) = read_number_field(input, p2, 3)?;
        let (v4, p4) = read_number_field(input, p3, 4)?;
        let (v5, p5) = read_number_field(input, p4, 5)?;
        if p5 == input.len() && is_i32(v1) && is_i32(v2) && is_i32(v3) && is_i32(v4) && is_i32(v5) {
            Some(
                Reading {
                    battery_voltage: v1 as i32,
                    battery_current: v2 as i32,
                    panel_voltage: v3 as i32,
                    panel_power: v4 as i32,
                    load_current: v5 as i32,
                },
            )
        } else {
            None
        }
    }
}

impl UploadEntry {
    /// Reads the wire form of an entry.
    pub fn decode(input: &[u8]) -> (r: Option<UploadEntry>)
        ensures
            r == entry_from_wire(input@),
    {
        reveal(entry_from_wire);
        assert(input@.len() == input.len());
        let (offset, p1) = read_number_field(input, 0, 1)?;
        let (start, end) = read_message_field(input, p1, 2)?;
        let reading = Reading::decode(vstd::slice::slice_subrange(input, start, end))?;
        if end == input.len() && is_i32(offset) {
            Some(UploadEntry { offset_in_seconds: offset as i32, reading })
        } else {
            None
        }
    }
}

impl Upload {
    /// Reads the wire form of an upload of at most twelve entries.
    pub fn decode(input: &[u8]) -> (r: Option<Upload>)
        ensures
            match upload_from_wire(input@) {
                Some(upload) => r.is_some() && r.unwrap()@ == upload,
                None => r.is_none(),
            },
    {
        assert(input@.len() == input.len());
        let (start_timestamp, p1) = read_number_field(input, 0, 1)?;
        let mut entries = Entries::new();
        let mut at: usize = p1;
        while at < input.len()
            invariant
                p1 <= at <= input.len(),
                input@.len() == input.len(),
                entries@.len() <= MAX_ENTRIES,
                number_at(input@, 0, 1) == Some((start_timestamp as int, p1 as int)),
                entries_from_wire(input@, p1 as int, Seq::empty()) == entries_from_wire(
                    input@,
                    at as int,
                    entries@,
                ),
            decreases input.len() - at,
        {
            let (start, end) = read_message_field(input, at, 2)?;
            let entry = UploadEntry::decode(vstd::slice::slice_subrange(input, start, end))?;
            if !entries.push(entry) {
                proof {
                    lemma_entries_grow(input@, end as int, entries@.push(entry));
                }
                return None;
            }
            at = end;
        }
        Some(Upload { start_timestamp, entries })
    }
}

/// Hands on an encoded message if it fits `capacity` bytes.
pub fn bounded(message: Vec<u8>, capacity: usize) -> (r: Option<Vec<u8>>)
    ensures
        r.is_some() == (message@.len() <= capacity),
        r matches Some(m) ==> m@ == message@,
{
    if message.len() <= capacity {
        Some(message)
    } else {
        None
    }
}

/// A varint reads back as the number it was written from.
pub proof fn lemma_varint_round_trip(s: Seq<u8>, at: int, n: nat, room: nat)
    requires
        0 <= at,
        at + varint(n).len() <= s.len(),
        s.subrange(at, at + varint(n).len()) == varint(n),
        n <= u64::MAX,
        room >= varint(n).len(),
    ensures
        varint_at(s, at, room) == Some((n, at + varint(n).len() as int)),
    decreases n,
{
    let w = varint(n);
    assert(s[at] == s.subrange(at, at + w.len())[0]);
    if n >= 128 {
        let rest = varint(n / 128);
        assert(w == seq![(n % 128 + 128) as u8] + rest);
        assert(w.len() == 1 + rest.len());
        assert(s.subrange(at + 1, at + 1 + rest.len()) =~= rest) by {
            assert forall|i: int| 0 <= i < rest.len() implies s.subrange(
                at + 1,
                at + 1 + rest.len(),
            )[i] == rest[i] by {
                assert(s.subrange(at, at + w.len())[i + 1] == w[i + 1]);
            }
        }
        lemma_varint_round_trip(s, at + 1, n / 128, (room - 1) as nat);
        assert(128 * (n / 128) + n % 128 == n) by {
            vstd::arithmetic::div_mod::lemma_fundamental_div_mod(n as int, 128);
        }
    }
}

/// The two's complement of a signed 64-bit number reads back as the
/// number, and is zero only for zero.
pub proof fn lemma_twos_complement_round_trip(v: int)
    requires
        -0x8000_0000_0000_0000 <= v <= 0x7fff_ffff_ffff_ffff,
    ensures
        twos_complement(v) <= u64::MAX,
        from_twos_complement(twos_complement(v)) == v,
        twos_complement(v) == 0 <==> v == 0,
{
}

/// A number field reads back as the number it was written from, provided
/// that, where the number is zero and the field therefore left out, the
/// text does not go on with the key of that very field.
pub proof fn lemma_number_field_round_trip(
    prefix: Seq<u8>,
    field: nat,
    v: int,
    rest: Seq<u8>,
)
    requires
        1 <= field <= 15,
        -0x8000_0000_0000_0000 <= v <= 0x7fff_ffff_ffff_ffff,
        v == 0 ==> rest.len() == 0 || rest[0] != field * 8,
    ensures
        number_at(prefix + number_field(field, v) + rest, prefix.len() as int, field) == Some(
            (v, prefix.len() as int + number_field(field, v).len()),
        ),
{
    let s = prefix + number_field(field, v) + rest;
    let at = prefix.len() as int;
    lemma_twos_complement_round_trip(v);
    if v != 0 {
        let n = twos_complement(v);
        let w = varint(n);
        lemma_varint64_len(n);
        assert(number_field(field, v) == seq![(field * 8) as u8] + w);
        assert(s[at] == field * 8);
        assert(s.subrange(at + 1, at + 1 + w.len()) =~= w);
        lemma_varint_round_trip(s, at + 1, n, 10);
    } else {
        assert(number_field(field, v).len() == 0);
        if rest.len() > 0 {
            assert(s[at] == rest[0]);
        }
    }
}

/// A message field reads back as the place of its payload.
pub proof fn lemma_message_field_round_trip(
    prefix: Seq<u8>,
    field: nat,
    payload: Seq<u8>,
    rest: Seq<u8>,
)
    requires
        1 <= field <= 15,
        payload.len() <= u64::MAX,
    ensures
        ({
            let s = prefix + message_field(field, payload) + rest;
            let start: int = prefix.len() as int + 1 + varint(payload.len()).len();
            &&& message_at(s, prefix.len() as int, field) == Some((start, start + payload.len()))
            &&& s.subrange(start, start + payload.len()) == payload
            &&& start + payload.len() == prefix.len() + message_field(field, payload).len()
        }),
{
    let s = prefix + message_field(field, payload) + rest;
    let at = prefix.len() as int;
    let w = varint(payload.len());
    lemma_varint64_len(payload.len());
    assert(s[at] == field * 8 + 2);
    assert(s.subrange(at + 1, at + 1 + w.len()) =~= w);
    lemma_varint_round_trip(s, at + 1, payload.len(), 10);
    assert(s.subrange(at + 1 + w.len(), at + 1 + w.len() + payload.len()) =~= payload);
}

/// A number field that is written begins with its key.
pub proof fn lemma_number_field_key(field: nat, v: int)
    ensures
        number_field(field, v).len() > 0 ==> number_field(field, v)[0] == (field * 8) as u8,
        (v == 0) == (number_field(field, v).len() == 0),
{
}

/// As [`lemma_number_field_round_trip`], for a text that is known to be
/// made of the three parts.
proof fn lemma_number_field_in(
    w: Seq<u8>,
    prefix: Seq<u8>,
    field: nat,
    v: int,
    rest: Seq<u8>,
)
    requires
        w =~= prefix + number_field(field, v) + rest,
        1 <= field <= 15,
        -0x8000_0000_0000_0000 <= v <= 0x7fff_ffff_ffff_ffff,
        v == 0 ==> rest.len() == 0 || rest[0] != field * 8,
    ensures
        number_at(w, prefix.len() as int, field) == Some(
            (v, prefix.len() as int + number_field(field, v).len()),
        ),
{
    lemma_number_field_round_trip(prefix, field, v, rest);
}

/// The wire form of a reading reads back as the reading.
pub proof fn lemma_reading_round_trip(r: Reading)
    ensures
        reading_from_wire(reading_wire(r)) == Some(r),
{
    reveal(reading_from_wire);
    let f1 = number_field(1, r.battery_voltage as int);
    let f2 = number_field(2, r.battery_current as int);
    let f3 = number_field(3, r.panel_voltage as int);
    let f4 = number_field(4, r.panel_power as int);
    let f5 = number_field(5, r.load_current as int);
    let w = reading_wire(r);
    let none = Seq::<u8>::empty();
    let p1: int = f1.len() as int;
    let p2: int = p1 + f2.len();
    let p3: int = p2 + f3.len();
    let p4: int = p3 + f4.len();
    let p5: int = p4 + f5.len();
    assert(number_at(w, 0, 1) == Some((r.battery_voltage as int, p1))) by {
        lemma_number_field_key(2, r.battery_current as int);
        lemma_number_field_key(3, r.panel_voltage as int);
        lemma_number_field_key(4, r.panel_power as int);
        lemma_number_field_key(5, r.load_current as int);
        lemma_number_field_in(w, none, 1, r.battery_voltage as int, f2 + f3 + f4 + f5);
    }
    assert(number_at(w, p1, 2) == Some((r.battery_current as int, p2))) by {
        lemma_number_field_key(3, r.panel_voltage as int);
        lemma_number_field_key(4, r.panel_power as int);
        lemma_number_field_key(5, r.load_current as int);
        lemma_number_field_in(w, f1, 2, r.battery_current as int, f3 + f4 + f5);
    }
    assert(number_at(w, p2, 3) == Some((r.panel_voltage as int, p3))) by {
        lemma_number_field_key(4, r.panel_power as int);
        lemma_number_field_key(5, r.load_current as int);
        lemma_number_field_in(w, f1 + f2, 3, r.panel_voltage as int, f4 + f5);
    }
    assert(number_at(w, p3, 4) == Some((r.panel_power as int, p4))) by {
        lemma_number_field_key(5, r.load_current as int);
        lemma_number_field_in(w, f1 + f2 + f3, 4, r.panel_power as int, f5);
    }
    assert(number_at(w, p4, 5) == Some((r.load_current as int, p5))) by {
        lemma_number_field_in(w, f1 + f2 + f3 + f4, 5, r.load_current as int, none);
    }
    assert(p5 == w.len());
}

/// The wire form of an entry reads back as the entry.
pub proof fn lemma_entry_round_trip(e: UploadEntry)
    ensures
        entry_from_wire(entry_wire(e)) == Some(e),
        entry_wire(e).len() <= u64::MAX,
{
    reveal(entry_from_wire);
    let none = Seq::<u8>::empty();
    let f1 = number_field(1, e.offset_in_seconds as int);
    let payload = reading_wire(e.reading);
    let f2 = message_field(2, payload);
    let w = entry_wire(e);
    lemma_reading_len(e.reading);
    lemma_number_field_len(1, e.offset_in_seconds as int);
    lemma_varint64_len(payload.len());
    lemma_number_field_round_trip(none, 1, e.offset_in_seconds as int, f2);
    assert(none + f1 + f2 =~= w);
    lemma_message_field_round_trip(f1, 2, payload, none);
    assert(f1 + f2 + none =~= w);
    lemma_reading_round_trip(e.reading);
}

/// A number field takes at most eleven bytes.
pub proof fn lemma_number_field_len(field: nat, v: int)
    requires
        -0x8000_0000_0000_0000 <= v <= 0x7fff_ffff_ffff_ffff,
    ensures
        number_field(field, v).len() <= 11,
{
    lemma_twos_complement_round_trip(v);
    lemma_varint64_len(twos_complement(v));
}

/// The wire form of a reading takes at most 55 bytes.
pub proof fn lemma_reading_len(r: Reading)
    ensures
        reading_wire(r).len() <= 55,
{
    lemma_number_field_len(1, r.battery_voltage as int);
    lemma_number_field_len(2, r.battery_current as int);
    lemma_number_field_len(3, r.panel_voltage as int);
    lemma_number_field_len(4, r.panel_power as int);
    lemma_number_field_len(5, r.load_current as int);
}

/// The wire form of entries begins with the first entry.
pub proof fn lemma_entries_wire_front(entries: Seq<UploadEntry>)
    requires
        entries.len() > 0,
    ensures
        entries_wire(entries) == message_field(2, entry_wire(entries[0])) + entries_wire(
            entries.skip(1),
        ),
    decreases entries.len(),
{
    if entries.len() == 1 {
        assert(entries.drop_last() =~= Seq::<UploadEntry>::empty());
        assert(entries.skip(1) =~= Seq::<UploadEntry>::empty());
        assert(entries_wire(entries) =~= message_field(2, entry_wire(entries[0]))
            + entries_wire(entries.skip(1)));
    } else {
        lemma_entries_wire_front(entries.drop_last());
        assert(entries.drop_last().skip(1) =~= entries.skip(1).drop_last());
        assert(entries.skip(1).last() == entries.last());
        assert(entries.drop_last()[0] == entries[0]);
        assert(entries_wire(entries) =~= message_field(2, entry_wire(entries[0]))
            + entries_wire(entries.skip(1)));
    }
}

/// The first entry of a wire form of entries reads back, and leaves the
/// wire form of the others behind it.
proof fn lemma_first_entry(prefix: Seq<u8>, entries: Seq<UploadEntry>)
    requires
        entries.len() > 0,
    ensures
        ({
            let s = prefix + entries_wire(entries);
            let field = message_field(2, entry_wire(entries[0]));
            let end = prefix.len() as int + field.len();
            &&& s == (prefix + field) + entries_wire(entries.skip(1))
            &&& prefix.len() < end <= s.len()
            &&& message_at(s, prefix.len() as int, 2) matches Some((start, stop))
            &&& stop == end
            &&& entry_from_wire(s.subrange(start, stop)) == Some(entries[0])
        }),
{
    let s = prefix + entries_wire(entries);
    let none = Seq::<u8>::empty();
    let first = entry_wire(entries[0]);
    let field = message_field(2, first);
    let rest = entries_wire(entries.skip(1));
    lemma_entries_wire_front(entries);
    lemma_entry_round_trip(entries[0]);
    lemma_message_field_round_trip(prefix, 2, first, rest);
    assert(prefix + field + rest =~= s);
    assert((prefix + field) + rest =~= s);
}

/// The wire form of entries reads back as the entries, behind those seen
/// before.
pub proof fn lemma_entries_round_trip(
    prefix: Seq<u8>,
    entries: Seq<UploadEntry>,
    seen: Seq<UploadEntry>,
)
    ensures
        entries_from_wire(prefix + entries_wire(entries), prefix.len() as int, seen) == Some(
            seen + entries,
        ),
    decreases entries.len(),
{
    let s = prefix + entries_wire(entries);
    let at = prefix.len() as int;
    if entries.len() == 0 {
        assert(seen + entries =~= seen);
        assert(s.len() == at);
    } else {
        let field = message_field(2, entry_wire(entries[0]));
        lemma_first_entry(prefix, entries);
        lemma_entries_round_trip(prefix + field, entries.skip(1), seen.push(entries[0]));
        assert(seen.push(entries[0]) + entries.skip(1) =~= seen + entries);
    }
}

/// Encoding and decoding: the wire form of an upload of at most twelve
/// entries reads back as that upload, with its start, its entries and their
/// offsets.
pub proof fn lemma_upload_round_trip(upload: Upload)
    requires
        upload@.entries.len() <= MAX_ENTRIES,
    ensures
        upload_from_wire(upload_wire(upload@)) == Some(upload@),
{
    let u = upload@;
    let none = Seq::<u8>::empty();
    let f1 = number_field(1, u.start_timestamp);
    let rest = entries_wire(u.entries);
    if u.entries.len() > 0 {
        lemma_entries_wire_front(u.entries);
        assert(rest[0] == 18);
    }
    lemma_number_field_round_trip(none, 1, u.start_timestamp, rest);
    assert(none + f1 + rest =~= upload_wire(u));
    lemma_entries_round_trip(f1, u.entries, Seq::<UploadEntry>::empty());
    assert(Seq::<UploadEntry>::empty() + u.entries =~= u.entries);
}

/// The wire form of an entry takes at most 68 bytes, and as a field of
/// an upload at most 70.
pub proof fn lemma_entry_len(e: UploadEntry)
    ensures
        entry_wire(e).len() <= 68,
        message_field(2, entry_wire(e)).len() <= 70,
{
    lemma_reading_len(e.reading);
    lemma_number_field_len(1, e.offset_in_seconds as int);
    assert(varint(reading_wire(e.reading).len()).len() == 1);
    assert(varint(entry_wire(e).len()).len() == 1);
}

/// The wire form of entries takes at most 70 bytes for each.
pub proof fn lemma_entries_len(entries: Seq<UploadEntry>)
    ensures
        entries_wire(entries).len() <= 70 * entries.len(),
    decreases entries.len(),
{
    if entries.len() > 0 {
        lemma_entries_len(entries.drop_last());
        lemma_entry_len(entries.last());
    }
}

/// The size of uploads: the wire form of an upload of at most twelve
/// entries takes at most [`UPLOAD_MAX_MESSAGE_SIZE`] bytes.
pub proof fn lemma_upload_len(upload: Upload)
    requires
        upload@.entries.len() <= MAX_ENTRIES,
    ensures
        upload_wire(upload@).len() <= UPLOAD_MAX_MESSAGE_SIZE,
{
    lemma_number_field_len(1, upload@.start_timestamp);
    lemma_entries_len(upload@.entries);
}

/// The size of events: the wire form of a system event takes at most
/// [`EVENT_MAX_MESSAGE_SIZE`] bytes.
pub proof fn lemma_event_len(e: SystemEvent)
    ensures
        event_wire(e).len() <= EVENT_MAX_MESSAGE_SIZE,
{
    lemma_number_field_len(1, e.timestamp as int);
    match e.event {
        Some(event) => {
            let uptime: u32 = match event {
                Event::StartupEvent { uptime_seconds } => uptime_seconds,
                Event::OfflineEvent { uptime_seconds } => uptime_seconds,
                Event::OnlineEvent { uptime_seconds } => uptime_seconds,
            };
            vstd::arithmetic::power2::lemma2_to64();
            assert(vstd::arithmetic::power2::pow2(35) == 0x8_0000_0000) by {
                vstd::arithmetic::power2::lemma_pow2_adds(32, 3);
            }
            lemma_varint_len(uptime as nat, 5);
            let inner = number_field(1, uptime as int);
            assert(inner.len() <= 6);
            assert(varint(inner.len()).len() == 1);
        },
        None => {},
    }
}

} // verus!
