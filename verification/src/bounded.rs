//! Fixed-capacity containers.
//!
//! The firmware never allocates: lines, responses, frames and uploads live
//! in `heapless` containers whose capacity is part of their type. This module
//! is the only place that touches them. Each container is opaque to the
//! verifier; what it holds is named by a specification function, and the
//! functions marked as unverified state, over that name, what the
//! `heapless` operation they call does. Everything else in the crate is
//! proved against those statements.

use crate::proto::UploadEntry;
use vstd::prelude::*;
use vstd::utf8::valid_utf8;

verus! {

/// Capacity of a [`Text`] in bytes: the longest line the modem may send and
/// the longest command it may be sent.
pub const AT_BUFFER_SIZE: usize = 256;

/// Capacity of [`Lines`]: the most lines one response may hold.
pub const MAX_RESPONSE_LINES: usize = 4;

/// Capacity of a [`FrameMap`]: the most fields one frame may hold.
pub const MAX_MESSAGES: usize = 20;

/// Capacity of [`Entries`]: the most entries one upload may hold.
pub const MAX_ENTRIES: usize = 12;

/// Capacity of an [`UploadVec`]: the most bytes the wire form of an upload
/// takes.
pub const UPLOAD_MAX_MESSAGE_SIZE: usize = 851;

/// `heapless::CapacityError`: what a container of the crate fails with
/// when it is full.
#[verifier::external_type_specification]
#[verifier::external_body]
pub struct ExCapacityError(heapless::CapacityError);

/// A byte string of at most [`AT_BUFFER_SIZE`] bytes, stored in place in a
/// `heapless::Vec<u8, 256>`.
#[verifier::external_body]
pub struct Text {
    inner: heapless::Vec<u8, 256>,
}

/// The bytes that a [`Text`] holds.
pub uninterp spec fn text_bytes(t: Text) -> Seq<u8>;

/// Up to [`MAX_RESPONSE_LINES`] lines in arrival order, stored in place in a
/// `heapless::Vec` of four `heapless::Vec<u8, 256>`.
#[verifier::external_body]
pub struct Lines {
    inner: heapless::Vec<heapless::Vec<u8, 256>, 4>,
}

/// The lines that a [`Lines`] holds, first arrival first.
pub uninterp spec fn lines_of(l: Lines) -> Seq<Seq<u8>>;

/// Up to [`MAX_MESSAGES`] fields by label, stored in place in a
/// `heapless::LinearMap` from `heapless::Vec<u8, 256>` to
/// `heapless::Vec<u8, 256>` with twenty slots.
#[verifier::external_body]
pub struct FrameMap {
    inner: heapless::LinearMap<heapless::Vec<u8, 256>, heapless::Vec<u8, 256>, 20>,
}

/// The fields that a [`FrameMap`] holds: each label with its value.
pub uninterp spec fn fields_of(m: FrameMap) -> Map<Seq<u8>, Seq<u8>>;

/// Up to [`MAX_ENTRIES`] entries of an upload in the order they were taken,
/// stored in place in a `heapless::Vec` of twelve.
#[derive(Debug, PartialEq, Eq)]
#[verifier::external_body]
pub struct Entries {
    inner: heapless::Vec<UploadEntry, 12>,
}

/// The entries that an [`Entries`] holds, first taken first.
pub uninterp spec fn entries_of(e: Entries) -> Seq<UploadEntry>;

/// The wire form of an upload on its way to the backend, stored in place
/// in a `heapless::Vec<u8, 851>`.
#[derive(Debug, PartialEq, Eq)]
#[verifier::external_body]
pub struct UploadVec {
    inner: heapless::Vec<u8, 851>,
}

/// The bytes that an [`UploadVec`] holds.
pub uninterp spec fn upload_bytes(v: UploadVec) -> Seq<u8>;

/// The fields of a frame that holds none.
pub open spec fn no_fields() -> Map<Seq<u8>, Seq<u8>> {
    Map::empty()
}

impl View for Text {
    type V = Seq<u8>;

    open spec fn view(&self) -> Seq<u8> {
        text_bytes(*self)
    }
}

impl View for Lines {
    type V = Seq<Seq<u8>>;

    open spec fn view(&self) -> Seq<Seq<u8>> {
        lines_of(*self)
    }
}

impl View for Entries {
    type V = Seq<UploadEntry>;

    open spec fn view(&self) -> Seq<UploadEntry> {
        entries_of(*self)
    }
}

impl View for UploadVec {
    type V = Seq<u8>;

    open spec fn view(&self) -> Seq<u8> {
        upload_bytes(*self)
    }
}

impl View for FrameMap {
    type V = Map<Seq<u8>, Seq<u8>>;

    open spec fn view(&self) -> Map<Seq<u8>, Seq<u8>> {
        fields_of(*self)
    }
}

/// `heapless::Vec::new`: a vector with no element.
#[verifier::external_body]
pub(crate) fn text_new() -> (r: Text)
    ensures
        text_bytes(r) == Seq::<u8>::empty(),
{
    Text { inner: heapless::Vec::new() }
}

/// `heapless::Vec::push`: appends the byte while the vector holds fewer
/// than 256, and otherwise hands the byte back and leaves the vector as it
/// was.
#[verifier::external_body]
pub(crate) fn text_push(t: &mut Text, byte: u8) -> (r: Result<(), u8>)
    ensures
        r.is_ok() == (text_bytes(*old(t)).len() < 256),
        r.is_ok() ==> text_bytes(*final(t)) == text_bytes(*old(t)).push(byte),
        r.is_err() ==> text_bytes(*final(t)) == text_bytes(*old(t)),
{
    t.inner.push(byte)
}

/// `heapless::Vec::extend_from_slice`: appends all of `bytes` if they fit
/// the 256 bytes together with what is there, and otherwise fails and
/// leaves the vector as it was.
#[verifier::external_body]
pub(crate) fn text_extend(t: &mut Text, bytes: &[u8]) -> (r: Result<(), heapless::CapacityError>)
    ensures
        r.is_ok() == (text_bytes(*old(t)).len() + bytes@.len() <= 256),
        r.is_ok() ==> text_bytes(*final(t)) == text_bytes(*old(t)) + bytes@,
        r.is_err() ==> text_bytes(*final(t)) == text_bytes(*old(t)),
{
    t.inner.extend_from_slice(bytes)
}

/// `heapless::Vec::as_slice`: the elements in order; there are never more
/// than the capacity of 256.
#[verifier::external_body]
pub(crate) fn text_as_slice(t: &Text) -> (r: &[u8])
    ensures
        r@ == text_bytes(*t),
        r@.len() <= 256,
{
    t.inner.as_slice()
}

/// `heapless::String::from_utf8`, then `heapless::String::into_bytes`: the
/// same bytes if they are well-formed UTF-8, and nothing otherwise.
#[verifier::external_body]
pub(crate) fn text_checked_utf8(t: Text) -> (r: Option<Text>)
    ensures
        r.is_some() == valid_utf8(text_bytes(t)),
        r matches Some(u) ==> text_bytes(u) == text_bytes(t),
{
    heapless::String::from_utf8(t.inner).ok().map(|s| Text { inner: s.into_bytes() })
}

/// `heapless::Vec::new`: a vector with no element.
#[verifier::external_body]
pub(crate) fn lines_new() -> (r: Lines)
    ensures
        lines_of(r) == Seq::<Seq<u8>>::empty(),
{
    Lines { inner: heapless::Vec::new() }
}

/// `heapless::Vec::push`: appends the line while the vector holds fewer
/// than four, and otherwise hands the line back and leaves the vector as
/// it was.
#[verifier::external_body]
pub(crate) fn lines_push(l: &mut Lines, line: Text) -> (r: Result<(), Text>)
    ensures
        r.is_ok() == (lines_of(*old(l)).len() < 4),
        r.is_ok() ==> lines_of(*final(l)) == lines_of(*old(l)).push(text_bytes(line)),
        r matches Err(back) ==> lines_of(*final(l)) == lines_of(*old(l)) && text_bytes(back)
            == text_bytes(line),
{
    l.inner.push(line.inner).map_err(|inner| Text { inner })
}

/// `heapless::Vec::len`: the number of elements, never more than the
/// capacity of four.
#[verifier::external_body]
pub(crate) fn lines_len(l: &Lines) -> (r: usize)
    ensures
        r == lines_of(*l).len(),
        r <= 4,
{
    l.inner.len()
}

/// `heapless::Vec::as_slice` on the vector, the slice's `get`, and
/// `heapless::Vec::as_slice` on the line found: the bytes of the line at
/// `index`, or nothing where `index` is not below the length.
#[verifier::external_body]
pub(crate) fn lines_get(l: &Lines, index: usize) -> (r: Option<&[u8]>)
    ensures
        r.is_some() == (index < lines_of(*l).len()),
        r matches Some(bytes) ==> bytes@ == lines_of(*l)[index as int] && bytes@.len() <= 256,
{
    l.inner.as_slice().get(index).map(|line| line.as_slice())
}

/// `heapless::LinearMap::new`: a map with no entry.
#[verifier::external_body]
pub(crate) fn frame_new() -> (r: FrameMap)
    ensures
        fields_of(r) == no_fields(),
{
    FrameMap { inner: heapless::LinearMap::new() }
}

/// `heapless::LinearMap::insert`: gives a label that the map holds its new
/// value; adds a label that it does not hold while fewer than twenty are
/// held; and otherwise fails and leaves the map as it was.
#[verifier::external_body]
pub(crate) fn frame_insert(m: &mut FrameMap, label: Text, value: Text) -> (r: bool)
    ensures
        r == (fields_of(*old(m)).dom().contains(text_bytes(label)) || fields_of(*old(m)).dom().len()
            < 20),
        r ==> fields_of(*final(m)) == fields_of(*old(m)).insert(
            text_bytes(label),
            text_bytes(value),
        ),
        !r ==> fields_of(*final(m)) == fields_of(*old(m)),
        fields_of(*final(m)).dom().finite(),
        fields_of(*final(m)).dom().len() <= 20,
{
    m.inner.insert(label.inner, value.inner).is_ok()
}

/// `heapless::LinearMap::get`, then `heapless::Vec::as_slice` on the value
/// found: the value stored under `label`, or nothing where the map does
/// not hold the label.
#[verifier::external_body]
pub(crate) fn frame_get<'a>(m: &'a FrameMap, label: &[u8]) -> (r: Option<&'a [u8]>)
    ensures
        r.is_some() == fields_of(*m).dom().contains(label@),
        r matches Some(bytes) ==> bytes@ == fields_of(*m)[label@] && bytes@.len() <= 256,
{
    m.inner.get(label).map(|value| value.as_slice())
}

/// `heapless::Vec::new`: a vector with no element.
#[verifier::external_body]
pub(crate) fn entries_new() -> (r: Entries)
    ensures
        entries_of(r) == Seq::<UploadEntry>::empty(),
{
    Entries { inner: heapless::Vec::new() }
}

/// `heapless::Vec::push`: appends the entry while the vector holds fewer
/// than twelve, and otherwise hands the entry back and leaves the vector as
/// it was.
#[verifier::external_body]
pub(crate) fn entries_push(e: &mut Entries, entry: UploadEntry) -> (r: Result<(), UploadEntry>)
    ensures
        r.is_ok() == (entries_of(*old(e)).len() < 12),
        r.is_ok() ==> entries_of(*final(e)) == entries_of(*old(e)).push(entry),
        r.is_err() ==> entries_of(*final(e)) == entries_of(*old(e)),
{
    e.inner.push(entry)
}

/// `heapless::Vec::as_slice`: the elements in order; there are never more
/// than the capacity of twelve.
#[verifier::external_body]
pub(crate) fn entries_as_slice(e: &Entries) -> (r: &[UploadEntry])
    ensures
        r@ == entries_of(*e),
        r@.len() <= 12,
{
    e.inner.as_slice()
}

/// `heapless::Vec::from_slice`: a vector with the bytes of the slice if
/// they are at most 851, and a failure otherwise.
#[verifier::external_body]
pub(crate) fn upload_from_slice(bytes: &[u8]) -> (r: Result<UploadVec, heapless::CapacityError>)
    ensures
        r.is_ok() == (bytes@.len() <= 851),
        r matches Ok(v) ==> upload_bytes(v) == bytes@,
{
    heapless::Vec::from_slice(bytes).map(|inner| UploadVec { inner })
}

/// `heapless::Vec::as_slice`: the elements in order; there are never more
/// than the capacity of 851.
#[verifier::external_body]
pub(crate) fn upload_as_slice(v: &UploadVec) -> (r: &[u8])
    ensures
        r@ == upload_bytes(*v),
        r@.len() <= 851,
{
    v.inner.as_slice()
}

impl UploadVec {
    /// The upload that holds `bytes`, where they fit.
    pub fn from_slice(bytes: &[u8]) -> (r: Option<UploadVec>)
        ensures
            r.is_some() == (bytes@.len() <= UPLOAD_MAX_MESSAGE_SIZE),
            r matches Some(v) ==> v@ == bytes@,
    {
        match upload_from_slice(bytes) {
            Ok(v) => Some(v),
            Err(_) => None,
        }
    }

    /// The bytes held.
    pub fn as_slice(&self) -> (r: &[u8])
        ensures
            r@ == self@,
            r@.len() <= UPLOAD_MAX_MESSAGE_SIZE,
    {
        upload_as_slice(self)
    }

    /// The number of bytes held.
    pub fn len(&self) -> (r: usize)
        ensures
            r == self@.len(),
            r <= UPLOAD_MAX_MESSAGE_SIZE,
    {
        upload_as_slice(self).len()
    }
}

impl Entries {
    /// No entries.
    pub fn new() -> (r: Entries)
        ensures
            r@ == Seq::<UploadEntry>::empty(),
    {
        entries_new()
    }

    /// The entries of `entries`, where they fit.
    pub fn from_slice(entries: &[UploadEntry]) -> (r: Option<Entries>)
        ensures
            r.is_some() == (entries@.len() <= MAX_ENTRIES),
            r matches Some(e) ==> e@ == entries@,
    {
        assert(entries@.len() == entries.len());
        let mut out = entries_new();
        let mut i: usize = 0;
        while i < entries.len()
            invariant
                i <= entries.len(),
                entries@.len() == entries.len(),
                i <= MAX_ENTRIES,
                out@ == entries@.take(i as int),
            decreases entries.len() - i,
        {
            match entries_push(&mut out, entries[i]) {
                Ok(()) => {
                    assert(entries@.take(i + 1) =~= entries@.take(i as int).push(entries@[i as int]));
                },
                Err(_) => { return None; },
            }
            i += 1;
        }
        assert(entries@.take(entries.len() as int) =~= entries@);
        Some(out)
    }

    /// Appends `entry`; fails, leaving the entries as they were, when
    /// twelve are held already.
    pub fn push(&mut self, entry: UploadEntry) -> (r: bool)
        ensures
            r == (old(self)@.len() < MAX_ENTRIES),
            r ==> final(self)@ == old(self)@.push(entry),
            !r ==> final(self)@ == old(self)@,
    {
        entries_push(self, entry).is_ok()
    }

    /// The entries held.
    pub fn as_slice(&self) -> (r: &[UploadEntry])
        ensures
            r@ == self@,
            r@.len() <= MAX_ENTRIES,
    {
        entries_as_slice(self)
    }

    /// The number of entries held.
    pub fn len(&self) -> (r: usize)
        ensures
            r == self@.len(),
            r <= MAX_ENTRIES,
    {
        entries_as_slice(self).len()
    }

    /// Whether twelve entries are held.
    pub fn is_full(&self) -> (r: bool)
        ensures
            r == (self@.len() == MAX_ENTRIES),
    {
        entries_as_slice(self).len() == MAX_ENTRIES
    }
}

impl Text {
    /// The empty text.
    pub fn new() -> (r: Text)
        ensures
            r@ == Seq::<u8>::empty(),
    {
        text_new()
    }

    /// The text that holds `bytes`, where they fit.
    pub fn from_bytes(bytes: &[u8]) -> (r: Option<Text>)
        ensures
            r.is_some() == (bytes@.len() <= AT_BUFFER_SIZE),
            r matches Some(t) ==> t@ == bytes@,
    {
        let mut t = text_new();
        match text_extend(&mut t, bytes) {
            Ok(()) => {
                assert(t@ =~= bytes@);
                Some(t)
            },
            Err(_) => None,
        }
    }

    /// The bytes held.
    pub fn bytes(&self) -> (r: &[u8])
        ensures
            r@ == self@,
            r@.len() <= AT_BUFFER_SIZE,
    {
        text_as_slice(self)
    }

    /// The number of bytes held.
    pub fn len(&self) -> (r: usize)
        ensures
            r == self@.len(),
            r <= AT_BUFFER_SIZE,
    {
        text_as_slice(self).len()
    }

    /// Whether no byte is held.
    pub fn is_empty(&self) -> (r: bool)
        ensures
            r == (self@.len() == 0),
    {
        text_as_slice(self).len() == 0
    }

    /// A copy of the bytes held.
    pub fn to_vec(&self) -> (r: Vec<u8>)
        ensures
            r@ == self@,
    {
        let mut out: Vec<u8> = Vec::new();
        crate::text::push_bytes(&mut out, text_as_slice(self));
        assert(out@ =~= self@);
        out
    }

    /// A second text with the same bytes.
    pub fn duplicate(&self) -> (r: Text)
        ensures
            r@ == self@,
    {
        let mut t = text_new();
        match text_extend(&mut t, text_as_slice(self)) {
            Ok(()) => {
                assert(t@ =~= self@);
            },
            Err(_) => {},
        }
        t
    }
}

impl Lines {
    /// No lines.
    pub fn new() -> (r: Lines)
        ensures
            r@ == Seq::<Seq<u8>>::empty(),
    {
        lines_new()
    }

    /// The number of lines held.
    pub fn len(&self) -> (r: usize)
        ensures
            r == self@.len(),
            r <= MAX_RESPONSE_LINES,
    {
        lines_len(self)
    }

    /// Appends `line`; fails, leaving the lines as they were, when four
    /// are held already.
    pub fn push(&mut self, line: Text) -> (r: bool)
        ensures
            r == (old(self)@.len() < MAX_RESPONSE_LINES),
            r ==> final(self)@ == old(self)@.push(line@),
            !r ==> final(self)@ == old(self)@,
    {
        lines_push(self, line).is_ok()
    }

    /// The line at `index`, if there is one.
    pub fn get(&self, index: usize) -> (r: Option<&[u8]>)
        ensures
            r.is_some() == (index < self@.len()),
            r matches Some(bytes) ==> bytes@ == self@[index as int],
    {
        lines_get(self, index)
    }
}

} // verus!
