//! VE.Direct: the text protocol of the charger.
//!
//! The charger sends frames without end. A frame is a run of fields, each
//! a carriage return, a line feed, a label, a tab and a value; its last
//! field has the label `Checksum` and one byte as its value, chosen so that
//! all bytes of the frame, from the first carriage return to that byte, add
//! up to zero modulo 256. [`FrameHandler`] takes the stream byte by byte and
//! hands out the fields of every frame that adds up; [`Reading`] holds the
//! five measurements that the node cares for; [`Averaging`] forms their
//! mean over an interval.

use crate::bounded::{
    frame_get, frame_insert, frame_new, no_fields, text_checked_utf8, text_new, text_push,
    FrameMap, Text, MAX_MESSAGES,
};
use crate::text::{bytes_eq, parse_i32, parse_u32, whole_i32, whole_u32, CR, TAB};
use vstd::prelude::*;
use vstd::string::StringSliceAdditionalSpecFns;
use vstd::utf8::valid_utf8;

verus! {

/// Averaged readings that fit the channel from the runner to the solar
/// monitor.
pub const READING_CHANNEL_SIZE: usize = 8;

/// The most bytes kept of a label; what comes behind them is dropped.
pub const LABEL_SIZE: usize = 9;

/// The most bytes kept of a value; what comes behind them is dropped.
pub const STRING_BUFFER_SIZE: usize = 32;

/// The sum of the bytes of `s`.
pub open spec fn byte_sum(s: Seq<u8>) -> int
    decreases s.len(),
{
    if s.len() == 0 {
        0
    } else {
        byte_sum(s.drop_last()) + s.last()
    }
}

/// The running sum of a frame's bytes modulo 256.
#[derive(Debug, Clone, Copy, PartialEq, Eq)]
pub struct Checksum {
    value: u8,
}

impl View for Checksum {
    type V = u8;

    closed spec fn view(&self) -> u8 {
        self.value
    }
}

impl Checksum {
    /// The sum of no bytes.
    pub fn new() -> (r: Self)
        ensures
            r@ == 0,
    {
        Checksum { value: 0 }
    }

    /// Adds a byte to the sum.
    pub fn add(&mut self, byte: u8)
        ensures
            final(self)@ == (old(self)@ + byte) % 256,
    {
        self.value = ((self.value as u16 + byte as u16) % 256) as u8;
    }

    /// Whether the bytes added so far make a whole frame: their sum is
    /// zero modulo 256.
    pub fn is_valid(&self) -> (r: bool)
        ensures
            r == (self@ == 0),
    {
        self.value == 0
    }

    /// Starts the sum anew.
    pub fn clear(&mut self)
        ensures
            final(self)@ == 0,
    {
        self.value = 0
    }
}

/// Where in a frame the handler stands.
#[derive(Debug, Clone, Copy, PartialEq, Eq)]
pub enum Stage {
    /// Between frames: bytes are skipped until a carriage return.
    Scanning,
    /// Behind the carriage return that begins a field: the next byte, a
    /// line feed in a sound stream, is counted and skipped.
    Separator,
    /// In a label, up to the tab.
    Label,
    /// In a value, up to the carriage return.
    Value,
    /// Behind the tab of the `Checksum` field: the next byte closes the
    /// frame.
    ChecksumByte,
}

/// What a [`FrameHandler`] holds. `frame` is the run of bytes taken since
/// the carriage return that began the frame under way.
pub struct FrameHandlerView {
    pub stage: Stage,
    pub checksum: u8,
    pub label: Seq<u8>,
    pub value: Seq<u8>,
    pub fields: Map<Seq<u8>, Seq<u8>>,
    pub frame: Seq<u8>,
}

/// What a byte brought, in specifications.
pub enum FrameOutcome {
    /// No frame is complete.
    More,
    /// A frame is complete and its bytes add up: here are its fields.
    Frame { fields: Map<Seq<u8>, Seq<u8>> },
    /// A frame is complete and its bytes do not add up: it is dropped.
    Invalid,
}

/// What a byte brought.
pub enum FrameEvent {
    /// No frame is complete.
    More,
    /// A frame is complete and its bytes add up: here are its fields.
    Frame { fields: FrameMap },
    /// A frame is complete and its bytes do not add up: it is dropped.
    Invalid,
}

impl View for FrameEvent {
    type V = FrameOutcome;

    open spec fn view(&self) -> FrameOutcome {
        match *self {
            FrameEvent::More => FrameOutcome::More,
            FrameEvent::Frame { fields } => FrameOutcome::Frame { fields: fields@ },
            FrameEvent::Invalid => FrameOutcome::Invalid,
        }
    }
}

/// The handler between frames.
pub open spec fn scanning() -> FrameHandlerView {
    FrameHandlerView {
        stage: Stage::Scanning,
        checksum: 0,
        label: Seq::empty(),
        value: Seq::empty(),
        fields: no_fields(),
        frame: Seq::empty(),
    }
}

/// A text as kept: itself if it is well-formed UTF-8, the empty text
/// otherwise.
pub open spec fn checked_text(raw: Seq<u8>) -> Seq<u8> {
    if valid_utf8(raw) {
        raw
    } else {
        Seq::empty()
    }
}

/// A label or value after one more byte: the byte is kept while fewer than
/// `limit` are.
pub open spec fn kept(buffer: Seq<u8>, byte: u8, limit: int) -> Seq<u8> {
    if buffer.len() < limit {
        buffer.push(byte)
    } else {
        buffer
    }
}

/// Whether fields are those of a frame: at most twenty, with labels of at
/// most nine bytes and values of at most 32.
pub open spec fn is_frame(fields: Map<Seq<u8>, Seq<u8>>) -> bool {
    &&& fields.dom().finite()
    &&& fields.dom().len() <= MAX_MESSAGES
    &&& forall|label: Seq<u8>| #[trigger]
        fields.dom().contains(label) ==> label.len() <= LABEL_SIZE && fields[label].len()
            <= STRING_BUFFER_SIZE
}

/// The fields after one more: a label that is there gets the new value, a
/// new label is added while fewer than twenty are there, and is dropped
/// otherwise.
pub open spec fn with_field(fields: Map<Seq<u8>, Seq<u8>>, label: Seq<u8>, value: Seq<u8>) -> Map<
    Seq<u8>,
    Seq<u8>,
> {
    if fields.dom().contains(label) || fields.dom().len() < MAX_MESSAGES {
        fields.insert(label, value)
    } else {
        fields
    }
}

/// One step of frame handling: the handler after `byte`, and what the
/// byte brought.
pub open spec fn frame_step(pre: FrameHandlerView, byte: u8) -> (FrameHandlerView, FrameOutcome) {
    let sum = ((pre.checksum + byte) % 256) as u8;
    let frame = pre.frame.push(byte);
    match pre.stage {
        Stage::Scanning => if byte == 13 {
            (
                FrameHandlerView {
                    stage: Stage::Separator,
                    checksum: 13,
                    frame: seq![13u8],
                    ..scanning()
                },
                FrameOutcome::More,
            )
        } else {
            (scanning(), FrameOutcome::More)
        },
        Stage::Separator => (
            FrameHandlerView { stage: Stage::Label, checksum: sum, frame, ..pre },
            FrameOutcome::More,
        ),
        Stage::Label => if byte == 9 {
            let label = checked_text(pre.label);
            if label == "Checksum".spec_bytes() {
                (
                    FrameHandlerView {
                        stage: Stage::ChecksumByte,
                        checksum: sum,
                        frame,
                        label,
                        ..pre
                    },
                    FrameOutcome::More,
                )
            } else {
                (
                    FrameHandlerView { stage: Stage::Value, checksum: sum, frame, label, ..pre },
                    FrameOutcome::More,
                )
            }
        } else {
            (
                FrameHandlerView { checksum: sum, frame, label: kept(pre.label, byte, LABEL_SIZE as int), ..pre },
                FrameOutcome::More,
            )
        },
        Stage::Value => if byte == 13 {
            (
                FrameHandlerView {
                    stage: Stage::Separator,
                    checksum: sum,
                    frame,
                    label: Seq::empty(),
                    value: Seq::empty(),
                    fields: with_field(pre.fields, pre.label, checked_text(pre.value)),
                },
                FrameOutcome::More,
            )
        } else {
            (
                FrameHandlerView { checksum: sum, frame, value: kept(pre.value, byte, STRING_BUFFER_SIZE as int), ..pre },
                FrameOutcome::More,
            )
        },
        Stage::ChecksumByte => if sum == 0 {
            (scanning(), FrameOutcome::Frame { fields: pre.fields })
        } else {
            (scanning(), FrameOutcome::Invalid)
        },
    }
}

/// Whether a handler is sound: its checksum is the sum of the bytes of the
/// frame under way, which begins with a carriage return; between frames it
/// holds nothing; and it never holds more than fits a frame.
pub open spec fn frame_wf(v: FrameHandlerView) -> bool {
    &&& v.checksum == byte_sum(v.frame) % 256
    &&& v.stage == Stage::Scanning ==> v == scanning()
    &&& v.stage != Stage::Scanning ==> v.frame.len() > 0 && v.frame[0] == 13
    &&& v.label.len() <= LABEL_SIZE
    &&& v.value.len() <= STRING_BUFFER_SIZE
    &&& is_frame(v.fields)
}

/// The handler after all of `bytes`, taken in order from between frames.
pub open spec fn frame_state_after(bytes: Seq<u8>) -> FrameHandlerView
    decreases bytes.len(),
{
    if bytes.len() == 0 {
        scanning()
    } else {
        frame_step(frame_state_after(bytes.drop_last()), bytes.last()).0
    }
}

/// A step keeps a sound handler sound, and a frame is handed out only
/// where the bytes of the frame, the last one included, add up to zero
/// modulo 256.
pub proof fn lemma_frame_step(pre: FrameHandlerView, byte: u8)
    requires
        frame_wf(pre),
    ensures
        frame_wf(frame_step(pre, byte).0),
        frame_step(pre, byte).1 is Frame ==> pre.stage == Stage::ChecksumByte && byte_sum(
            pre.frame.push(byte),
        ) % 256 == 0,
        frame_step(pre, byte).1 matches FrameOutcome::Frame { fields } ==> is_frame(fields),
        pre.stage != Stage::Scanning && frame_step(pre, byte).0.stage != Stage::Scanning
            ==> frame_step(pre, byte).0.frame == pre.frame.push(byte),
{
    let frame = pre.frame.push(byte);
    assert(frame.drop_last() =~= pre.frame);
    assert(byte_sum(frame) == byte_sum(pre.frame) + byte);
    assert(seq![13u8].drop_last() =~= Seq::<u8>::empty());
    assert(byte_sum(seq![13u8]) == 13) by {
        reveal_with_fuel(byte_sum, 2);
    }
    assert(no_fields().dom() =~= Set::<Seq<u8>>::empty());
    if pre.stage == Stage::Value && byte == 13 {
        let label = pre.label;
        if !pre.fields.dom().contains(label) && pre.fields.dom().len() < 20 {
            assert(pre.fields.insert(label, checked_text(pre.value)).dom() =~= pre.fields.dom().insert(
                label,
            ));
        } else if pre.fields.dom().contains(label) {
            assert(pre.fields.insert(label, checked_text(pre.value)).dom() =~= pre.fields.dom());
        }
    }
}

/// The handler stays sound along any stream, and the frame under way is
/// always the tail of the stream taken so far.
pub proof fn lemma_frame_state(bytes: Seq<u8>)
    ensures
        frame_wf(frame_state_after(bytes)),
        frame_state_after(bytes).frame.len() <= bytes.len(),
        frame_state_after(bytes).frame == bytes.subrange(
            bytes.len() - frame_state_after(bytes).frame.len(),
            bytes.len() as int,
        ),
    decreases bytes.len(),
{
    if bytes.len() == 0 {
        assert(no_fields().dom() =~= Set::<Seq<u8>>::empty());
        assert(bytes.subrange(0, 0) =~= Seq::<u8>::empty());
    } else {
        let before = bytes.drop_last();
        lemma_frame_state(before);
        let pre = frame_state_after(before);
        lemma_frame_step(pre, bytes.last());
        let post = frame_step(pre, bytes.last()).0;
        if post.stage == Stage::Scanning {
            assert(post.frame =~= bytes.subrange(bytes.len() as int, bytes.len() as int));
        } else if pre.stage == Stage::Scanning {
            assert(post.frame =~= bytes.subrange(bytes.len() - 1, bytes.len() as int));
        } else {
            assert(post.frame =~= bytes.subrange(
                bytes.len() - post.frame.len(),
                bytes.len() as int,
            ));
        }
    }
}

/// Checksum discipline: whenever a stream, taken from between frames,
/// completes a frame that is handed out, the stream ends in a run of bytes
/// that begins with a carriage return and adds up to zero modulo 256, and
/// that run is the frame.
pub proof fn lemma_emitted_frames_add_up(bytes: Seq<u8>, byte: u8)
    requires
        frame_step(frame_state_after(bytes), byte).1 is Frame,
    ensures
        ({
            let stream = bytes.push(byte);
            let start = bytes.len() - frame_state_after(bytes).frame.len();
            &&& 0 <= start < bytes.len()
            &&& stream[start] == 13
            &&& byte_sum(stream.subrange(start, stream.len() as int)) % 256 == 0
        }),
{
    lemma_frame_state(bytes);
    let pre = frame_state_after(bytes);
    lemma_frame_step(pre, byte);
    let stream = bytes.push(byte);
    let start = bytes.len() - pre.frame.len();
    assert(stream.subrange(start, stream.len() as int) =~= pre.frame.push(byte));
}

/// The handler after `bytes`, taken in order by a handler in state `pre`,
/// and the frames and losses on the way, without the steps that brought
/// nothing.
pub open spec fn frame_run(pre: FrameHandlerView, bytes: Seq<u8>) -> (
    FrameHandlerView,
    Seq<FrameOutcome>,
)
    decreases bytes.len(),
{
    if bytes.len() == 0 {
        (pre, Seq::empty())
    } else {
        let (mid, seen) = frame_run(pre, bytes.drop_last());
        let (post, outcome) = frame_step(mid, bytes.last());
        if outcome is More {
            (post, seen)
        } else {
            (post, seen.push(outcome))
        }
    }
}

/// Taking two runs of bytes one after the other is taking both together.
pub proof fn lemma_frame_run_concat(pre: FrameHandlerView, a: Seq<u8>, b: Seq<u8>)
    ensures
        frame_run(pre, a + b).0 == frame_run(frame_run(pre, a).0, b).0,
        frame_run(pre, a + b).1 == frame_run(pre, a).1 + frame_run(frame_run(pre, a).0, b).1,
    decreases b.len(),
{
    if b.len() == 0 {
        assert(a + b =~= a);
        assert(frame_run(pre, a).1 + Seq::<FrameOutcome>::empty() =~= frame_run(pre, a).1);
    } else {
        lemma_frame_run_concat(pre, a, b.drop_last());
        assert((a + b).drop_last() =~= a + b.drop_last());
        assert((a + b).last() == b.last());
        let mid = frame_run(pre, a).0;
        let (x, seen) = frame_run(mid, b.drop_last());
        let outcome = frame_step(x, b.last()).1;
        if !(outcome is More) {
            assert(frame_run(pre, a).1 + seen.push(outcome) =~= (frame_run(pre, a).1 + seen).push(
                outcome,
            ));
        }
    }
}

/// A single byte is a run of one step.
pub proof fn lemma_frame_run_one(pre: FrameHandlerView, byte: u8)
    ensures
        frame_run(pre, seq![byte]).0 == frame_step(pre, byte).0,
        frame_step(pre, byte).1 is More ==> frame_run(pre, seq![byte]).1
            == Seq::<FrameOutcome>::empty(),
        !(frame_step(pre, byte).1 is More) ==> frame_run(pre, seq![byte]).1 == seq![
            frame_step(pre, byte).1,
        ],
{
    reveal_with_fuel(frame_run, 2);
    assert(seq![byte].drop_last() =~= Seq::<u8>::empty());
    assert(seq![byte].last() == byte);
    assert(Seq::<FrameOutcome>::empty().push(frame_step(pre, byte).1) =~= seq![
        frame_step(pre, byte).1,
    ]);
}

/// Whether a text can stand as a label or a value: it fits, is
/// well-formed UTF-8, and does not hold the byte that would end it.
pub open spec fn is_plain(text: Seq<u8>, limit: int, end: u8) -> bool {
    &&& text.len() <= limit
    &&& valid_utf8(text)
    &&& forall|i: int| 0 <= i < text.len() ==> text[i] != end
}

/// Whether a label with its value can stand as a field of a frame: the
/// label holds no tab and is not `Checksum`, and the value holds no
/// carriage return.
pub open spec fn is_field(field: (Seq<u8>, Seq<u8>)) -> bool {
    &&& is_plain(field.0, LABEL_SIZE as int, 9)
    &&& is_plain(field.1, STRING_BUFFER_SIZE as int, 13)
    &&& field.0 != "Checksum".spec_bytes()
}

/// The bytes of a field behind the carriage return that begins it: a line
/// feed, the label, a tab, and the value with the carriage return that
/// ends it.
pub open spec fn field_bytes(field: (Seq<u8>, Seq<u8>)) -> Seq<u8> {
    seq![10u8] + field.0 + seq![9u8] + field.1 + seq![13u8]
}

/// The bytes of fields, one after the other.
pub open spec fn fields_bytes(fields: Seq<(Seq<u8>, Seq<u8>)>) -> Seq<u8>
    decreases fields.len(),
{
    if fields.len() == 0 {
        Seq::empty()
    } else {
        fields_bytes(fields.drop_last()) + field_bytes(fields.last())
    }
}

/// The bytes of a frame: a carriage return, the fields, and the checksum
/// field with the byte `check`.
pub open spec fn frame_bytes(fields: Seq<(Seq<u8>, Seq<u8>)>, check: u8) -> Seq<u8> {
    seq![13u8] + fields_bytes(fields) + seq![10u8] + "Checksum".spec_bytes() + seq![9u8, check]
}

/// The fields that a handler holds after fields arrived one after the
/// other.
pub open spec fn fields_taken(fields: Seq<(Seq<u8>, Seq<u8>)>) -> Map<Seq<u8>, Seq<u8>>
    decreases fields.len(),
{
    if fields.len() == 0 {
        no_fields()
    } else {
        with_field(fields_taken(fields.drop_last()), fields.last().0, fields.last().1)
    }
}

/// The handler behind the carriage return that begins a field, holding
/// `fields`, after the bytes `frame` of the frame under way.
pub open spec fn at_field(fields: Map<Seq<u8>, Seq<u8>>, frame: Seq<u8>) -> FrameHandlerView {
    FrameHandlerView {
        stage: Stage::Separator,
        checksum: (byte_sum(frame) % 256) as u8,
        label: Seq::empty(),
        value: Seq::empty(),
        fields,
        frame,
    }
}

/// The bytes of a label or value join the one under way, and bring
/// nothing.
proof fn lemma_text_accumulates(pre: FrameHandlerView, text: Seq<u8>, k: int)
    requires
        frame_wf(pre),
        0 <= k <= text.len(),
        pre.stage == Stage::Label && pre.label.len() == 0 && is_plain(text, 9, 9) || pre.stage
            == Stage::Value && pre.value.len() == 0 && is_plain(text, 32, 13),
    ensures
        frame_run(pre, text.subrange(0, k)).1 == Seq::<FrameOutcome>::empty(),
        frame_wf(frame_run(pre, text.subrange(0, k)).0),
        pre.stage == Stage::Label ==> frame_run(pre, text.subrange(0, k)).0 == (FrameHandlerView {
            label: text.subrange(0, k),
            frame: pre.frame + text.subrange(0, k),
            checksum: (byte_sum(pre.frame + text.subrange(0, k)) % 256) as u8,
            ..pre
        }),
        pre.stage == Stage::Value ==> frame_run(pre, text.subrange(0, k)).0 == (FrameHandlerView {
            value: text.subrange(0, k),
            frame: pre.frame + text.subrange(0, k),
            checksum: (byte_sum(pre.frame + text.subrange(0, k)) % 256) as u8,
            ..pre
        }),
    decreases k,
{
    if k == 0 {
        assert(text.subrange(0, 0) =~= Seq::<u8>::empty());
        assert(pre.frame + text.subrange(0, 0) =~= pre.frame);
        assert(pre.label =~= Seq::<u8>::empty() || pre.stage == Stage::Value);
        assert(pre.value =~= Seq::<u8>::empty() || pre.stage == Stage::Label);
    } else {
        lemma_text_accumulates(pre, text, k - 1);
        let before = text.subrange(0, k - 1);
        let now = text.subrange(0, k);
        assert(now.drop_last() =~= before);
        assert(now.last() == text[k - 1]);
        let mid = frame_run(pre, before).0;
        lemma_frame_step(mid, text[k - 1]);
        assert(before.push(text[k - 1]) =~= now);
        assert((pre.frame + before).push(text[k - 1]) =~= pre.frame + now);
    }
}

/// A field, taken by a handler that stands behind the carriage return
/// that begins it, joins the fields and leaves the handler behind the
/// carriage return that begins the next field; it brings nothing.
proof fn lemma_field_is_taken(
    fields: Map<Seq<u8>, Seq<u8>>,
    frame: Seq<u8>,
    field: (Seq<u8>, Seq<u8>),
)
    requires
        frame_wf(at_field(fields, frame)),
        is_field(field),
    ensures
        frame_run(at_field(fields, frame), field_bytes(field)) == (
            at_field(with_field(fields, field.0, field.1), frame + field_bytes(field)),
            Seq::<FrameOutcome>::empty(),
        ),
        frame_wf(at_field(with_field(fields, field.0, field.1), frame + field_bytes(field))),
{
    let s0 = at_field(fields, frame);
    let (label, value) = field;
    let none = Seq::<FrameOutcome>::empty();
    // the line feed
    let s1 = frame_step(s0, 10).0;
    lemma_frame_step(s0, 10);
    lemma_frame_run_one(s0, 10);
    // the label
    lemma_text_accumulates(s1, label, label.len() as int);
    assert(label.subrange(0, label.len() as int) =~= label);
    let s2 = frame_run(s1, label).0;
    lemma_frame_run_concat(s0, seq![10u8], label);
    // the tab
    let s3 = frame_step(s2, 9).0;
    lemma_frame_step(s2, 9);
    lemma_frame_run_one(s2, 9);
    lemma_frame_run_concat(s0, seq![10u8] + label, seq![9u8]);
    assert(s3.stage == Stage::Value);
    assert(s3.label == label);
    // the value
    lemma_text_accumulates(s3, value, value.len() as int);
    assert(value.subrange(0, value.len() as int) =~= value);
    let s4 = frame_run(s3, value).0;
    lemma_frame_run_concat(s0, seq![10u8] + label + seq![9u8], value);
    // the carriage return
    let s5 = frame_step(s4, 13).0;
    lemma_frame_step(s4, 13);
    lemma_frame_run_one(s4, 13);
    lemma_frame_run_concat(s0, seq![10u8] + label + seq![9u8] + value, seq![13u8]);
    assert(frame_run(s0, field_bytes(field)).1 =~= none);
    assert(s5.frame =~= frame + field_bytes(field)) by {
        assert(s1.frame =~= frame.push(10u8));
        assert(s2.frame =~= s1.frame + label);
        assert(s3.frame =~= s2.frame.push(9u8));
        assert(s4.frame =~= s3.frame + value);
        assert(s5.frame =~= s4.frame.push(13u8));
    }
    assert(s5 == at_field(with_field(fields, label, value), frame + field_bytes(field)));
}

/// Fields, taken one after the other, all join the fields.
proof fn lemma_fields_are_taken(fields: Seq<(Seq<u8>, Seq<u8>)>)
    requires
        forall|i: int| 0 <= i < fields.len() ==> is_field(#[trigger] fields[i]),
    ensures
        frame_run(at_field(no_fields(), seq![13u8]), fields_bytes(fields)) == (
            at_field(fields_taken(fields), seq![13u8] + fields_bytes(fields)),
            Seq::<FrameOutcome>::empty(),
        ),
        frame_wf(at_field(fields_taken(fields), seq![13u8] + fields_bytes(fields))),
    decreases fields.len(),
{
    let start = at_field(no_fields(), seq![13u8]);
    lemma_frame_step(scanning(), 13);
    assert(frame_step(scanning(), 13).0 == start) by {
        assert(seq![13u8].drop_last() =~= Seq::<u8>::empty());
        reveal_with_fuel(byte_sum, 2);
    }
    if fields.len() == 0 {
        assert(seq![13u8] + fields_bytes(fields) =~= seq![13u8]);
    } else {
        let before = fields.drop_last();
        assert forall|i: int| 0 <= i < before.len() implies is_field(#[trigger] before[i]) by {
            assert(before[i] == fields[i]);
        }
        lemma_fields_are_taken(before);
        let frame = seq![13u8] + fields_bytes(before);
        lemma_field_is_taken(fields_taken(before), frame, fields.last());
        lemma_frame_run_concat(start, fields_bytes(before), field_bytes(fields.last()));
        assert(frame + field_bytes(fields.last()) =~= seq![13u8] + fields_bytes(fields));
        assert(Seq::<FrameOutcome>::empty() + Seq::<FrameOutcome>::empty()
            =~= Seq::<FrameOutcome>::empty());
    }
}

/// The bytes of the checksum field up to its tab: a line feed, `Checksum`
/// and a tab.
pub open spec fn checksum_label_bytes() -> Seq<u8> {
    seq![10u8] + "Checksum".spec_bytes() + seq![9u8]
}

/// The label of the checksum field, taken by a handler that stands behind
/// the carriage return that begins the field, leaves the handler waiting
/// for the checksum byte; it brings nothing.
proof fn lemma_checksum_label_is_taken(fields: Map<Seq<u8>, Seq<u8>>, frame: Seq<u8>)
    requires
        frame_wf(at_field(fields, frame)),
    ensures
        frame_run(at_field(fields, frame), checksum_label_bytes()).1
            == Seq::<FrameOutcome>::empty(),
        frame_run(at_field(fields, frame), checksum_label_bytes()).0.stage == Stage::ChecksumByte,
        frame_run(at_field(fields, frame), checksum_label_bytes()).0.fields == fields,
        frame_run(at_field(fields, frame), checksum_label_bytes()).0.frame == frame
            + checksum_label_bytes(),
        frame_wf(frame_run(at_field(fields, frame), checksum_label_bytes()).0),
{
    let none = Seq::<FrameOutcome>::empty();
    let word = "Checksum".spec_bytes();
    let s1 = at_field(fields, frame);
    reveal_strlit("Checksum");
    crate::text::lemma_ascii_len("Checksum");
    assert(word.len() == 8);
    assert(valid_utf8(word)) by {
        vstd::utf8::encode_utf8_valid_utf8("Checksum"@);
    }
    assert forall|i: int| 0 <= i < word.len() implies word[i] != 9 by {
        assert(word[i] == "Checksum"@[i] as u8);
    }
    // the line feed
    let s2 = frame_step(s1, 10).0;
    lemma_frame_step(s1, 10);
    lemma_frame_run_one(s1, 10);
    // the label
    lemma_text_accumulates(s2, word, 8);
    assert(word.subrange(0, 8) =~= word);
    let s3 = frame_run(s2, word).0;
    lemma_frame_run_concat(s1, seq![10u8], word);
    // the tab
    let s4 = frame_step(s3, 9).0;
    lemma_frame_step(s3, 9);
    lemma_frame_run_one(s3, 9);
    lemma_frame_run_concat(s1, seq![10u8] + word, seq![9u8]);
    assert(none + none =~= none);
    assert(s4.frame =~= frame + checksum_label_bytes()) by {
        assert(s2.frame =~= frame.push(10u8));
        assert(s3.frame =~= s2.frame + word);
        assert(s4.frame =~= s3.frame.push(9u8));
    }
}

/// The carriage return that begins a frame leaves a handler that stood
/// between frames behind it, holding no field.
proof fn lemma_frame_begins()
    ensures
        frame_run(scanning(), seq![13u8]) == (
            at_field(no_fields(), seq![13u8]),
            Seq::<FrameOutcome>::empty(),
        ),
        frame_wf(at_field(no_fields(), seq![13u8])),
{
    lemma_frame_step(scanning(), 13);
    lemma_frame_run_one(scanning(), 13);
    assert(no_fields().dom() =~= Set::<Seq<u8>>::empty());
    assert(frame_step(scanning(), 13).0 == at_field(no_fields(), seq![13u8])) by {
        assert(seq![13u8].drop_last() =~= Seq::<u8>::empty());
        reveal_with_fuel(byte_sum, 2);
    }
}

/// The checksum byte ends the frame: the fields are handed out if the
/// bytes of the frame add up to zero modulo 256, and the frame is dropped
/// if they do not; the handler stands between frames again.
proof fn lemma_frame_ends(pre: FrameHandlerView, check: u8)
    requires
        frame_wf(pre),
        pre.stage == Stage::ChecksumByte,
    ensures
        frame_run(pre, seq![check]).0 == scanning(),
        byte_sum(pre.frame.push(check)) % 256 == 0 ==> frame_run(pre, seq![check]).1 == seq![
            FrameOutcome::Frame { fields: pre.fields },
        ],
        byte_sum(pre.frame.push(check)) % 256 != 0 ==> frame_run(pre, seq![check]).1 == seq![
            FrameOutcome::Invalid,
        ],
{
    lemma_frame_step(pre, check);
    lemma_frame_run_one(pre, check);
    assert(pre.frame.push(check).drop_last() =~= pre.frame);
    assert(byte_sum(pre.frame.push(check)) == byte_sum(pre.frame) + check);
}

/// A whole frame is read whole: a handler between frames that takes the
/// bytes of a frame hands out, at the last byte and not before, the fields
/// of the frame if its bytes add up to zero modulo 256, and drops the frame
/// if they do not; either way it stands between frames again.
pub proof fn lemma_frame_is_read(fields: Seq<(Seq<u8>, Seq<u8>)>, check: u8)
    requires
        forall|i: int| 0 <= i < fields.len() ==> is_field(#[trigger] fields[i]),
    ensures
        frame_run(scanning(), frame_bytes(fields, check)).0 == scanning(),
        byte_sum(frame_bytes(fields, check)) % 256 == 0 ==> frame_run(
            scanning(),
            frame_bytes(fields, check),
        ).1 == seq![FrameOutcome::Frame { fields: fields_taken(fields) }],
        byte_sum(frame_bytes(fields, check)) % 256 != 0 ==> frame_run(
            scanning(),
            frame_bytes(fields, check),
        ).1 == seq![FrameOutcome::Invalid],
{
    let none = Seq::<FrameOutcome>::empty();
    let head = seq![13u8];
    let body = fields_bytes(fields);
    let label = checksum_label_bytes();
    let tail = seq![check];
    let w = frame_bytes(fields, check);
    let taken = fields_taken(fields);
    let s0 = at_field(no_fields(), head);
    let s1 = at_field(taken, head + body);
    let s4 = frame_run(s1, label).0;
    lemma_frame_begins();
    lemma_fields_are_taken(fields);
    lemma_checksum_label_is_taken(taken, head + body);
    lemma_frame_ends(s4, check);
    lemma_frame_run_concat(scanning(), head, body);
    lemma_frame_run_concat(scanning(), head + body, label);
    lemma_frame_run_concat(scanning(), head + body + label, tail);
    assert(none + none =~= none);
    assert(none + frame_run(s4, tail).1 =~= frame_run(s4, tail).1);
    assert(head + body + label + tail =~= w);
    assert(s4.frame.push(check) =~= w);
}

/// Takes the charger's stream byte by byte and hands out the fields of
/// every frame that adds up.
pub struct FrameHandler {
    stage: Stage,
    checksum: Checksum,
    label: Text,
    value: Text,
    messages: FrameMap,
    frame: Ghost<Seq<u8>>,
}

impl View for FrameHandler {
    type V = FrameHandlerView;

    closed spec fn view(&self) -> FrameHandlerView {
        FrameHandlerView {
            stage: self.stage,
            checksum: self.checksum@,
            label: self.label@,
            value: self.value@,
            fields: self.messages@,
            frame: self.frame@,
        }
    }
}

/// Appends `byte` to a label or value while it holds fewer than `limit`
/// bytes.
fn keep(buffer: &mut Text, byte: u8, limit: usize)
    requires
        old(buffer)@.len() <= limit <= 256,
    ensures
        final(buffer)@ == kept(old(buffer)@, byte, limit as int),
        final(buffer)@.len() <= limit,
{
    if buffer.len() < limit {
        let _ = text_push(buffer, byte);
    }
}

/// Takes a label or value out of its buffer, leaving the buffer empty:
/// the text itself if it is well-formed UTF-8, the empty text otherwise.
fn take_checked(buffer: &mut Text) -> (r: Text)
    ensures
        r@ == checked_text(old(buffer)@),
        final(buffer)@ == Seq::<u8>::empty(),
{
    let mut taken = text_new();
    std::mem::swap(buffer, &mut taken);
    match text_checked_utf8(taken) {
        Some(text) => text,
        None => text_new(),
    }
}

impl FrameHandler {
    /// Whether the handler is sound (see [`frame_wf`]).
    pub open spec fn wf(&self) -> bool {
        frame_wf(self@)
    }

    /// A handler between frames.
    pub fn new() -> (r: Self)
        ensures
            r@ == scanning(),
            r.wf(),
    {
        let r = FrameHandler {
            stage: Stage::Scanning,
            checksum: Checksum::new(),
            label: text_new(),
            value: text_new(),
            messages: frame_new(),
            frame: Ghost(Seq::empty()),
        };
        proof {
            assert(no_fields().dom() =~= Set::<Seq<u8>>::empty());
        }
        r
    }

    /// Takes the next byte of the stream and says what it brought. A
    /// frame is handed out only where its bytes add up to zero modulo 256.
    pub fn push_byte(&mut self, byte: u8) -> (r: FrameEvent)
        requires
            old(self).wf(),
        ensures
            final(self).wf(),
            final(self)@ == frame_step(old(self)@, byte).0,
            r@ == frame_step(old(self)@, byte).1,
            r is Frame ==> byte_sum(old(self)@.frame.push(byte)) % 256 == 0,
            r matches FrameEvent::Frame { fields } ==> is_frame(fields@),
    {
        proof {
            lemma_frame_step(self@, byte);
        }
        match self.stage {
            Stage::Scanning => {
                if byte == CR {
                    self.checksum.add(byte);
                    self.stage = Stage::Separator;
                    proof {
                        self.frame@ = seq![13u8];
                    }
                } else {
                    self.checksum.clear();
                }
                FrameEvent::More
            },
            Stage::Separator => {
                self.checksum.add(byte);
                proof {
                    self.frame@ = self.frame@.push(byte);
                }
                self.stage = Stage::Label;
                FrameEvent::More
            },
            Stage::Label => {
                self.checksum.add(byte);
                proof {
                    self.frame@ = self.frame@.push(byte);
                }
                if byte == TAB {
                    let label = take_checked(&mut self.label);
                    if bytes_eq(label.bytes(), "Checksum".as_bytes()) {
                        self.stage = Stage::ChecksumByte;
                    } else {
                        self.stage = Stage::Value;
                    }
                    self.label = label;
                } else {
                    keep(&mut self.label, byte, LABEL_SIZE);
                }
                FrameEvent::More
            },
            Stage::Value => {
                self.checksum.add(byte);
                proof {
                    self.frame@ = self.frame@.push(byte);
                }
                if byte == CR {
                    let value = take_checked(&mut self.value);
                    let mut label = text_new();
                    std::mem::swap(&mut self.label, &mut label);
                    let _ = frame_insert(&mut self.messages, label, value);
                    self.stage = Stage::Separator;
                } else {
                    keep(&mut self.value, byte, STRING_BUFFER_SIZE);
                }
                FrameEvent::More
            },
            Stage::ChecksumByte => {
                self.checksum.add(byte);
                let valid = self.checksum.is_valid();
                self.checksum.clear();
                let mut fields = frame_new();
                std::mem::swap(&mut self.messages, &mut fields);
                self.label = text_new();
                self.value = text_new();
                self.stage = Stage::Scanning;
                proof {
                    self.frame@ = Seq::empty();
                }
                if valid {
                    FrameEvent::Frame { fields }
                } else {
                    FrameEvent::Invalid
                }
            },
        }
    }

    /// Takes the next byte of the stream and, where it completes a frame
    /// that adds up, hands out the reading that the frame holds.
    pub fn read_next(&mut self, byte: u8) -> (r: Option<Reading>)
        requires
            old(self).wf(),
        ensures
            final(self).wf(),
            final(self)@ == frame_step(old(self)@, byte).0,
            match frame_step(old(self)@, byte).1 {
                FrameOutcome::Frame { fields } => r == Some(reading_of(fields)),
                _ => r.is_none(),
            },
            r.is_some() ==> byte_sum(old(self)@.frame.push(byte)) % 256 == 0,
    {
        match self.push_byte(byte) {
            FrameEvent::Frame { fields } => Some(Reading::from_frame(&fields)),
            _ => None,
        }
    }
}

impl FrameMap {
    /// The value of the field `label`, if the frame has the field.
    pub fn get(&self, label: &[u8]) -> (r: Option<&[u8]>)
        ensures
            r.is_some() == self@.dom().contains(label@),
            r matches Some(value) ==> value@ == self@[label@],
    {
        frame_get(self, label)
    }
}

/// The measurement under `label`, for a field that the charger writes
/// without sign: the number written, at most the largest signed 32-bit
/// number; zero where the frame lacks the field or its value is not such a
/// number.
pub open spec fn unsigned_field(fields: Map<Seq<u8>, Seq<u8>>, label: Seq<u8>) -> int {
    if fields.dom().contains(label) {
        match whole_u32(fields[label]) {
            Some(v) => if v > 0x7fff_ffff {
                0x7fff_ffff
            } else {
                v
            },
            None => 0,
        }
    } else {
        0
    }
}

/// The measurement under `label`, for a field that the charger writes
/// with sign: the number written; zero where the frame lacks the field or
/// its value is not such a number.
pub open spec fn signed_field(fields: Map<Seq<u8>, Seq<u8>>, label: Seq<u8>) -> int {
    if fields.dom().contains(label) {
        match whole_i32(fields[label]) {
            Some(v) => v,
            None => 0,
        }
    } else {
        0
    }
}

/// One set of measurements, in the charger's own units.
#[derive(Debug, Clone, Copy, PartialEq, Eq)]
pub struct Reading {
    /// Battery voltage in millivolts (field `V`).
    pub battery_voltage: i32,
    /// Battery current in milliamperes (field `I`).
    pub battery_current: i32,
    /// Panel voltage in millivolts (field `VPV`).
    pub panel_voltage: i32,
    /// Panel power in watts (field `PPV`).
    pub panel_power: i32,
    /// Load current in milliamperes (field `IL`).
    pub load_current: i32,
}

/// The reading that the fields of a frame hold. Fields with other labels
/// do not count.
pub open spec fn reading_of(fields: Map<Seq<u8>, Seq<u8>>) -> Reading {
    Reading {
        battery_voltage: unsigned_field(fields, "V".spec_bytes()) as i32,
        battery_current: signed_field(fields, "I".spec_bytes()) as i32,
        panel_voltage: unsigned_field(fields, "VPV".spec_bytes()) as i32,
        panel_power: unsigned_field(fields, "PPV".spec_bytes()) as i32,
        load_current: signed_field(fields, "IL".spec_bytes()) as i32,
    }
}

/// The measurement that a frame holds under `label`, for a field written
/// without sign.
fn read_unsigned_field(fields: &FrameMap, label: &[u8]) -> (r: i32)
    ensures
        r == unsigned_field(fields@, label@),
{
    match frame_get(fields, label) {
        Some(value) => match parse_u32(value) {
            Some(v) => if v > 0x7fff_ffff {
                0x7fff_ffff
            } else {
                v as i32
            },
            None => 0,
        },
        None => 0,
    }
}

/// The measurement that a frame holds under `label`, for a field written
/// with sign.
fn read_signed_field(fields: &FrameMap, label: &[u8]) -> (r: i32)
    ensures
        r == signed_field(fields@, label@),
{
    match frame_get(fields, label) {
        Some(value) => match parse_i32(value) {
            Some(v) => v,
            None => 0,
        },
        None => 0,
    }
}

impl Reading {
    /// The reading with all measurements zero.
    pub fn zero() -> (r: Self)
        ensures
            r == (Reading {
                battery_voltage: 0,
                battery_current: 0,
                panel_voltage: 0,
                panel_power: 0,
                load_current: 0,
            }),
    {
        Reading {
            battery_voltage: 0,
            battery_current: 0,
            panel_voltage: 0,
            panel_power: 0,
            load_current: 0,
        }
    }

    /// The reading that the fields of a frame hold.
    pub fn from_frame(fields: &FrameMap) -> (r: Self)
        ensures
            r == reading_of(fields@),
    {
        Reading {
            battery_voltage: read_unsigned_field(fields, "V".as_bytes()),
            battery_current: read_signed_field(fields, "I".as_bytes()),
            panel_voltage: read_unsigned_field(fields, "VPV".as_bytes()),
            panel_power: read_unsigned_field(fields, "PPV".as_bytes()),
            load_current: read_signed_field(fields, "IL".as_bytes()),
        }
    }
}

/// One of the five measurements of a reading.
#[derive(Debug, Clone, Copy, PartialEq, Eq)]
pub enum Measurement {
    BatteryVoltage,
    BatteryCurrent,
    PanelVoltage,
    PanelPower,
    LoadCurrent,
}

/// A measurement of a reading.
pub open spec fn measurement(r: Reading, m: Measurement) -> int {
    match m {
        Measurement::BatteryVoltage => r.battery_voltage as int,
        Measurement::BatteryCurrent => r.battery_current as int,
        Measurement::PanelVoltage => r.panel_voltage as int,
        Measurement::PanelPower => r.panel_power as int,
        Measurement::LoadCurrent => r.load_current as int,
    }
}

/// The sum of a measurement over readings.
pub open spec fn total(inputs: Seq<Reading>, m: Measurement) -> int
    decreases inputs.len(),
{
    if inputs.len() == 0 {
        0
    } else {
        total(inputs.drop_last(), m) + measurement(inputs.last(), m)
    }
}

/// The quotient of `t` by `n`, rounded towards zero.
pub open spec fn quotient(t: int, n: int) -> int {
    if t >= 0 {
        t / n
    } else {
        -((-t) / n)
    }
}

/// The arithmetic mean of a measurement over readings, rounded towards
/// zero to a whole number of the measurement's unit.
pub open spec fn mean(inputs: Seq<Reading>, m: Measurement) -> int {
    quotient(total(inputs, m), inputs.len() as int)
}

/// The mean of readings, measurement by measurement.
pub open spec fn mean_reading(inputs: Seq<Reading>) -> Reading {
    Reading {
        battery_voltage: mean(inputs, Measurement::BatteryVoltage) as i32,
        battery_current: mean(inputs, Measurement::BatteryCurrent) as i32,
        panel_voltage: mean(inputs, Measurement::PanelVoltage) as i32,
        panel_power: mean(inputs, Measurement::PanelPower) as i32,
        load_current: mean(inputs, Measurement::LoadCurrent) as i32,
    }
}

/// The sum of 32-bit measurements lies within as many times the 32-bit
/// range as there are readings.
pub proof fn lemma_total_bounds(inputs: Seq<Reading>, m: Measurement)
    ensures
        -0x8000_0000 * inputs.len() <= total(inputs, m) <= 0x7fff_ffff * inputs.len(),
    decreases inputs.len(),
{
    if inputs.len() > 0 {
        lemma_total_bounds(inputs.drop_last(), m);
    }
}

/// The mean of 32-bit measurements is a 32-bit number, and lies between
/// the total divided by the count and that plus or minus one: it is the
/// arithmetic mean up to rounding.
pub proof fn lemma_mean_bounds(inputs: Seq<Reading>, m: Measurement)
    requires
        inputs.len() > 0,
    ensures
        -0x8000_0000 <= mean(inputs, m) <= 0x7fff_ffff,
        total(inputs, m) >= 0 ==> mean(inputs, m) * inputs.len() <= total(inputs, m) < (mean(
            inputs,
            m,
        ) + 1) * inputs.len(),
        total(inputs, m) < 0 ==> (mean(inputs, m) - 1) * inputs.len() < total(inputs, m) <= mean(
            inputs,
            m,
        ) * inputs.len(),
{
    lemma_total_bounds(inputs, m);
    let t = total(inputs, m);
    let n = inputs.len() as int;
    vstd::arithmetic::div_mod::lemma_fundamental_div_mod(t, n);
    vstd::arithmetic::div_mod::lemma_fundamental_div_mod(-t, n);
    vstd::arithmetic::div_mod::lemma_mod_bound(t, n);
    vstd::arithmetic::div_mod::lemma_mod_bound(-t, n);
    if t >= 0 {
        vstd::arithmetic::div_mod::lemma_div_is_ordered(t, 0x7fff_ffff * n, n);
        vstd::arithmetic::div_mod::lemma_div_multiples_vanish(0x7fff_ffff, n);
        vstd::arithmetic::div_mod::lemma_div_pos_is_pos(t, n);
        assert(n * (t / n) == (t / n) * n) by (nonlinear_arith);
        assert(((t / n) + 1) * n == (t / n) * n + n) by (nonlinear_arith);
    } else {
        vstd::arithmetic::div_mod::lemma_div_is_ordered(-t, 0x8000_0000 * n, n);
        vstd::arithmetic::div_mod::lemma_div_multiples_vanish(0x8000_0000, n);
        vstd::arithmetic::div_mod::lemma_div_pos_is_pos(-t, n);
        let q = (-t) / n;
        assert(n * q == q * n) by (nonlinear_arith);
        assert((-q) * n == -(q * n)) by (nonlinear_arith);
        assert((-q - 1) * n == -(q * n) - n) by (nonlinear_arith);
    }
}

/// The readings of the interval under way, as sums and a count.
pub struct Averaging {
    battery_voltage: i64,
    battery_current: i64,
    panel_voltage: i64,
    panel_power: i64,
    load_current: i64,
    count: u32,
    inputs: Ghost<Seq<Reading>>,
}

impl View for Averaging {
    type V = Seq<Reading>;

    closed spec fn view(&self) -> Seq<Reading> {
        self.inputs@
    }
}

/// The quotient of a sum by a count, rounded towards zero.
fn divide(sum: i64, count: u32) -> (r: i64)
    requires
        count > 0,
        sum > i64::MIN,
    ensures
        r == quotient(sum as int, count as int),
{
    if sum >= 0 {
        sum / (count as i64)
    } else {
        0 - ((0 - sum) / (count as i64))
    }
}

impl Averaging {
    /// Whether the sums and the count are those of the readings taken.
    pub closed spec fn wf(&self) -> bool {
        &&& self.count == self.inputs@.len()
        &&& self.battery_voltage == total(self.inputs@, Measurement::BatteryVoltage)
        &&& self.battery_current == total(self.inputs@, Measurement::BatteryCurrent)
        &&& self.panel_voltage == total(self.inputs@, Measurement::PanelVoltage)
        &&& self.panel_power == total(self.inputs@, Measurement::PanelPower)
        &&& self.load_current == total(self.inputs@, Measurement::LoadCurrent)
    }

    /// An interval without readings.
    pub fn new() -> (r: Self)
        ensures
            r.wf(),
            r@ == Seq::<Reading>::empty(),
    {
        Averaging {
            battery_voltage: 0,
            battery_current: 0,
            panel_voltage: 0,
            panel_power: 0,
            load_current: 0,
            count: 0,
            inputs: Ghost(Seq::empty()),
        }
    }

    /// The number of readings taken in the interval.
    pub fn count(&self) -> (r: u32)
        requires
            self.wf(),
        ensures
            r == self@.len(),
    {
        self.count
    }

    /// Takes a reading into the interval. A reading beyond the largest
    /// count that 32 bits hold is not taken, and `false` says so.
    pub fn add_reading(&mut self, reading: &Reading) -> (r: bool)
        requires
            old(self).wf(),
        ensures
            final(self).wf(),
            r == (old(self)@.len() < u32::MAX),
            r ==> final(self)@ == old(self)@.push(*reading),
            !r ==> final(self)@ == old(self)@,
    {
        if self.count == u32::MAX {
            return false;
        }
        proof {
            lemma_total_bounds(self.inputs@, Measurement::BatteryVoltage);
            lemma_total_bounds(self.inputs@, Measurement::BatteryCurrent);
            lemma_total_bounds(self.inputs@, Measurement::PanelVoltage);
            lemma_total_bounds(self.inputs@, Measurement::PanelPower);
            lemma_total_bounds(self.inputs@, Measurement::LoadCurrent);
            assert(self.inputs@.push(*reading).drop_last() =~= self.inputs@);
        }
        self.battery_voltage = self.battery_voltage + reading.battery_voltage as i64;
        self.battery_current = self.battery_current + reading.battery_current as i64;
        self.panel_voltage = self.panel_voltage + reading.panel_voltage as i64;
        self.panel_power = self.panel_power + reading.panel_power as i64;
        self.load_current = self.load_current + reading.load_current as i64;
        self.count = self.count + 1;
        proof {
            self.inputs@ = self.inputs@.push(*reading);
        }
        true
    }

    /// Ends the interval: hands out the mean of the readings taken,
    /// measurement by measurement, with their count, and starts an interval
    /// without readings. Nothing is handed out, and nothing changes, where
    /// no reading was taken.
    pub fn average(&mut self) -> (r: Option<(Reading, u32)>)
        requires
            old(self).wf(),
        ensures
            final(self).wf(),
            final(self)@ == Seq::<Reading>::empty(),
            old(self)@.len() == 0 ==> r.is_none(),
            old(self)@.len() > 0 ==> r == Some((mean_reading(old(self)@), old(self)@.len() as u32)),
            r matches Some((_, count)) ==> count >= 1,
    {
        if self.count == 0 {
            assert(self.inputs@ =~= Seq::<Reading>::empty());
            return None;
        }
        let count = self.count;
        proof {
            lemma_total_bounds(self.inputs@, Measurement::BatteryVoltage);
            lemma_total_bounds(self.inputs@, Measurement::BatteryCurrent);
            lemma_total_bounds(self.inputs@, Measurement::PanelVoltage);
            lemma_total_bounds(self.inputs@, Measurement::PanelPower);
            lemma_total_bounds(self.inputs@, Measurement::LoadCurrent);
            lemma_mean_bounds(self.inputs@, Measurement::BatteryVoltage);
            lemma_mean_bounds(self.inputs@, Measurement::BatteryCurrent);
            lemma_mean_bounds(self.inputs@, Measurement::PanelVoltage);
            lemma_mean_bounds(self.inputs@, Measurement::PanelPower);
            lemma_mean_bounds(self.inputs@, Measurement::LoadCurrent);
        }
        let reading = Reading {
            battery_voltage: divide(self.battery_voltage, count) as i32,
            battery_current: divide(self.battery_current, count) as i32,
            panel_voltage: divide(self.panel_voltage, count) as i32,
            panel_power: divide(self.panel_power, count) as i32,
            load_current: divide(self.load_current, count) as i32,
        };
        self.battery_voltage = 0;
        self.battery_current = 0;
        self.panel_voltage = 0;
        self.panel_power = 0;
        self.load_current = 0;
        self.count = 0;
        proof {
            self.inputs@ = Seq::empty();
        }
        Some((reading, count))
    }
}

/// What a [`Runner`] holds.
pub struct RunnerView {
    pub handler: FrameHandlerView,
    pub inputs: Seq<Reading>,
    pub average_interval_ms: u64,
    pub end_ms: u64,
}

/// The end of an interval that begins at `now_ms`; it stops at the largest
/// time that 64 bits hold.
pub open spec fn interval_end(now_ms: u64, average_interval_ms: u64) -> u64 {
    if now_ms + average_interval_ms > u64::MAX {
        u64::MAX
    } else {
        (now_ms + average_interval_ms) as u64
    }
}

/// One step of the averaging runner at time `now_ms`. A byte that
/// completes no frame, or one that does not add up, only moves the frame
/// handler. A reading joins the interval; if the interval's end is reached
/// by then, the mean of the interval is handed out with its count, and the
/// next interval begins now.
pub open spec fn averaging_step(pre: RunnerView, byte: u8, now_ms: u64) -> (
    RunnerView,
    Option<(Reading, u32)>,
) {
    let (handler, outcome) = frame_step(pre.handler, byte);
    match outcome {
        FrameOutcome::Frame { fields } => {
            let inputs = if pre.inputs.len() < u32::MAX {
                pre.inputs.push(reading_of(fields))
            } else {
                pre.inputs
            };
            if now_ms >= pre.end_ms {
                (
                    RunnerView {
                        handler,
                        inputs: Seq::empty(),
                        end_ms: interval_end(now_ms, pre.average_interval_ms),
                        ..pre
                    },
                    Some((mean_reading(inputs), inputs.len() as u32)),
                )
            } else {
                (RunnerView { handler, inputs, ..pre }, None)
            }
        },
        _ => (RunnerView { handler, ..pre }, None),
    }
}

/// Reads the charger and hands out one averaged reading per interval.
pub struct Runner {
    frame_handler: FrameHandler,
    averaging: Averaging,
    average_interval_ms: u64,
    end_ms: u64,
}

impl View for Runner {
    type V = RunnerView;

    closed spec fn view(&self) -> RunnerView {
        RunnerView {
            handler: self.frame_handler@,
            inputs: self.averaging@,
            average_interval_ms: self.average_interval_ms,
            end_ms: self.end_ms,
        }
    }
}

/// The end of an interval that begins at `now_ms`.
fn end_of_interval(now_ms: u64, average_interval_ms: u64) -> (r: u64)
    ensures
        r == interval_end(now_ms, average_interval_ms),
{
    if now_ms > u64::MAX - average_interval_ms {
        u64::MAX
    } else {
        now_ms + average_interval_ms
    }
}

impl Runner {
    /// Whether the runner is sound: its frame handler and its interval
    /// are.
    pub closed spec fn wf(&self) -> bool {
        self.frame_handler.wf() && self.averaging.wf()
    }

    /// A runner whose first interval begins at `now_ms`.
    pub fn new(average_interval_ms: u64, now_ms: u64) -> (r: Self)
        ensures
            r.wf(),
            r@ == (RunnerView {
                handler: scanning(),
                inputs: Seq::empty(),
                average_interval_ms,
                end_ms: interval_end(now_ms, average_interval_ms),
            }),
    {
        Runner {
            frame_handler: FrameHandler::new(),
            averaging: Averaging::new(),
            average_interval_ms,
            end_ms: end_of_interval(now_ms, average_interval_ms),
        }
    }

    /// Takes the next byte of the charger's stream at time `now_ms` and
    /// hands out the averaged reading where the byte ends an interval.
    pub fn averaging_once(&mut self, byte: u8, now_ms: u64) -> (r: Option<(Reading, u32)>)
        requires
            old(self).wf(),
        ensures
            final(self).wf(),
            final(self)@ == averaging_step(old(self)@, byte, now_ms).0,
            r == averaging_step(old(self)@, byte, now_ms).1,
            r matches Some((_, count)) ==> count >= 1,
    {
        match self.frame_handler.read_next(byte) {
            Some(reading) => {
                let _ = self.averaging.add_reading(&reading);
                if now_ms >= self.end_ms {
                    self.end_ms = end_of_interval(now_ms, self.average_interval_ms);
                    self.averaging.average()
                } else {
                    None
                }
            },
            None => None,
        }
    }
}

} // verus!
