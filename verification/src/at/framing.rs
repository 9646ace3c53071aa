//! Cutting the modem's byte stream into lines.

use crate::bounded::{text_checked_utf8, text_new, text_push, Text, AT_BUFFER_SIZE};
use crate::text::{CR, LF};
use vstd::prelude::*;
use vstd::utf8::valid_utf8;

verus! {

/// What a [`LineReader`] holds: the bytes of the line under way, and whether
/// a carriage return was seen since the last line feed.
pub struct LineReaderView {
    pub buffer: Seq<u8>,
    pub have_cr: bool,
}

/// What feeding one byte brought, in specifications.
pub enum LineOutcome {
    /// No line is complete.
    More,
    /// A line is complete. `bare_lf` says that its line feed came without a
    /// carriage return, which is accepted and worth a note in the log.
    Line { line: Seq<u8>, bare_lf: bool },
    /// A line was complete but is not valid UTF-8; it is dropped.
    Dropped,
    /// The byte did not fit the line buffer and is lost.
    Overflow,
}

/// What feeding one byte brought.
pub enum LineEvent {
    /// No line is complete.
    More,
    /// A line is complete. `bare_lf` says that its line feed came without a
    /// carriage return, which is accepted and worth a note in the log.
    Line { line: Text, bare_lf: bool },
    /// A line was complete but is not valid UTF-8; it is dropped.
    Dropped,
    /// The byte did not fit the line buffer and is lost: a capacity error
    /// for whoever waits for the line.
    Overflow,
}

impl View for LineEvent {
    type V = LineOutcome;

    open spec fn view(&self) -> LineOutcome {
        match *self {
            LineEvent::More => LineOutcome::More,
            LineEvent::Line { line, bare_lf } => LineOutcome::Line { line: line@, bare_lf },
            LineEvent::Dropped => LineOutcome::Dropped,
            LineEvent::Overflow => LineOutcome::Overflow,
        }
    }
}

/// The reader before any byte.
pub open spec fn line_start() -> LineReaderView {
    LineReaderView { buffer: Seq::empty(), have_cr: false }
}

/// One step of line framing. A carriage return is noted and otherwise
/// skipped. A line feed ends the line: an empty one is dropped, one that is
/// not UTF-8 is dropped, any other is handed out. Every other byte joins the
/// line while the line holds fewer than 256 bytes.
pub open spec fn line_step(pre: LineReaderView, byte: u8) -> (LineReaderView, LineOutcome) {
    if byte == 13 {
        (LineReaderView { buffer: pre.buffer, have_cr: true }, LineOutcome::More)
    } else if byte == 10 {
        if pre.buffer.len() == 0 {
            (line_start(), LineOutcome::More)
        } else if valid_utf8(pre.buffer) {
            (line_start(), LineOutcome::Line { line: pre.buffer, bare_lf: !pre.have_cr })
        } else {
            (line_start(), LineOutcome::Dropped)
        }
    } else if pre.buffer.len() < AT_BUFFER_SIZE {
        (LineReaderView { buffer: pre.buffer.push(byte), have_cr: pre.have_cr }, LineOutcome::More)
    } else {
        (LineReaderView { buffer: pre.buffer, have_cr: false }, LineOutcome::Overflow)
    }
}

/// Whether `line` can travel as one line: it is not empty, fits the buffer,
/// holds neither carriage return nor line feed, and is valid UTF-8.
pub open spec fn is_plain_line(line: Seq<u8>) -> bool {
    &&& 0 < line.len() <= AT_BUFFER_SIZE
    &&& valid_utf8(line)
    &&& forall|i: int| 0 <= i < line.len() ==> line[i] != 13 && line[i] != 10
}

/// Assembles lines from single bytes.
pub struct LineReader {
    line_buffer: Text,
    have_cr: bool,
}

impl View for LineReader {
    type V = LineReaderView;

    closed spec fn view(&self) -> LineReaderView {
        LineReaderView { buffer: self.line_buffer@, have_cr: self.have_cr }
    }
}

impl LineReader {
    /// A reader that has seen no byte.
    pub fn new() -> (r: Self)
        ensures
            r@ == line_start(),
    {
        let r = LineReader { line_buffer: text_new(), have_cr: false };
        assert(r@.buffer =~= line_start().buffer);
        r
    }

    /// Takes the next byte of the stream and says what it completed.
    pub fn push_byte(&mut self, byte: u8) -> (r: LineEvent)
        ensures
            final(self)@ == line_step(old(self)@, byte).0,
            r@ == line_step(old(self)@, byte).1,
    {
        if byte == CR {
            self.have_cr = true;
            return LineEvent::More;
        }
        if byte == LF {
            let bare_lf = !self.have_cr;
            self.have_cr = false;
            if self.line_buffer.is_empty() {
                assert(self@.buffer =~= line_start().buffer);
                return LineEvent::More;
            }
            let mut taken = text_new();
            std::mem::swap(&mut self.line_buffer, &mut taken);
            assert(self@.buffer =~= line_start().buffer);
            return match text_checked_utf8(taken) {
                Some(line) => LineEvent::Line { line, bare_lf },
                None => LineEvent::Dropped,
            };
        }
        match text_push(&mut self.line_buffer, byte) {
            Ok(()) => LineEvent::More,
            Err(_) => {
                self.have_cr = false;
                LineEvent::Overflow
            },
        }
    }
}

/// After the bytes of a plain line, fed to a reader that holds nothing, the
/// reader holds exactly that line and has handed out nothing.
pub proof fn lemma_line_accumulates(pre: LineReaderView, line: Seq<u8>, k: int)
    requires
        pre.buffer.len() == 0,
        is_plain_line(line),
        0 <= k <= line.len(),
    ensures
        line_run(pre, line.subrange(0, k)).0 == (LineReaderView {
            buffer: line.subrange(0, k),
            have_cr: pre.have_cr,
        }),
        line_run(pre, line.subrange(0, k)).1 == Seq::<LineOutcome>::empty(),
    decreases k,
{
    if k == 0 {
        assert(line.subrange(0, 0) =~= Seq::<u8>::empty());
        assert(pre.buffer =~= line.subrange(0, 0));
    } else {
        lemma_line_accumulates(pre, line, k - 1);
        assert(line.subrange(0, k).drop_last() =~= line.subrange(0, k - 1));
        assert(line.subrange(0, k).last() == line[k - 1]);
        assert(line.subrange(0, k - 1).push(line[k - 1]) =~= line.subrange(0, k));
    }
}

/// The reader after `bytes`, fed in order to a reader in state `pre`, and
/// the lines and losses on the way, without the steps that brought nothing.
pub open spec fn line_run(pre: LineReaderView, bytes: Seq<u8>) -> (LineReaderView, Seq<LineOutcome>)
    decreases bytes.len(),
{
    if bytes.len() == 0 {
        (pre, Seq::empty())
    } else {
        let (mid, seen) = line_run(pre, bytes.drop_last());
        let (post, outcome) = line_step(mid, bytes.last());
        if outcome is More {
            (post, seen)
        } else {
            (post, seen.push(outcome))
        }
    }
}

/// Line framing: a plain line followed by carriage return and line feed,
/// fed to a reader that holds nothing, comes out as exactly that line, and
/// leaves the reader holding nothing.
pub proof fn lemma_framed_line_is_read(pre: LineReaderView, line: Seq<u8>)
    requires
        pre.buffer.len() == 0,
        is_plain_line(line),
    ensures
        line_run(pre, line + seq![13u8, 10u8]) == (
            line_start(),
            seq![LineOutcome::Line { line, bare_lf: false }],
        ),
{
    let all = line + seq![13u8, 10u8];
    let with_cr = line + seq![13u8];
    lemma_line_accumulates(pre, line, line.len() as int);
    assert(line.subrange(0, line.len() as int) =~= line);
    assert(all.drop_last() =~= with_cr);
    assert(with_cr.drop_last() =~= line);
    assert(line_run(pre, with_cr) == (
        LineReaderView { buffer: line, have_cr: true },
        Seq::<LineOutcome>::empty(),
    ));
    assert(Seq::<LineOutcome>::empty().push(LineOutcome::Line { line, bare_lf: false }) =~= seq![
        LineOutcome::Line { line, bare_lf: false },
    ]);
}

} // verus!
