//! One exchange with the modem, from the first byte written to its result.
//!
//! An exchange is a short script of steps for whoever owns the serial
//! line: write these bytes, collect lines until a rule is met, read so many
//! raw bytes. The scripts of the three exchanges (a command, an HTTP body
//! read, an HTTP body write) are built here, and so is the decision taken
//! on every line that arrives while lines are collected.

use crate::at::{AtCommandRequest, AtError};
use crate::bounded::{Lines, Text, AT_BUFFER_SIZE, MAX_RESPONSE_LINES};
use crate::text::{bytes_eq, decimal, has_prefix, push_bytes, push_decimal, starts_with, CR, LF};
use vstd::prelude::*;
use vstd::string::StringSliceAdditionalSpecFns;

verus! {

/// Timeout for the terminator of an HTTP body command, in milliseconds.
pub const HTTP_COMMAND_TIMEOUT_MS: u64 = 10_000;

/// Timeout for the lines that bracket an HTTP body, in milliseconds.
pub const HTTP_BODY_TIMEOUT_MS: u64 = 120_000;

/// What a line means while a response is collected.
#[derive(Debug, Clone, Copy, PartialEq, Eq)]
pub enum LineKind {
    /// `OK` or `DOWNLOAD`: the command succeeded.
    Success,
    /// `ERROR`: the command failed.
    Failure,
    /// The command itself, echoed by the modem.
    Echo,
    /// Anything else: a line of the response.
    Data,
}

/// What a line means in the response to `command`.
pub open spec fn line_kind(line: Seq<u8>, command: Seq<u8>) -> LineKind {
    if line == "OK".spec_bytes() || line == "DOWNLOAD".spec_bytes() {
        LineKind::Success
    } else if line == "ERROR".spec_bytes() {
        LineKind::Failure
    } else if line == command {
        LineKind::Echo
    } else {
        LineKind::Data
    }
}

/// Says what `line` means in the response to `command`.
pub fn classify_line(line: &[u8], command: &[u8]) -> (r: LineKind)
    ensures
        r == line_kind(line@, command@),
{
    if bytes_eq(line, "OK".as_bytes()) || bytes_eq(line, "DOWNLOAD".as_bytes()) {
        LineKind::Success
    } else if bytes_eq(line, "ERROR".as_bytes()) {
        LineKind::Failure
    } else if bytes_eq(line, command) {
        LineKind::Echo
    } else {
        LineKind::Data
    }
}

/// Where collecting lines stands after a line.
#[derive(Debug, Clone, Copy, PartialEq, Eq)]
pub enum Collected {
    /// The rule is not met yet: read the next line.
    More,
    /// The rule is met.
    Complete,
    /// Collecting failed.
    Failed(AtError),
}

/// The rule that ends a run of collected lines, in specifications.
pub enum UntilView {
    Terminator { echo: Seq<u8> },
    Prefix { prefix: Seq<u8> },
}

/// The rule that ends a run of collected lines.
pub enum Until {
    /// Collect until `OK` or `DOWNLOAD` (success) or `ERROR` (failure);
    /// lines equal to `echo` are skipped.
    Terminator { echo: Text },
    /// Collect until a line begins with `prefix`; that line is kept.
    Prefix { prefix: Text },
}

impl View for Until {
    type V = UntilView;

    open spec fn view(&self) -> UntilView {
        match *self {
            Until::Terminator { echo } => UntilView::Terminator { echo: echo@ },
            Until::Prefix { prefix } => UntilView::Prefix { prefix: prefix@ },
        }
    }
}

/// The lines kept and the standing after `line` arrives while a response
/// is collected up to its terminator. A terminator ends the run whatever
/// was collected before; an echo is skipped; any other line is kept, and
/// a fifth one is a capacity error.
pub open spec fn response_step(lines: Seq<Seq<u8>>, echo: Seq<u8>, line: Seq<u8>) -> (
    Seq<Seq<u8>>,
    Collected,
) {
    match line_kind(line, echo) {
        LineKind::Success => (lines, Collected::Complete),
        LineKind::Failure => (lines, Collected::Failed(AtError::ModemError)),
        LineKind::Echo => (lines, Collected::More),
        LineKind::Data => if lines.len() < MAX_RESPONSE_LINES {
            (lines.push(line), Collected::More)
        } else {
            (lines, Collected::Failed(AtError::CapacityError))
        },
    }
}

/// The lines kept and the standing after `line` arrives while a line with
/// `prefix` is awaited. Every line is kept, the awaited one too; a fifth
/// one is a capacity error even if it is the awaited one.
pub open spec fn urc_step(lines: Seq<Seq<u8>>, prefix: Seq<u8>, line: Seq<u8>) -> (
    Seq<Seq<u8>>,
    Collected,
) {
    if lines.len() >= MAX_RESPONSE_LINES {
        (lines, Collected::Failed(AtError::CapacityError))
    } else if has_prefix(line, prefix) {
        (lines.push(line), Collected::Complete)
    } else {
        (lines.push(line), Collected::More)
    }
}

/// The lines kept and the standing after `line` arrives under `rule`.
pub open spec fn collect_step(lines: Seq<Seq<u8>>, rule: UntilView, line: Seq<u8>) -> (
    Seq<Seq<u8>>,
    Collected,
) {
    match rule {
        UntilView::Terminator { echo } => response_step(lines, echo, line),
        UntilView::Prefix { prefix } => urc_step(lines, prefix, line),
    }
}

/// Takes a line that arrived while the response to a command is collected
/// up to its terminator.
pub fn accept_response_line(lines: &mut Lines, echo: &[u8], line: Text) -> (r: Collected)
    ensures
        (final(lines)@, r) == response_step(old(lines)@, echo@, line@),
{
    match classify_line(line.bytes(), echo) {
        LineKind::Success => Collected::Complete,
        LineKind::Failure => Collected::Failed(AtError::ModemError),
        LineKind::Echo => Collected::More,
        LineKind::Data => {
            if lines.push(line) {
                Collected::More
            } else {
                Collected::Failed(AtError::CapacityError)
            }
        },
    }
}

/// Takes a line that arrived while a line with `prefix` is awaited.
pub fn accept_urc_line(lines: &mut Lines, prefix: &[u8], line: Text) -> (r: Collected)
    ensures
        (final(lines)@, r) == urc_step(old(lines)@, prefix@, line@),
{
    let prefix_match = starts_with(line.bytes(), prefix);
    if !lines.push(line) {
        Collected::Failed(AtError::CapacityError)
    } else if prefix_match {
        Collected::Complete
    } else {
        Collected::More
    }
}

/// Takes a line that arrived while lines are collected under `rule`.
pub fn accept_line(lines: &mut Lines, rule: &Until, line: Text) -> (r: Collected)
    ensures
        (final(lines)@, r) == collect_step(old(lines)@, rule@, line@),
{
    match rule {
        Until::Terminator { echo } => accept_response_line(lines, echo.bytes(), line),
        Until::Prefix { prefix } => accept_urc_line(lines, prefix.bytes(), line),
    }
}

/// The lines kept, the standing and the number of lines taken after
/// `incoming` arrives under `rule`; collecting stops at the first line that
/// completes or fails the rule.
pub open spec fn collect_all(lines: Seq<Seq<u8>>, rule: UntilView, incoming: Seq<Seq<u8>>) -> (
    Seq<Seq<u8>>,
    Collected,
    nat,
)
    decreases incoming.len(),
{
    if incoming.len() == 0 {
        (lines, Collected::More, 0)
    } else {
        let (kept, standing) = collect_step(lines, rule, incoming[0]);
        if standing == Collected::More {
            let (all, last, taken) = collect_all(kept, rule, incoming.skip(1));
            (all, last, taken + 1)
        } else {
            (kept, standing, 1)
        }
    }
}

/// The lines among `incoming` that are not the echo of the command.
pub open spec fn without_echo(incoming: Seq<Seq<u8>>, echo: Seq<u8>) -> Seq<Seq<u8>>
    decreases incoming.len(),
{
    if incoming.len() == 0 {
        Seq::empty()
    } else if incoming[0] == echo {
        without_echo(incoming.skip(1), echo)
    } else {
        seq![incoming[0]] + without_echo(incoming.skip(1), echo)
    }
}

/// A response is its lines in the order of arrival: where the lines before
/// the first terminator are echoes of the command and lines of the
/// response, and the lines of the response fit, a terminator of success
/// completes the response with exactly those lines, echoes left out, behind
/// the lines collected before; what arrives behind the terminator is not
/// taken.
pub proof fn lemma_response_is_collected(
    lines: Seq<Seq<u8>>,
    echo: Seq<u8>,
    before: Seq<Seq<u8>>,
    terminator: Seq<u8>,
    behind: Seq<Seq<u8>>,
)
    requires
        forall|i: int|
            0 <= i < before.len() ==> line_kind(#[trigger] before[i], echo) == LineKind::Data
                || line_kind(before[i], echo) == LineKind::Echo,
        lines.len() + without_echo(before, echo).len() <= MAX_RESPONSE_LINES,
        line_kind(terminator, echo) == LineKind::Success,
    ensures
        collect_all(lines, UntilView::Terminator { echo }, before + seq![terminator] + behind) == (
            lines + without_echo(before, echo),
            Collected::Complete,
            (before.len() + 1) as nat,
        ),
    decreases before.len(),
{
    let rule = UntilView::Terminator { echo };
    let incoming = before + seq![terminator] + behind;
    if before.len() == 0 {
        assert(incoming[0] == terminator);
        assert(lines + without_echo(before, echo) =~= lines);
    } else {
        assert(incoming[0] == before[0]);
        assert(incoming.skip(1) =~= before.skip(1) + seq![terminator] + behind);
        let kept = collect_step(lines, rule, before[0]).0;
        assert forall|i: int| 0 <= i < before.skip(1).len() implies line_kind(
            #[trigger] before.skip(1)[i],
            echo,
        ) == LineKind::Data || line_kind(before.skip(1)[i], echo) == LineKind::Echo by {
            assert(before.skip(1)[i] == before[i + 1]);
        }
        lemma_response_is_collected(kept, echo, before.skip(1), terminator, behind);
        assert(kept + without_echo(before.skip(1), echo) =~= lines + without_echo(before, echo));
    }
}

/// A deferred result is awaited: where the lines before the first line
/// with the prefix fit together with that line, the line with the prefix
/// completes the wait, and all of them are kept in the order of arrival
/// behind the lines collected before.
pub proof fn lemma_urc_is_awaited(
    lines: Seq<Seq<u8>>,
    prefix: Seq<u8>,
    before: Seq<Seq<u8>>,
    awaited: Seq<u8>,
    behind: Seq<Seq<u8>>,
)
    requires
        forall|i: int| 0 <= i < before.len() ==> !has_prefix(#[trigger] before[i], prefix),
        has_prefix(awaited, prefix),
        lines.len() + before.len() + 1 <= MAX_RESPONSE_LINES,
    ensures
        collect_all(lines, UntilView::Prefix { prefix }, before + seq![awaited] + behind) == (
            lines + before + seq![awaited],
            Collected::Complete,
            (before.len() + 1) as nat,
        ),
    decreases before.len(),
{
    let rule = UntilView::Prefix { prefix };
    let incoming = before + seq![awaited] + behind;
    if before.len() == 0 {
        assert(incoming[0] == awaited);
        assert(lines.push(awaited) =~= lines + before + seq![awaited]);
    } else {
        assert(incoming[0] == before[0]);
        assert(incoming.skip(1) =~= before.skip(1) + seq![awaited] + behind);
        assert forall|i: int| 0 <= i < before.skip(1).len() implies !has_prefix(
            #[trigger] before.skip(1)[i],
            prefix,
        ) by {
            assert(before.skip(1)[i] == before[i + 1]);
        }
        lemma_urc_is_awaited(lines.push(before[0]), prefix, before.skip(1), awaited, behind);
        assert(lines.push(before[0]) + before.skip(1) + seq![awaited] =~= lines + before + seq![
            awaited,
        ]);
    }
}

/// What may end a step of an exchange otherwise than by its success.
#[derive(Debug, Clone, Copy, PartialEq, Eq)]
pub enum Interruption {
    /// The timer of a collection ran out.
    TimedOut,
    /// A line did not fit the line buffer.
    LineOverflow,
    /// The serial line failed while bytes were written.
    WriteFailed,
    /// The serial line failed while a body was read.
    ReadFailed,
}

/// The error that an interruption ends the exchange with.
pub fn interrupted(by: Interruption) -> (r: AtError)
    ensures
        r == (match by {
            Interruption::TimedOut => AtError::Timeout,
            Interruption::LineOverflow => AtError::CapacityError,
            Interruption::WriteFailed => AtError::TransportError,
            Interruption::ReadFailed => AtError::TransportError,
        }),
{
    match by {
        Interruption::TimedOut => AtError::Timeout,
        Interruption::LineOverflow => AtError::CapacityError,
        Interruption::WriteFailed => AtError::TransportError,
        Interruption::ReadFailed => AtError::TransportError,
    }
}

/// An `ERROR` line ends a response with a modem error, however many lines
/// were collected before it.
pub proof fn lemma_error_line_fails(lines: Seq<Seq<u8>>, echo: Seq<u8>)
    ensures
        response_step(lines, echo, "ERROR".spec_bytes()) == (
            lines,
            Collected::Failed(AtError::ModemError),
        ),
{
    reveal_strlit("OK");
    reveal_strlit("DOWNLOAD");
    reveal_strlit("ERROR");
    crate::text::lemma_ascii_len("OK");
    crate::text::lemma_ascii_len("DOWNLOAD");
    crate::text::lemma_ascii_len("ERROR");
}

/// One step of an exchange, in specifications.
pub enum StepView {
    Write { bytes: Seq<u8> },
    WriteBody,
    Collect { rule: UntilView, timeout_ms: u64 },
    DiscardLines,
    ReadBody { len: usize },
}

/// One step of an exchange, for whoever owns the serial line. A step that
/// fails ends the exchange: a collection with the error that
/// [`accept_line`] gave, any other step with the error that
/// [`interrupted`] gives.
pub enum Step {
    /// Write these bytes.
    Write { bytes: Vec<u8> },
    /// Write the body that the exchange was started for.
    WriteBody,
    /// Start a timer of `timeout_ms`, then hand every line read to
    /// [`accept_line`] under `rule` until it completes or fails.
    Collect { rule: Until, timeout_ms: u64 },
    /// Forget the lines collected so far.
    DiscardLines,
    /// Read exactly `len` raw bytes into the body buffer.
    ReadBody { len: usize },
}

impl View for Step {
    type V = StepView;

    open spec fn view(&self) -> StepView {
        match *self {
            Step::Write { bytes } => StepView::Write { bytes: bytes@ },
            Step::WriteBody => StepView::WriteBody,
            Step::Collect { rule, timeout_ms } => StepView::Collect { rule: rule@, timeout_ms },
            Step::DiscardLines => StepView::DiscardLines,
            Step::ReadBody { len } => StepView::ReadBody { len },
        }
    }
}

/// The steps of a script, in specifications.
pub open spec fn script_view(script: Seq<Step>) -> Seq<StepView> {
    script.map_values(|s: Step| s@)
}

/// The bytes that send `command`: the command, a carriage return and a
/// line feed.
pub open spec fn wire_of(command: Seq<u8>) -> Seq<u8> {
    command + seq![13u8, 10u8]
}

/// The script of a command: send it, collect the response up to the
/// terminator, and, where the command has a deferred result, go on
/// collecting until the line with its prefix. Both collections run under
/// the command's timeout.
pub open spec fn command_script_of(request: crate::at::AtCommandRequestView) -> Seq<StepView> {
    let head = seq![
        StepView::Write { bytes: wire_of(request.command) },
        StepView::Collect {
            rule: UntilView::Terminator { echo: request.command },
            timeout_ms: request.timeout_ms,
        },
    ];
    match request.urc_prefix {
        Some(prefix) => head.push(
            StepView::Collect { rule: UntilView::Prefix { prefix }, timeout_ms: request.timeout_ms },
        ),
        None => head,
    }
}

/// The text of the command that reads `len` body bytes from `offset`.
pub open spec fn http_read_command(offset: usize, len: usize) -> Seq<u8> {
    "AT+HTTPREAD=".spec_bytes() + decimal(offset as nat) + ",".spec_bytes() + decimal(len as nat)
}

/// The prefix of the line that announces `len` body bytes.
pub open spec fn http_read_start_tag(len: usize) -> Seq<u8> {
    "+HTTPREAD: ".spec_bytes() + decimal(len as nat)
}

/// The text of the command that announces a body of `len` bytes to write,
/// for which the modem is to wait 60 seconds.
pub open spec fn http_write_command(len: usize) -> Seq<u8> {
    "AT+HTTPDATA=".spec_bytes() + decimal(len as nat) + ",60".spec_bytes()
}

/// The script of an HTTP body read: send the read command, collect up to
/// `OK`, forget those lines, await the line that announces the bytes, read
/// the bytes, await the line that closes the read.
pub open spec fn http_read_script_of(offset: usize, len: usize) -> Seq<StepView> {
    seq![
        StepView::Write { bytes: wire_of(http_read_command(offset, len)) },
        StepView::Collect {
            rule: UntilView::Terminator { echo: http_read_command(offset, len) },
            timeout_ms: HTTP_COMMAND_TIMEOUT_MS,
        },
        StepView::DiscardLines,
        StepView::Collect {
            rule: UntilView::Prefix { prefix: http_read_start_tag(len) },
            timeout_ms: HTTP_BODY_TIMEOUT_MS,
        },
        StepView::ReadBody { len },
        StepView::Collect {
            rule: UntilView::Prefix { prefix: "+HTTPREAD: 0".spec_bytes() },
            timeout_ms: HTTP_BODY_TIMEOUT_MS,
        },
    ]
}

/// The script of an HTTP body write: announce the body, collect up to
/// `DOWNLOAD`, forget those lines, write the body, collect up to `OK`.
pub open spec fn http_write_script_of(len: usize) -> Seq<StepView> {
    seq![
        StepView::Write { bytes: wire_of(http_write_command(len)) },
        StepView::Collect {
            rule: UntilView::Terminator { echo: http_write_command(len) },
            timeout_ms: HTTP_COMMAND_TIMEOUT_MS,
        },
        StepView::DiscardLines,
        StepView::WriteBody,
        StepView::Collect {
            rule: UntilView::Terminator { echo: Seq::empty() },
            timeout_ms: HTTP_COMMAND_TIMEOUT_MS,
        },
    ]
}

/// The bytes that send `command`.
pub fn wire(command: &[u8]) -> (r: Vec<u8>)
    ensures
        r@ == wire_of(command@),
{
    let mut out: Vec<u8> = Vec::new();
    push_bytes(&mut out, command);
    out.push(CR);
    out.push(LF);
    assert(out@ =~= wire_of(command@));
    out
}

/// Builds the script of a command.
pub fn command_script(request: &AtCommandRequest) -> (r: Vec<Step>)
    ensures
        script_view(r@) == command_script_of(request@),
{
    let mut script: Vec<Step> = Vec::new();
    script.push(Step::Write { bytes: wire(request.command()) });
    let echo = copy_of(request.command());
    script.push(
        Step::Collect { rule: Until::Terminator { echo }, timeout_ms: request.timeout_ms() },
    );
    match request.urc_prefix() {
        Some(p) => {
            let prefix = copy_of(p);
            script.push(
                Step::Collect { rule: Until::Prefix { prefix }, timeout_ms: request.timeout_ms() },
            );
        },
        None => {},
    }
    assert(script_view(script@) =~= command_script_of(request@));
    script
}

/// A text with the bytes of `bytes`, which fit.
fn copy_of(bytes: &[u8]) -> (r: Text)
    requires
        bytes@.len() <= AT_BUFFER_SIZE,
    ensures
        r@ == bytes@,
{
    match Text::from_bytes(bytes) {
        Some(t) => t,
        None => Text::new(),
    }
}

/// Builds the script that reads `len` body bytes from `offset`. Fails with
/// a format error where a text of the script does not fit its buffer.
pub fn http_read_script(offset: usize, len: usize) -> (r: Result<Vec<Step>, AtError>)
    ensures
        r matches Ok(script) ==> script_view(script@) == http_read_script_of(offset, len),
        r matches Err(e) ==> e == AtError::FormatError,
        r.is_ok() == (http_read_command(offset, len).len() <= AT_BUFFER_SIZE && http_read_start_tag(
            len,
        ).len() <= AT_BUFFER_SIZE && "+HTTPREAD: 0".spec_bytes().len() <= AT_BUFFER_SIZE),
{
    let mut command: Vec<u8> = Vec::new();
    push_bytes(&mut command, "AT+HTTPREAD=".as_bytes());
    push_decimal(&mut command, offset as u64);
    push_bytes(&mut command, ",".as_bytes());
    push_decimal(&mut command, len as u64);
    assert(command@ =~= http_read_command(offset, len));
    let mut start_tag: Vec<u8> = Vec::new();
    push_bytes(&mut start_tag, "+HTTPREAD: ".as_bytes());
    push_decimal(&mut start_tag, len as u64);
    assert(start_tag@ =~= http_read_start_tag(len));
    let echo = match Text::from_bytes(command.as_slice()) {
        Some(t) => t,
        None => { return Err(AtError::FormatError); },
    };
    let start = match Text::from_bytes(start_tag.as_slice()) {
        Some(t) => t,
        None => { return Err(AtError::FormatError); },
    };
    let end = match Text::from_bytes("+HTTPREAD: 0".as_bytes()) {
        Some(t) => t,
        None => { return Err(AtError::FormatError); },
    };
    let mut script: Vec<Step> = Vec::new();
    script.push(Step::Write { bytes: wire(command.as_slice()) });
    script.push(
        Step::Collect { rule: Until::Terminator { echo }, timeout_ms: HTTP_COMMAND_TIMEOUT_MS },
    );
    script.push(Step::DiscardLines);
    script.push(
        Step::Collect { rule: Until::Prefix { prefix: start }, timeout_ms: HTTP_BODY_TIMEOUT_MS },
    );
    script.push(Step::ReadBody { len });
    script.push(
        Step::Collect { rule: Until::Prefix { prefix: end }, timeout_ms: HTTP_BODY_TIMEOUT_MS },
    );
    assert(script_view(script@) =~= http_read_script_of(offset, len));
    Ok(script)
}

/// Builds the script that writes a body of `len` bytes. Fails with a
/// format error where the command does not fit its buffer.
pub fn http_write_script(len: usize) -> (r: Result<Vec<Step>, AtError>)
    ensures
        r matches Ok(script) ==> script_view(script@) == http_write_script_of(len),
        r matches Err(e) ==> e == AtError::FormatError,
        r.is_ok() == (http_write_command(len).len() <= AT_BUFFER_SIZE),
{
    let mut command: Vec<u8> = Vec::new();
    push_bytes(&mut command, "AT+HTTPDATA=".as_bytes());
    push_decimal(&mut command, len as u64);
    push_bytes(&mut command, ",60".as_bytes());
    assert(command@ =~= http_write_command(len));
    let echo = match Text::from_bytes(command.as_slice()) {
        Some(t) => t,
        None => { return Err(AtError::FormatError); },
    };
    let mut script: Vec<Step> = Vec::new();
    script.push(Step::Write { bytes: wire(command.as_slice()) });
    script.push(
        Step::Collect { rule: Until::Terminator { echo }, timeout_ms: HTTP_COMMAND_TIMEOUT_MS },
    );
    script.push(Step::DiscardLines);
    script.push(Step::WriteBody);
    script.push(
        Step::Collect {
            rule: Until::Terminator { echo: Text::new() },
            timeout_ms: HTTP_COMMAND_TIMEOUT_MS,
        },
    );
    assert(script_view(script@) =~= http_write_script_of(len));
    Ok(script)
}

} // verus!
