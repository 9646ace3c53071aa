//! The AT transport: requests, responses and the errors of an exchange.
//!
//! One serial line carries three things at once: the commands of clients
//! with their responses, raw HTTP bodies, and lines that the modem sends
//! unasked. The submodules hold the parts: [`framing`] cuts the byte stream
//! into lines, [`exchange`] follows one command, body read or body write
//! from its first line to its result, and [`runner`] keeps clients and the
//! unsolicited-line poll from reading the stream at the same time.

pub mod exchange;
pub mod framing;
pub mod http;
pub mod network;
pub mod packet_domain;
pub mod runner;
pub mod serial_interface;
pub mod status_control;
pub mod tokenizer;

use crate::bounded::{Lines, Text, AT_BUFFER_SIZE, MAX_RESPONSE_LINES};
use vstd::prelude::*;
use vstd::string::StringSliceAdditionalSpecFns;

verus! {

/// Messages that fit the control channel between clients and the runner.
pub const CHANNEL_SIZE: usize = 2;

/// The most body bytes that one HTTP read asks the modem for.
pub const MAX_READ_BUFFER_SIZE: usize = 1024;

/// Timeout of a command that names none, in milliseconds.
pub const DEFAULT_TIMEOUT_MS: u64 = 5000;

/// Why an exchange with the modem failed.
#[derive(Debug, Clone, Copy, PartialEq, Eq)]
pub enum AtError {
    /// The serial line failed while writing or reading.
    TransportError,
    /// A bounded wait ran out.
    Timeout,
    /// A command did not fit its buffer.
    FormatError,
    /// A line or a response did not fit its buffer.
    CapacityError,
    /// A response did not have the expected shape.
    ParseError,
    /// A number in a response lies outside the values known for it.
    EnumParseError(i64),
    /// A response holds fewer or more lines than the command calls for.
    ResponseLineCountMismatch { expected: usize, actual: usize },
    /// The modem answered `ERROR`.
    ModemError,
}

/// What an [`AtCommandRequest`] holds.
pub struct AtCommandRequestView {
    pub command: Seq<u8>,
    pub timeout_ms: u64,
    pub urc_prefix: Option<Seq<u8>>,
}

/// A command for the modem: its text without the line ending, how long its
/// response may take, and, for commands whose result arrives after the
/// terminator, the prefix of the line that carries it.
pub struct AtCommandRequest {
    command: Text,
    timeout_ms: u64,
    urc_prefix: Option<Text>,
}

impl View for AtCommandRequest {
    type V = AtCommandRequestView;

    closed spec fn view(&self) -> AtCommandRequestView {
        AtCommandRequestView {
            command: self.command@,
            timeout_ms: self.timeout_ms,
            urc_prefix: match self.urc_prefix {
                Some(p) => Some(p@),
                None => None,
            },
        }
    }
}

impl AtCommandRequest {
    /// A request for `command` with the default timeout of five seconds and
    /// no deferred result.
    pub fn new(command: Text) -> (r: Self)
        ensures
            r@ == (AtCommandRequestView {
                command: command@,
                timeout_ms: DEFAULT_TIMEOUT_MS,
                urc_prefix: None,
            }),
    {
        AtCommandRequest { command, timeout_ms: DEFAULT_TIMEOUT_MS, urc_prefix: None }
    }

    /// The same request with another timeout.
    pub fn with_timeout(self, timeout_ms: u64) -> (r: Self)
        ensures
            r@ == (AtCommandRequestView { timeout_ms, ..self@ }),
    {
        AtCommandRequest { command: self.command, timeout_ms, urc_prefix: self.urc_prefix }
    }

    /// The same request, completed only by a line that begins with
    /// `urc_prefix`.
    pub fn with_urc_prefix(self, urc_prefix: Text) -> (r: Self)
        ensures
            r@ == (AtCommandRequestView { urc_prefix: Some(urc_prefix@), ..self@ }),
    {
        AtCommandRequest {
            command: self.command,
            timeout_ms: self.timeout_ms,
            urc_prefix: Some(urc_prefix),
        }
    }

    /// The command text, without the line ending.
    pub fn command(&self) -> (r: &[u8])
        ensures
            r@ == self@.command,
            r@.len() <= AT_BUFFER_SIZE,
    {
        self.command.bytes()
    }

    /// How long the response may take, in milliseconds.
    pub fn timeout_ms(&self) -> (r: u64)
        ensures
            r == self@.timeout_ms,
    {
        self.timeout_ms
    }

    /// The prefix of the deferred result line, if the command has one.
    pub fn urc_prefix(&self) -> (r: Option<&[u8]>)
        ensures
            match self@.urc_prefix {
                Some(p) => r.is_some() && r.unwrap()@ == p && p.len() <= AT_BUFFER_SIZE,
                None => r.is_none(),
            },
    {
        match &self.urc_prefix {
            Some(p) => Some(p.bytes()),
            None => None,
        }
    }
}

/// The lines of a response in arrival order, without line endings, echo
/// or terminator.
pub struct AtCommandResponse {
    lines: Lines,
}

impl View for AtCommandResponse {
    type V = Seq<Seq<u8>>;

    closed spec fn view(&self) -> Seq<Seq<u8>> {
        self.lines@
    }
}

impl AtCommandResponse {
    /// The response that holds `lines`.
    pub fn new(lines: Lines) -> (r: Self)
        ensures
            r@ == lines@,
    {
        AtCommandResponse { lines }
    }

    /// The number of lines.
    pub fn len(&self) -> (r: usize)
        ensures
            r == self@.len(),
            r <= MAX_RESPONSE_LINES,
    {
        self.lines.len()
    }

    /// Succeeds if the response has exactly `n` lines.
    pub fn ensure_lines(&self, n: usize) -> (r: Result<(), AtError>)
        ensures
            self@.len() == n ==> r == Ok::<(), AtError>(()),
            self@.len() != n ==> r == Err::<(), AtError>(
                AtError::ResponseLineCountMismatch { expected: n, actual: self@.len() as usize },
            ),
    {
        let actual = self.lines.len();
        if actual == n {
            Ok(())
        } else {
            Err(AtError::ResponseLineCountMismatch { expected: n, actual })
        }
    }

    /// The line at position `n`, counted from zero.
    pub fn line(&self, n: usize) -> (r: Result<&[u8], AtError>)
        requires
            n < usize::MAX,
        ensures
            n < self@.len() ==> r.is_ok() && r.unwrap()@ == self@[n as int],
            n >= self@.len() ==> r == Err::<&[u8], AtError>(
                AtError::ResponseLineCountMismatch {
                    expected: (n + 1) as usize,
                    actual: self@.len() as usize,
                },
            ),
    {
        match self.lines.get(n) {
            Some(bytes) => Ok(bytes),
            None => Err(
                AtError::ResponseLineCountMismatch { expected: n + 1, actual: self.lines.len() },
            ),
        }
    }
}

/// What a request for `command` with the default timeout and no deferred
/// result holds.
pub open spec fn plain_request(command: Seq<u8>) -> AtCommandRequestView {
    AtCommandRequestView { command, timeout_ms: DEFAULT_TIMEOUT_MS, urc_prefix: None }
}

/// The request that sends `command` with the default timeout. Fails with a
/// format error where the command does not fit its buffer.
pub fn at_request(command: &[u8]) -> (r: Result<AtCommandRequest, AtError>)
    ensures
        r.is_ok() == (command@.len() <= AT_BUFFER_SIZE),
        r matches Ok(request) ==> request@ == (AtCommandRequestView {
            command: command@,
            timeout_ms: DEFAULT_TIMEOUT_MS,
            urc_prefix: None,
        }),
        r matches Err(e) ==> e == AtError::FormatError,
{
    match Text::from_bytes(command) {
        Some(text) => Ok(AtCommandRequest::new(text)),
        None => Err(AtError::FormatError),
    }
}

/// The request that sends a command known to fit its buffer.
pub fn short_request(command: &'static str) -> (r: AtCommandRequest)
    requires
        command.spec_bytes().len() <= AT_BUFFER_SIZE,
    ensures
        r@ == (AtCommandRequestView {
            command: command.spec_bytes(),
            timeout_ms: DEFAULT_TIMEOUT_MS,
            urc_prefix: None,
        }),
{
    match Text::from_bytes(command.as_bytes()) {
        Some(text) => AtCommandRequest::new(text),
        None => AtCommandRequest::new(Text::new()),
    }
}

/// Timeout of the liveness probe, in milliseconds.
pub const PROBE_TIMEOUT_MS: u64 = 200;

/// The liveness probe: the bare `AT`, which a modem that is awake answers
/// with `OK` within 200 ms.
pub fn at() -> (r: AtCommandRequest)
    ensures
        r@ == (AtCommandRequestView {
            command: "AT".spec_bytes(),
            timeout_ms: PROBE_TIMEOUT_MS,
            urc_prefix: None,
        }),
{
    proof {
        reveal_strlit("AT");
        crate::text::lemma_ascii_len("AT");
    }
    short_request("AT").with_timeout(PROBE_TIMEOUT_MS)
}

/// The first line of a response, for commands that answer with one line
/// of data.
pub open spec fn first_line_of(response: Seq<Seq<u8>>) -> Result<Seq<u8>, AtError> {
    if response.len() > 0 {
        Ok(response[0])
    } else {
        Err(AtError::ResponseLineCountMismatch { expected: 1, actual: 0 })
    }
}

/// What a client asks of the runner.
#[derive(Debug, Clone, Copy, PartialEq, Eq)]
pub enum AtRequestMessage {
    /// Stop polling for unsolicited lines: the client is about to use the
    /// serial line.
    AcquireAtController,
    /// The client is done with the serial line.
    ReleaseAtController,
}

/// What the runner answers.
#[derive(Debug, Clone, Copy, PartialEq, Eq)]
pub enum AtResponseMessage {
    /// The request was taken.
    Accepted,
}

} // verus!
