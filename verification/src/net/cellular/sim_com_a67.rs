//! The SIMCom A67 series modem: power, network and HTTP.
//!
//! What the driver does is written as scripts of steps for whoever holds
//! the pins, the timer and the AT client, and as the few decisions that the
//! steps leave open.

use crate::at::http::{
    init, set_header, set_header_command, set_url, set_url_command, AtHttpReadRequest, HttpAction,
    HttpActionResponse, HttpStatusCode,
};
use crate::at::network::{set_automatic_time_and_time_zone_update, NetworkRegistrationState};
use crate::at::packet_domain::{set_apn, set_apn_command};
use crate::at::status_control::power_down;
use crate::at::{
    plain_request, AtCommandRequest, AtCommandRequestView, AtError, MAX_READ_BUFFER_SIZE,
};
use crate::bounded::AT_BUFFER_SIZE;
use crate::net::cellular::CellularError;
use crate::time::DateTime;
use vstd::prelude::*;
use vstd::string::StringSliceAdditionalSpecFns;
use vstd::utf8::valid_utf8;

verus! {

/// An output pin of the modem.
#[derive(Debug, Clone, Copy, PartialEq, Eq)]
pub enum Pin {
    /// The power key.
    PowerKey,
    /// The reset line.
    Reset,
}

/// The level of an output pin.
#[derive(Debug, Clone, Copy, PartialEq, Eq)]
pub enum Level {
    Low,
    High,
}

/// One step of a script for the modem, in specifications.
pub enum ModuleStepView {
    SetPin { pin: Pin, level: Level },
    Wait { ms: u64 },
    EnsureAt { timeout_ms: u64 },
    AwaitAlive,
    AwaitRegistration { retry_ms: u64 },
    ReadClock,
    Send { request: AtCommandRequestView },
    WriteBody,
    Action { method: HttpAction },
}

/// One step of a script for the modem. A step that fails ends the script
/// with its error.
pub enum ModuleStep {
    /// Drive a pin. A pin that cannot be driven is
    /// [`CellularError::GpioError`].
    SetPin { pin: Pin, level: Level },
    /// Wait so many milliseconds.
    Wait { ms: u64 },
    /// Send the liveness probe again and again until it is answered; give
    /// up with [`CellularError::Timeout`] after `timeout_ms`.
    EnsureAt { timeout_ms: u64 },
    /// Send the liveness probe, yielding between tries, until it is
    /// answered.
    AwaitAlive,
    /// Query the registration until it is
    /// [`NetworkRegistrationState::Registered`], waiting `retry_ms`
    /// between tries. A query that fails ends the script.
    AwaitRegistration { retry_ms: u64 },
    /// Query the real-time clock and hand the result to
    /// [`clock_read_outcome`].
    ReadClock,
    /// Send a command and await its response.
    Send { request: AtCommandRequest },
    /// Hand the modem the body of the request.
    WriteBody,
    /// Run an HTTP action and hand the response to
    /// [`crate::at::http::parse_action`].
    Action { method: HttpAction },
}

impl View for ModuleStep {
    type V = ModuleStepView;

    open spec fn view(&self) -> ModuleStepView {
        match *self {
            ModuleStep::SetPin { pin, level } => ModuleStepView::SetPin { pin, level },
            ModuleStep::Wait { ms } => ModuleStepView::Wait { ms },
            ModuleStep::EnsureAt { timeout_ms } => ModuleStepView::EnsureAt { timeout_ms },
            ModuleStep::AwaitAlive => ModuleStepView::AwaitAlive,
            ModuleStep::AwaitRegistration { retry_ms } => ModuleStepView::AwaitRegistration {
                retry_ms,
            },
            ModuleStep::ReadClock => ModuleStepView::ReadClock,
            ModuleStep::Send { request } => ModuleStepView::Send { request: request@ },
            ModuleStep::WriteBody => ModuleStepView::WriteBody,
            ModuleStep::Action { method } => ModuleStepView::Action { method },
        }
    }
}

/// The steps of a script, in specifications.
pub open spec fn steps_of(script: Seq<ModuleStep>) -> Seq<ModuleStepView> {
    script.map_values(|s: ModuleStep| s@)
}

/// Powering on: the power key low for 50 ms, then high; eight seconds for
/// the modem to come up; the probe until it answers, for ten seconds at
/// most; and the automatic update of time and time zone switched on.
pub open spec fn power_on_steps() -> Seq<ModuleStepView> {
    seq![
        ModuleStepView::SetPin { pin: Pin::PowerKey, level: Level::Low },
        ModuleStepView::Wait { ms: 50 },
        ModuleStepView::SetPin { pin: Pin::PowerKey, level: Level::High },
        ModuleStepView::Wait { ms: 8000 },
        ModuleStepView::EnsureAt { timeout_ms: 10_000 },
        ModuleStepView::Send { request: plain_request("AT+CTZU=1".spec_bytes()) },
    ]
}

/// Powering down: the power-down command, two seconds for the modem to go
/// down and two more before it may be powered on again.
pub open spec fn power_down_steps() -> Seq<ModuleStepView> {
    seq![
        ModuleStepView::Send { request: plain_request("AT+CPOF".spec_bytes()) },
        ModuleStepView::Wait { ms: 2000 },
        ModuleStepView::Wait { ms: 2000 },
    ]
}

/// Power cycling: a modem that answers is powered down first, with one
/// more second to be safe; then the modem is powered on.
pub open spec fn power_cycle_steps(alive: bool) -> Seq<ModuleStepView> {
    if alive {
        power_down_steps() + seq![ModuleStepView::Wait { ms: 1000 }] + power_on_steps()
    } else {
        power_on_steps()
    }
}

/// Resetting: the reset line low for two and a half seconds, then high,
/// and five seconds for the modem to come up.
pub open spec fn reset_steps() -> Seq<ModuleStepView> {
    seq![
        ModuleStepView::SetPin { pin: Pin::Reset, level: Level::Low },
        ModuleStepView::Wait { ms: 2500 },
        ModuleStepView::SetPin { pin: Pin::Reset, level: Level::High },
        ModuleStepView::Wait { ms: 5000 },
    ]
}

/// Starting the network: the access point is set, the registration is
/// awaited with a second between tries, and the clock is read once.
pub open spec fn startup_network_steps(apn: Seq<u8>) -> Seq<ModuleStepView> {
    seq![
        ModuleStepView::Send { request: plain_request(set_apn_command(apn)) },
        ModuleStepView::AwaitRegistration { retry_ms: 1000 },
        ModuleStepView::ReadClock,
    ]
}

/// Waking up: the probe until the modem answers, then the registration
/// with two seconds between tries.
pub open spec fn wake_up_steps() -> Seq<ModuleStepView> {
    seq![ModuleStepView::AwaitAlive, ModuleStepView::AwaitRegistration { retry_ms: 2000 }]
}

/// A GET: the URL is set and the action run.
pub open spec fn get_steps(url: Seq<u8>) -> Seq<ModuleStepView> {
    seq![
        ModuleStepView::Send { request: plain_request(set_url_command(url)) },
        ModuleStepView::Action { method: HttpAction::Get },
    ]
}

/// A POST: the URL is set, the body handed over and the action run.
pub open spec fn post_steps(url: Seq<u8>) -> Seq<ModuleStepView> {
    seq![
        ModuleStepView::Send { request: plain_request(set_url_command(url)) },
        ModuleStepView::WriteBody,
        ModuleStepView::Action { method: HttpAction::Post },
    ]
}

/// Appends the steps that power the modem on.
fn push_power_on(script: &mut Vec<ModuleStep>)
    ensures
        steps_of(final(script)@) == steps_of(old(script)@) + power_on_steps(),
{
    script.push(ModuleStep::SetPin { pin: Pin::PowerKey, level: Level::Low });
    script.push(ModuleStep::Wait { ms: 50 });
    script.push(ModuleStep::SetPin { pin: Pin::PowerKey, level: Level::High });
    script.push(ModuleStep::Wait { ms: 8000 });
    script.push(ModuleStep::EnsureAt { timeout_ms: 10_000 });
    script.push(ModuleStep::Send { request: set_automatic_time_and_time_zone_update(true) });
    assert(steps_of(final(script)@) =~= steps_of(old(script)@) + power_on_steps());
}

/// Whether a registration ends the wait for the network: only the home
/// network does.
pub fn is_registered(state: NetworkRegistrationState) -> (r: bool)
    ensures
        r == (state == NetworkRegistrationState::Registered),
{
    match state {
        NetworkRegistrationState::Registered => true,
        _ => false,
    }
}

/// What becomes of the clock read that ends the start of the network. The
/// read is best effort: a time is handed on, an answer that cannot be read
/// as a time is passed over, and every other failure ends the start.
pub fn clock_read_outcome(read: Result<DateTime, AtError>) -> (r: Result<
    Option<DateTime>,
    CellularError,
>)
    ensures
        match read {
            Ok(now) => r == Ok::<Option<DateTime>, CellularError>(Some(now)),
            Err(AtError::ParseError) => r == Ok::<Option<DateTime>, CellularError>(None),
            Err(e) => r == Err::<Option<DateTime>, CellularError>(CellularError::AtError(e)),
        },
{
    match read {
        Ok(now) => Ok(Some(now)),
        Err(AtError::ParseError) => Ok(None),
        Err(e) => Err(CellularError::AtError(e)),
    }
}

/// The modem driver's own state: whether the HTTP service was started
/// since the modem was powered on.
pub struct SimComCellularModule {
    http_initialized: bool,
}

impl View for SimComCellularModule {
    type V = bool;

    closed spec fn view(&self) -> bool {
        self.http_initialized
    }
}

impl SimComCellularModule {
    /// A driver for a modem whose HTTP service is not started.
    pub fn new() -> (r: Self)
        ensures
            !r@,
    {
        SimComCellularModule { http_initialized: false }
    }

    /// Whether the modem is alive, given what the liveness probe brought: it
    /// is if the probe was answered at all.
    pub fn is_alive<T>(&self, probe: &Result<T, AtError>) -> (r: bool)
        ensures
            r == probe.is_ok(),
    {
        probe.is_ok()
    }

    /// The script that powers the modem down.
    pub fn power_down(&self) -> (r: Vec<ModuleStep>)
        ensures
            steps_of(r@) == power_down_steps(),
    {
        let mut script: Vec<ModuleStep> = Vec::new();
        script.push(ModuleStep::Send { request: power_down() });
        script.push(ModuleStep::Wait { ms: 2000 });
        script.push(ModuleStep::Wait { ms: 2000 });
        assert(steps_of(script@) =~= power_down_steps());
        script
    }

    /// The script that resets the modem.
    pub fn reset(&self) -> (r: Vec<ModuleStep>)
        ensures
            steps_of(r@) == reset_steps(),
    {
        let mut script: Vec<ModuleStep> = Vec::new();
        script.push(ModuleStep::SetPin { pin: Pin::Reset, level: Level::Low });
        script.push(ModuleStep::Wait { ms: 2500 });
        script.push(ModuleStep::SetPin { pin: Pin::Reset, level: Level::High });
        script.push(ModuleStep::Wait { ms: 5000 });
        assert(steps_of(script@) =~= reset_steps());
        script
    }

    /// The script that starts the network on the access point `apn`. Fails
    /// with a format error where the command that sets the access point does
    /// not fit its buffer.
    pub fn startup_network(&self, apn: &[u8]) -> (r: Result<Vec<ModuleStep>, CellularError>)
        ensures
            r.is_ok() == (set_apn_command(apn@).len() <= AT_BUFFER_SIZE),
            r matches Ok(script) ==> steps_of(script@) == startup_network_steps(apn@),
            r matches Err(e) ==> e == CellularError::AtError(AtError::FormatError),
    {
        let request = match set_apn(apn) {
            Ok(request) => request,
            Err(e) => { return Err(CellularError::from(e)); },
        };
        let mut script: Vec<ModuleStep> = Vec::new();
        script.push(ModuleStep::Send { request });
        script.push(ModuleStep::AwaitRegistration { retry_ms: 1000 });
        script.push(ModuleStep::ReadClock);
        assert(steps_of(script@) =~= startup_network_steps(apn@));
        Ok(script)
    }

    /// The script that wakes the modem up.
    pub fn wake_up(&self) -> (r: Vec<ModuleStep>)
        ensures
            steps_of(r@) == wake_up_steps(),
    {
        let mut script: Vec<ModuleStep> = Vec::new();
        script.push(ModuleStep::AwaitAlive);
        script.push(ModuleStep::AwaitRegistration { retry_ms: 2000 });
        assert(steps_of(script@) =~= wake_up_steps());
        script
    }

    /// The script that powers the modem on. The HTTP service counts as not
    /// started from here on.
    pub fn power_on(&mut self) -> (r: Vec<ModuleStep>)
        ensures
            !final(self)@,
            steps_of(r@) == power_on_steps(),
    {
        self.http_initialized = false;
        let mut script: Vec<ModuleStep> = Vec::new();
        push_power_on(&mut script);
        assert(steps_of(script@) =~= power_on_steps());
        script
    }

    /// The script that power cycles the modem, given whether it answered
    /// the liveness probe. The HTTP service counts as not started from here
    /// on.
    pub fn power_cycle(&mut self, alive: bool) -> (r: Vec<ModuleStep>)
        ensures
            !final(self)@,
            steps_of(r@) == power_cycle_steps(alive),
    {
        self.http_initialized = false;
        if alive {
            let mut script = self.power_down();
            script.push(ModuleStep::Wait { ms: 1000 });
            assert(steps_of(script@) =~= power_down_steps() + seq![
                ModuleStepView::Wait { ms: 1000 },
            ]);
            push_power_on(&mut script);
            script
        } else {
            let mut script: Vec<ModuleStep> = Vec::new();
            push_power_on(&mut script);
            assert(steps_of(script@) =~= power_on_steps());
            script
        }
    }

    /// The command to send before the first request since power-on, which
    /// starts the HTTP service; nothing once the service is started.
    pub fn request(&self) -> (r: Option<AtCommandRequest>)
        ensures
            r.is_some() == !self@,
            r matches Some(request) ==> request@ == plain_request("AT+HTTPINIT".spec_bytes()),
    {
        if self.http_initialized {
            None
        } else {
            Some(init())
        }
    }

    /// Notes that the HTTP service was started.
    pub fn http_started(&mut self)
        ensures
            final(self)@,
    {
        self.http_initialized = true;
    }
}

/// An HTTP request on a started service.
pub struct HttpRequest {}

impl HttpRequest {
    /// The command that sets a header of the request.
    pub fn set_header(header: &[u8], value: &[u8]) -> (r: Result<AtCommandRequest, CellularError>)
        ensures
            r.is_ok() == (set_header_command(header@, value@).len() <= AT_BUFFER_SIZE),
            r matches Ok(request) ==> request@ == plain_request(
                set_header_command(header@, value@),
            ),
            r matches Err(e) ==> e == CellularError::AtError(AtError::FormatError),
    {
        match set_header(header, value) {
            Ok(request) => Ok(request),
            Err(e) => Err(CellularError::from(e)),
        }
    }

    /// The script of a GET of `url`.
    pub fn get(url: &[u8]) -> (r: Result<Vec<ModuleStep>, CellularError>)
        ensures
            r.is_ok() == (set_url_command(url@).len() <= AT_BUFFER_SIZE),
            r matches Ok(script) ==> steps_of(script@) == get_steps(url@),
            r matches Err(e) ==> e == CellularError::AtError(AtError::FormatError),
    {
        let request = match set_url(url) {
            Ok(request) => request,
            Err(e) => { return Err(CellularError::from(e)); },
        };
        let mut script: Vec<ModuleStep> = Vec::new();
        script.push(ModuleStep::Send { request });
        script.push(ModuleStep::Action { method: HttpAction::Get });
        assert(steps_of(script@) =~= get_steps(url@));
        Ok(script)
    }

    /// The script of a POST to `url`.
    pub fn post(url: &[u8]) -> (r: Result<Vec<ModuleStep>, CellularError>)
        ensures
            r.is_ok() == (set_url_command(url@).len() <= AT_BUFFER_SIZE),
            r matches Ok(script) ==> steps_of(script@) == post_steps(url@),
            r matches Err(e) ==> e == CellularError::AtError(AtError::FormatError),
    {
        let request = match set_url(url) {
            Ok(request) => request,
            Err(e) => { return Err(CellularError::from(e)); },
        };
        let mut script: Vec<ModuleStep> = Vec::new();
        script.push(ModuleStep::Send { request });
        script.push(ModuleStep::WriteBody);
        script.push(ModuleStep::Action { method: HttpAction::Post });
        assert(steps_of(script@) =~= post_steps(url@));
        Ok(script)
    }
}

/// The body of an HTTP response, read from the modem piece by piece: its
/// length as the modem announced it, and how much of it was read.
#[derive(Debug, Clone, Copy, PartialEq, Eq)]
pub struct HttpResponseBody {
    len: usize,
    pos: usize,
}

/// What an [`HttpResponseBody`] holds.
pub struct HttpResponseBodyView {
    pub len: nat,
    pub pos: nat,
}

impl View for HttpResponseBody {
    type V = HttpResponseBodyView;

    closed spec fn view(&self) -> HttpResponseBodyView {
        HttpResponseBodyView { len: self.len as nat, pos: self.pos as nat }
    }
}

/// The bytes that one read asks for: what is left of the body, at most
/// what the buffer holds, and at most [`MAX_READ_BUFFER_SIZE`].
pub open spec fn read_size(body: HttpResponseBodyView, buffer: nat) -> nat {
    let left = (body.len - body.pos) as nat;
    let fitting = if left < buffer {
        left
    } else {
        buffer
    };
    if fitting < MAX_READ_BUFFER_SIZE {
        fitting
    } else {
        MAX_READ_BUFFER_SIZE as nat
    }
}

/// The bytes returned by reads into buffers of the sizes `buffers`, one
/// after the other.
pub open spec fn reads_total(body: HttpResponseBodyView, buffers: Seq<nat>) -> nat
    decreases buffers.len(),
{
    if buffers.len() == 0 {
        0
    } else {
        let n = read_size(body, buffers[0]);
        n + reads_total(
            HttpResponseBodyView { len: body.len, pos: body.pos + n },
            buffers.skip(1),
        )
    }
}

/// The body after reads into buffers of the sizes `buffers`.
pub open spec fn body_after(body: HttpResponseBodyView, buffers: Seq<nat>) -> HttpResponseBodyView
    decreases buffers.len(),
{
    if buffers.len() == 0 {
        body
    } else {
        let n = read_size(body, buffers[0]);
        body_after(HttpResponseBodyView { len: body.len, pos: body.pos + n }, buffers.skip(1))
    }
}

/// A response to an HTTP request: its status and its body.
#[derive(Debug, Clone, Copy, PartialEq, Eq)]
pub struct HttpResponse {
    pub status: HttpStatusCode,
    pub body: HttpResponseBody,
}

impl HttpResponse {
    /// The response that the result of an action announces.
    pub fn new(announced: HttpActionResponse) -> (r: Self)
        ensures
            r.status == announced.status_code,
            r.body@ == (HttpResponseBodyView { len: announced.data_length as nat, pos: 0 }),
            r.body.wf(),
    {
        HttpResponse {
            status: announced.status_code,
            body: HttpResponseBody::new(announced.data_length),
        }
    }

    /// The status of the response.
    pub fn status(&self) -> (r: HttpStatusCode)
        ensures
            r == self.status,
    {
        self.status
    }

    /// The body of the response.
    pub fn body(&mut self) -> (r: &mut HttpResponseBody)
        ensures
            *r == old(self).body,
            final(self).status == old(self).status,
            final(self).body == *final(r),
    {
        &mut self.body
    }
}

impl HttpResponseBody {
    /// Whether no more was read than the body holds.
    pub open spec fn wf(&self) -> bool {
        self@.pos <= self@.len
    }

    /// The body of `len` bytes, of which nothing was read.
    pub fn new(len: usize) -> (r: Self)
        ensures
            r.wf(),
            r@ == (HttpResponseBodyView { len: len as nat, pos: 0 }),
    {
        HttpResponseBody { len, pos: 0 }
    }

    /// The length of the body.
    pub fn len(&self) -> (r: usize)
        ensures
            r == self@.len,
    {
        self.len
    }

    /// Whether the body holds no byte.
    pub fn is_empty(&self) -> (r: bool)
        ensures
            r == (self@.len == 0),
    {
        self.len == 0
    }

    /// The number of bytes read so far.
    pub fn position(&self) -> (r: usize)
        ensures
            r == self@.pos,
    {
        self.pos
    }

    /// The read to ask of the modem for a buffer of `buffer` bytes: the
    /// next bytes of the body, as many as [`read_size`] says. Nothing where
    /// that is none, which a reader reports as 0 bytes read.
    pub fn read(&self, buffer: usize) -> (r: Option<AtHttpReadRequest>)
        requires
            self.wf(),
        ensures
            r.is_some() == (read_size(self@, buffer as nat) > 0),
            r matches Some(request) ==> request.offset == self@.pos && request.len == read_size(
                self@,
                buffer as nat,
            ),
    {
        let remaining = self.len - self.pos;
        let requested = if remaining < buffer {
            remaining
        } else {
            buffer
        };
        let read = if requested < MAX_READ_BUFFER_SIZE {
            requested
        } else {
            MAX_READ_BUFFER_SIZE
        };
        if read == 0 {
            None
        } else {
            Some(AtHttpReadRequest::new(self.pos, read))
        }
    }

    /// Notes that the read asked for by [`HttpResponseBody::read`] was
    /// carried out.
    pub fn advance(&mut self, buffer: usize)
        requires
            old(self).wf(),
        ensures
            final(self).wf(),
            final(self)@ == (HttpResponseBodyView {
                len: old(self)@.len,
                pos: old(self)@.pos + read_size(old(self)@, buffer as nat),
            }),
    {
        let remaining = self.len - self.pos;
        let requested = if remaining < buffer {
            remaining
        } else {
            buffer
        };
        let read = if requested < MAX_READ_BUFFER_SIZE {
            requested
        } else {
            MAX_READ_BUFFER_SIZE
        };
        self.pos = self.pos + read;
    }

    /// Reads a body as text. Fails with a parse error where the body is not
    /// well-formed UTF-8.
    pub fn read_as_str(body: &[u8]) -> (r: Result<&str, CellularError>)
        ensures
            r.is_ok() == valid_utf8(body@),
            r matches Ok(text) ==> text.spec_bytes() == body@,
            r matches Err(e) ==> e == CellularError::AtError(AtError::ParseError),
    {
        match str_from_utf8(body) {
            Some(text) => Ok(text),
            None => Err(CellularError::AtError(AtError::ParseError)),
        }
    }

    /// The reads that fill a buffer of `buffer` bytes from the body, in
    /// order: each takes up where the one before ended and asks for at most
    /// [`MAX_READ_BUFFER_SIZE`] bytes, and together they ask for what is
    /// left of the body or for the whole buffer, whichever is less.
    pub fn read_to_end(&mut self, buffer: usize) -> (r: Vec<AtHttpReadRequest>)
        requires
            old(self).wf(),
        ensures
            final(self).wf(),
            final(self)@.len == old(self)@.len,
            final(self)@.pos - old(self)@.pos == (if old(self)@.len - old(self)@.pos < buffer {
                old(self)@.len - old(self)@.pos
            } else {
                buffer as int
            }),
            forall|i: int|
                0 <= i < r@.len() ==> 0 < (#[trigger] r@[i]).len <= MAX_READ_BUFFER_SIZE,
            forall|i: int|
                0 <= i < r@.len() ==> (#[trigger] r@[i]).len == read_size(
                    HttpResponseBodyView { len: old(self)@.len, pos: r@[i].offset as nat },
                    (buffer - (r@[i].offset - old(self)@.pos)) as nat,
                ),
            r@.len() > 0 ==> r@[0].offset == old(self)@.pos,
            forall|i: int|
                0 < i < r@.len() ==> (#[trigger] r@[i]).offset == r@[i - 1].offset + r@[i - 1].len,
            r@.len() > 0 ==> r@[r@.len() - 1].offset + r@[r@.len() - 1].len == final(self)@.pos,
            r@.len() == 0 ==> final(self)@.pos == old(self)@.pos,
    {
        let mut reads: Vec<AtHttpReadRequest> = Vec::new();
        let mut room: usize = buffer;
        while room > 0
            invariant
                self.wf(),
                self@.len == old(self)@.len,
                old(self)@.pos <= self@.pos,
                room <= buffer,
                self@.pos - old(self)@.pos == buffer - room,
                forall|i: int|
                    0 <= i < reads@.len() ==> 0 < (#[trigger] reads@[i]).len
                        <= MAX_READ_BUFFER_SIZE,
                forall|i: int|
                    0 <= i < reads@.len() ==> (#[trigger] reads@[i]).len == read_size(
                        HttpResponseBodyView { len: old(self)@.len, pos: reads@[i].offset as nat },
                        (buffer - (reads@[i].offset - old(self)@.pos)) as nat,
                    ),
                reads@.len() > 0 ==> reads@[0].offset == old(self)@.pos,
                forall|i: int|
                    0 < i < reads@.len() ==> (#[trigger] reads@[i]).offset == reads@[i - 1].offset
                        + reads@[i - 1].len,
                reads@.len() > 0 ==> reads@[reads@.len() - 1].offset + reads@[reads@.len()
                    - 1].len == self@.pos,
                reads@.len() == 0 ==> self@.pos == old(self)@.pos,
            ensures
                room == 0 || self@.pos == self@.len,
            decreases room,
        {
            match self.read(room) {
                Some(request) => {
                    self.advance(room);
                    room = room - request.len;
                    reads.push(request);
                },
                None => {
                    break ;
                },
            }
        }
        reads
    }
}

/// `core::str::from_utf8`: the bytes as a string slice where they are
/// well-formed UTF-8, and nothing otherwise.
#[verifier::external_body]
fn str_from_utf8(bytes: &[u8]) -> (r: Option<&str>)
    ensures
        r.is_some() == valid_utf8(bytes@),
        r matches Some(text) ==> text.spec_bytes() == bytes@,
{
    core::str::from_utf8(bytes).ok()
}

/// Every byte of a body is read exactly once: reading into buffers, one
/// after the other, returns in total as many bytes as the reader advanced,
/// never more than the body has left; and once a read into a buffer with
/// room returns nothing, the total of all reads from the start of the body
/// is the length that the modem announced.
pub proof fn lemma_reads_cover_body(body: HttpResponseBodyView, buffers: Seq<nat>)
    requires
        body.pos <= body.len,
    ensures
        body_after(body, buffers).len == body.len,
        body_after(body, buffers).pos == body.pos + reads_total(body, buffers),
        body_after(body, buffers).pos <= body.len,
        forall|room: nat|
            room > 0 && read_size(body_after(body, buffers), room) == 0 ==> body.pos + reads_total(
                body,
                buffers,
            ) == body.len,
    decreases buffers.len(),
{
    if buffers.len() > 0 {
        let n = read_size(body, buffers[0]);
        lemma_reads_cover_body(
            HttpResponseBodyView { len: body.len, pos: body.pos + n },
            buffers.skip(1),
        );
    }
}

} // verus!
