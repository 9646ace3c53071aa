//! The cloud controller: when the modem is started, used and put to
//! sleep.
//!
//! The controller is a machine of three states. In `Startup` it power
//! cycles the modem, starts the network, reads the clock and reports that
//! it is up. In `Connected` it waits up to four seconds for an upload and
//! posts it; when none comes it reports that it goes offline and puts the
//! modem to sleep. In `Sleeping` it waits until an upload is ready, wakes
//! the modem and reports that it is online. Whatever fails, the modem is
//! reset, again every thirty seconds until the reset succeeds, and the
//! controller starts over.
//!
//! The machine decides; somebody else acts. Each step takes what the last
//! action brought and answers with the next action.

use crate::at::http::{set_header_command, set_url_command};
use crate::at::serial_interface::SleepMode;
use crate::at::{plain_request, AtError};
use crate::bounded::AT_BUFFER_SIZE;
use crate::net::cellular::sim_com_a67::{
    post_steps, startup_network_steps, steps_of, HttpRequest, ModuleStep, ModuleStepView,
    SimComCellularModule,
};
use crate::net::cellular::CellularError;
use crate::proto::{bounded, event_wire, Event, SystemEvent, EVENT_MAX_MESSAGE_SIZE};
use crate::text::push_bytes;
use crate::time::DateTime;
use vstd::prelude::*;
use vstd::string::StringSliceAdditionalSpecFns;

verus! {

/// How long the controller waits for an upload before it puts the modem
/// to sleep, in milliseconds.
pub const UPLOAD_WAIT_MS: u64 = 4000;

/// How long the controller waits before it tries a failed reset again, in
/// milliseconds.
pub const RESET_RETRY_MS: u64 = 30_000;

/// Uploads that fit the channel from the solar monitor to the controller.
pub const UPLOAD_CHANNEL_SIZE: usize = 4;

/// The state of the controller.
#[derive(Debug, Clone, Copy, PartialEq, Eq)]
pub enum CloudClientState {
    Startup,
    Connected,
    Sleeping,
}

/// Which action the controller awaits the result of.
#[derive(Debug, Clone, Copy, PartialEq, Eq)]
pub enum CloudStage {
    PowerCycle,
    StartupNetwork,
    QueryClock,
    TimeSync { now: DateTime },
    PostStartupEvent,
    AwaitUpload,
    PostReading,
    PostOfflineEvent,
    SetSleepMode,
    AwaitUploadReady,
    WakeUp,
    PostOnlineEvent,
    Reset,
    WaitToRetryReset,
}

/// What the controller asks for.
#[derive(Debug, Clone, Copy, PartialEq, Eq)]
pub enum CloudAction {
    /// Power cycle the modem.
    PowerCycle,
    /// Start the network on the node's access point.
    StartupNetwork,
    /// Read the modem's real-time clock; answer with [`CloudEvent::Clock`].
    QueryRealTimeClock,
    /// Set the wall clock to `now`.
    TimeSync { now: DateTime },
    /// Post an event to the backend.
    PostEvent { event: SystemEvent },
    /// Wait for an upload for at most `timeout_ms`; answer with
    /// [`CloudEvent::Upload`] or [`CloudEvent::UploadTimeout`].
    AwaitUpload { timeout_ms: u64 },
    /// Post the upload that was received to the backend.
    PostReading,
    /// Set the modem's sleep mode.
    SetSleepMode { mode: SleepMode },
    /// Wait until an upload is ready, without taking it.
    AwaitUploadReady,
    /// Wake the modem up.
    WakeUp,
    /// Reset the modem.
    Reset,
    /// Wait so many milliseconds.
    Wait { ms: u64 },
}

/// What an action brought.
#[derive(Debug, Clone, Copy, PartialEq, Eq)]
pub enum CloudEvent {
    /// The action succeeded.
    Done,
    /// The clock was read.
    Clock { now: DateTime },
    /// An upload was received.
    Upload,
    /// No upload came in time.
    UploadTimeout,
    /// The action failed.
    Failed { error: CellularError },
}

/// What the controller knows of the time when it takes a step: the wall
/// clock's reading, if the clock is set, and the seconds since boot.
#[derive(Debug, Clone, Copy, PartialEq, Eq)]
pub struct Moment {
    pub now: Option<i64>,
    pub uptime_seconds: u32,
}

/// What a [`CloudController`] holds.
pub struct CloudControllerView {
    pub state: CloudClientState,
    pub stage: CloudStage,
}

/// Whether the controller is busy resetting the modem.
pub open spec fn is_recovering(stage: CloudStage) -> bool {
    stage == CloudStage::Reset || stage == CloudStage::WaitToRetryReset
}

/// One step of the controller: its state and stage after `event`, and the
/// action it asks for. An event that the stage does not await counts as a
/// failure.
pub open spec fn cloud_step(pre: CloudControllerView, event: CloudEvent, moment: Moment) -> (
    CloudControllerView,
    CloudAction,
) {
    let awaiting_upload = (
        CloudControllerView { state: CloudClientState::Connected, stage: CloudStage::AwaitUpload },
        CloudAction::AwaitUpload { timeout_ms: 4000 },
    );
    let sleep = (
        CloudControllerView { state: pre.state, stage: CloudStage::SetSleepMode },
        CloudAction::SetSleepMode { mode: SleepMode::RxSleep },
    );
    let reset = (
        CloudControllerView { state: pre.state, stage: CloudStage::Reset },
        CloudAction::Reset,
    );
    match (pre.stage, event) {
        (CloudStage::PowerCycle, CloudEvent::Done) => (
            CloudControllerView { state: pre.state, stage: CloudStage::StartupNetwork },
            CloudAction::StartupNetwork,
        ),
        (CloudStage::StartupNetwork, CloudEvent::Done) => (
            CloudControllerView { state: pre.state, stage: CloudStage::QueryClock },
            CloudAction::QueryRealTimeClock,
        ),
        (CloudStage::QueryClock, CloudEvent::Clock { now }) => (
            CloudControllerView { state: pre.state, stage: CloudStage::TimeSync { now } },
            CloudAction::TimeSync { now },
        ),
        (CloudStage::TimeSync { now }, CloudEvent::Done) => (
            CloudControllerView {
                state: CloudClientState::Connected,
                stage: CloudStage::PostStartupEvent,
            },
            CloudAction::PostEvent {
                event: SystemEvent {
                    timestamp: now@.timestamp as i64,
                    event: Some(Event::StartupEvent { uptime_seconds: moment.uptime_seconds }),
                },
            },
        ),
        (CloudStage::PostStartupEvent, CloudEvent::Done) => awaiting_upload,
        (CloudStage::AwaitUpload, CloudEvent::Upload) => (
            CloudControllerView { state: pre.state, stage: CloudStage::PostReading },
            CloudAction::PostReading,
        ),
        (CloudStage::PostReading, CloudEvent::Done) => awaiting_upload,
        (CloudStage::AwaitUpload, CloudEvent::UploadTimeout) => match moment.now {
            Some(t) => (
                CloudControllerView { state: pre.state, stage: CloudStage::PostOfflineEvent },
                CloudAction::PostEvent {
                    event: SystemEvent {
                        timestamp: t,
                        event: Some(Event::OfflineEvent { uptime_seconds: moment.uptime_seconds }),
                    },
                },
            ),
            None => sleep,
        },
        (CloudStage::PostOfflineEvent, CloudEvent::Done) => sleep,
        (CloudStage::SetSleepMode, CloudEvent::Done) => (
            CloudControllerView {
                state: CloudClientState::Sleeping,
                stage: CloudStage::AwaitUploadReady,
            },
            CloudAction::AwaitUploadReady,
        ),
        (CloudStage::AwaitUploadReady, CloudEvent::Done) => (
            CloudControllerView { state: pre.state, stage: CloudStage::WakeUp },
            CloudAction::WakeUp,
        ),
        (CloudStage::WakeUp, CloudEvent::Done) => match moment.now {
            Some(t) => (
                CloudControllerView { state: pre.state, stage: CloudStage::PostOnlineEvent },
                CloudAction::PostEvent {
                    event: SystemEvent {
                        timestamp: t,
                        event: Some(Event::OnlineEvent { uptime_seconds: moment.uptime_seconds }),
                    },
                },
            ),
            None => awaiting_upload,
        },
        (CloudStage::PostOnlineEvent, CloudEvent::Done) => awaiting_upload,
        (CloudStage::Reset, CloudEvent::Done) => (
            CloudControllerView { state: CloudClientState::Startup, stage: CloudStage::PowerCycle },
            CloudAction::PowerCycle,
        ),
        (CloudStage::Reset, _) => (
            CloudControllerView { state: pre.state, stage: CloudStage::WaitToRetryReset },
            CloudAction::Wait { ms: 30_000 },
        ),
        (CloudStage::WaitToRetryReset, _) => reset,
        _ => reset,
    }
}

/// The state machine that runs the modem.
pub struct CloudController {
    state: CloudClientState,
    stage: CloudStage,
}

impl View for CloudController {
    type V = CloudControllerView;

    closed spec fn view(&self) -> CloudControllerView {
        CloudControllerView { state: self.state, stage: self.stage }
    }
}

impl CloudController {
    /// A controller in `Startup`, about to power cycle the modem.
    pub fn new() -> (r: Self)
        ensures
            r@ == (CloudControllerView {
                state: CloudClientState::Startup,
                stage: CloudStage::PowerCycle,
            }),
    {
        CloudController { state: CloudClientState::Startup, stage: CloudStage::PowerCycle }
    }

    /// The first action of a new controller: power cycle the modem.
    pub fn first_action(&self) -> (r: CloudAction)
        ensures
            r == CloudAction::PowerCycle,
    {
        CloudAction::PowerCycle
    }

    /// The state of the controller.
    pub fn state(&self) -> (r: CloudClientState)
        ensures
            r == self@.state,
    {
        self.state
    }

    /// The stage of the controller.
    pub fn stage(&self) -> (r: CloudStage)
        ensures
            r == self@.stage,
    {
        self.stage
    }

    /// Puts the controller to sleep: it is in `Sleeping` afterwards and
    /// waits for an upload to be ready.
    pub fn sleep(&mut self) -> (r: Result<(), CellularError>)
        ensures
            r.is_ok(),
            final(self)@ == (CloudControllerView {
                state: CloudClientState::Sleeping,
                stage: CloudStage::AwaitUploadReady,
            }),
    {
        self.state = CloudClientState::Sleeping;
        self.stage = CloudStage::AwaitUploadReady;
        Ok(())
    }

    /// The body of the post that reports `event`, for a buffer of `capacity`
    /// bytes. Fails with an encoding error where the wire form does not fit
    /// the buffer, which cannot happen with a buffer of
    /// [`EVENT_MAX_MESSAGE_SIZE`] bytes or more.
    pub fn upload_event(event: &SystemEvent, capacity: usize) -> (r: Result<Vec<u8>, CellularError>)
        ensures
            r.is_ok() == (event_wire(*event).len() <= capacity),
            r matches Ok(body) ==> body@ == event_wire(*event),
            r matches Err(e) ==> e == CellularError::Encoding,
            capacity >= EVENT_MAX_MESSAGE_SIZE ==> r.is_ok(),
    {
        proof {
            crate::proto::lemma_event_len(*event);
        }
        match bounded(event.encode(), capacity) {
            Some(body) => Ok(body),
            None => Err(CellularError::Encoding),
        }
    }

    /// Takes what the last action brought and says what to do next.
    pub fn once(&mut self, event: CloudEvent, moment: Moment) -> (r: CloudAction)
        ensures
            final(self)@ == cloud_step(old(self)@, event, moment).0,
            r == cloud_step(old(self)@, event, moment).1,
    {
        let (state, stage, action) = match (self.stage, event) {
            (CloudStage::PowerCycle, CloudEvent::Done) => (
                self.state,
                CloudStage::StartupNetwork,
                CloudAction::StartupNetwork,
            ),
            (CloudStage::StartupNetwork, CloudEvent::Done) => (
                self.state,
                CloudStage::QueryClock,
                CloudAction::QueryRealTimeClock,
            ),
            (CloudStage::QueryClock, CloudEvent::Clock { now }) => (
                self.state,
                CloudStage::TimeSync { now },
                CloudAction::TimeSync { now },
            ),
            (CloudStage::TimeSync { now }, CloudEvent::Done) => (
                CloudClientState::Connected,
                CloudStage::PostStartupEvent,
                CloudAction::PostEvent {
                    event: SystemEvent {
                        timestamp: now.timestamp(),
                        event: Some(Event::StartupEvent { uptime_seconds: moment.uptime_seconds }),
                    },
                },
            ),
            (CloudStage::PostStartupEvent, CloudEvent::Done)
            | (CloudStage::PostReading, CloudEvent::Done)
            | (CloudStage::PostOnlineEvent, CloudEvent::Done) => (
                CloudClientState::Connected,
                CloudStage::AwaitUpload,
                CloudAction::AwaitUpload { timeout_ms: UPLOAD_WAIT_MS },
            ),
            (CloudStage::AwaitUpload, CloudEvent::Upload) => (
                self.state,
                CloudStage::PostReading,
                CloudAction::PostReading,
            ),
            (CloudStage::AwaitUpload, CloudEvent::UploadTimeout) => match moment.now {
                Some(t) => (
                    self.state,
                    CloudStage::PostOfflineEvent,
                    CloudAction::PostEvent {
                        event: SystemEvent {
                            timestamp: t,
                            event: Some(
                                Event::OfflineEvent { uptime_seconds: moment.uptime_seconds },
                            ),
                        },
                    },
                ),
                None => (
                    self.state,
                    CloudStage::SetSleepMode,
                    CloudAction::SetSleepMode { mode: SleepMode::RxSleep },
                ),
            },
            (CloudStage::PostOfflineEvent, CloudEvent::Done) => (
                self.state,
                CloudStage::SetSleepMode,
                CloudAction::SetSleepMode { mode: SleepMode::RxSleep },
            ),
            (CloudStage::SetSleepMode, CloudEvent::Done) => (
                CloudClientState::Sleeping,
                CloudStage::AwaitUploadReady,
                CloudAction::AwaitUploadReady,
            ),
            (CloudStage::AwaitUploadReady, CloudEvent::Done) => (
                self.state,
                CloudStage::WakeUp,
                CloudAction::WakeUp,
            ),
            (CloudStage::WakeUp, CloudEvent::Done) => match moment.now {
                Some(t) => (
                    self.state,
                    CloudStage::PostOnlineEvent,
                    CloudAction::PostEvent {
                        event: SystemEvent {
                            timestamp: t,
                            event: Some(
                                Event::OnlineEvent { uptime_seconds: moment.uptime_seconds },
                            ),
                        },
                    },
                ),
                None => (
                    CloudClientState::Connected,
                    CloudStage::AwaitUpload,
                    CloudAction::AwaitUpload { timeout_ms: UPLOAD_WAIT_MS },
                ),
            },
            (CloudStage::Reset, CloudEvent::Done) => (
                CloudClientState::Startup,
                CloudStage::PowerCycle,
                CloudAction::PowerCycle,
            ),
            (CloudStage::Reset, _) => (
                self.state,
                CloudStage::WaitToRetryReset,
                CloudAction::Wait { ms: RESET_RETRY_MS },
            ),
            _ => (self.state, CloudStage::Reset, CloudAction::Reset),
        };
        self.state = state;
        self.stage = stage;
        action
    }
}

/// The path of the endpoint that takes uploads.
pub open spec fn reading_path() -> Seq<u8> {
    "/api/v2/solar/reading".spec_bytes()
}

/// The path of the endpoint that takes events.
pub open spec fn event_path() -> Seq<u8> {
    "/api/v2/solar/event".spec_bytes()
}

/// The URL that uploads are posted to: the base URL of the backend and
/// [`reading_path`].
pub fn reading_url(base_url: &[u8]) -> (r: Vec<u8>)
    ensures
        r@ == base_url@ + reading_path(),
{
    let mut url: Vec<u8> = Vec::new();
    push_bytes(&mut url, base_url);
    push_bytes(&mut url, "/api/v2/solar/reading".as_bytes());
    assert(url@ =~= base_url@ + reading_path());
    url
}

/// The URL that events are posted to: the base URL of the backend and
/// [`event_path`].
pub fn event_url(base_url: &[u8]) -> (r: Vec<u8>)
    ensures
        r@ == base_url@ + event_path(),
{
    let mut url: Vec<u8> = Vec::new();
    push_bytes(&mut url, base_url);
    push_bytes(&mut url, "/api/v2/solar/event".as_bytes());
    assert(url@ =~= base_url@ + event_path());
    url
}

/// The script that starts the network on the access point of the node's
/// carrier, `gprs.swisscom.ch`.
pub fn startup_script() -> (r: Vec<ModuleStep>)
    ensures
        steps_of(r@) == startup_network_steps("gprs.swisscom.ch".spec_bytes()),
{
    proof {
        reveal_strlit("gprs.swisscom.ch");
        reveal_strlit("AT+CGDCONT=");
        reveal_strlit(",\"");
        reveal_strlit("IP");
        reveal_strlit("\",\"");
        reveal_strlit("\"");
        crate::text::lemma_ascii_len("gprs.swisscom.ch");
        crate::text::lemma_ascii_len("AT+CGDCONT=");
        crate::text::lemma_ascii_len(",\"");
        crate::text::lemma_ascii_len("IP");
        crate::text::lemma_ascii_len("\",\"");
        crate::text::lemma_ascii_len("\"");
        assert(crate::text::decimal(1).len() == 1);
    }
    match SimComCellularModule::new().startup_network("gprs.swisscom.ch".as_bytes()) {
        Ok(script) => script,
        Err(_) => Vec::new(),
    }
}

/// The steps of a post to the backend: the headers `Connection:
/// Keep-Alive` and `X-Token: <token>` are set, then the body is posted to
/// `url`.
pub open spec fn upload_steps(url: Seq<u8>, token: Seq<u8>) -> Seq<ModuleStepView> {
    seq![
        ModuleStepView::Send {
            request: plain_request(
                set_header_command("Connection".spec_bytes(), "Keep-Alive".spec_bytes()),
            ),
        },
        ModuleStepView::Send {
            request: plain_request(set_header_command("X-Token".spec_bytes(), token)),
        },
    ] + post_steps(url)
}

/// The script of a post to the backend. Fails with a format error where
/// one of its commands does not fit its buffer.
pub fn upload_script(url: &[u8], token: &[u8]) -> (r: Result<Vec<ModuleStep>, CellularError>)
    ensures
        r.is_ok() == (set_header_command("Connection".spec_bytes(), "Keep-Alive".spec_bytes()).len()
            <= AT_BUFFER_SIZE && set_header_command("X-Token".spec_bytes(), token@).len()
            <= AT_BUFFER_SIZE && set_url_command(url@).len() <= AT_BUFFER_SIZE),
        r matches Ok(script) ==> steps_of(script@) == upload_steps(url@, token@),
        r matches Err(e) ==> e == CellularError::AtError(AtError::FormatError),
{
    let keep_alive = HttpRequest::set_header("Connection".as_bytes(), "Keep-Alive".as_bytes())?;
    let x_token = HttpRequest::set_header("X-Token".as_bytes(), token)?;
    let mut post = HttpRequest::post(url)?;
    let mut script: Vec<ModuleStep> = Vec::new();
    script.push(ModuleStep::Send { request: keep_alive });
    script.push(ModuleStep::Send { request: x_token });
    let ghost head = steps_of(script@);
    let ghost tail = steps_of(post@);
    script.append(&mut post);
    assert(steps_of(script@) =~= head + tail);
    assert(steps_of(script@) =~= upload_steps(url@, token@));
    Ok(script)
}

/// Recovery: whatever fails outside a reset, the controller asks for a
/// reset next; a reset that fails is tried again after thirty seconds; and
/// a reset that succeeds puts the controller in `Startup`, about to power
/// cycle the modem.
pub proof fn lemma_failure_leads_to_reset(
    pre: CloudControllerView,
    error: CellularError,
    moment: Moment,
)
    ensures
        !is_recovering(pre.stage) ==> cloud_step(pre, CloudEvent::Failed { error }, moment) == (
            CloudControllerView { state: pre.state, stage: CloudStage::Reset },
            CloudAction::Reset,
        ),
        pre.stage == CloudStage::Reset ==> cloud_step(pre, CloudEvent::Failed { error }, moment)
            == (
            CloudControllerView { state: pre.state, stage: CloudStage::WaitToRetryReset },
            CloudAction::Wait { ms: 30_000 },
        ),
        pre.stage == CloudStage::WaitToRetryReset ==> cloud_step(pre, CloudEvent::Done, moment) == (
            CloudControllerView { state: pre.state, stage: CloudStage::Reset },
            CloudAction::Reset,
        ),
        pre.stage == CloudStage::Reset ==> cloud_step(pre, CloudEvent::Done, moment) == (
            CloudControllerView { state: CloudClientState::Startup, stage: CloudStage::PowerCycle },
            CloudAction::PowerCycle,
        ),
{
}

/// Whether a controller may be in `state` while it awaits `stage`.
pub open spec fn is_cloud_state(v: CloudControllerView) -> bool {
    match v.stage {
        CloudStage::PowerCycle | CloudStage::StartupNetwork | CloudStage::QueryClock
        | CloudStage::TimeSync { .. } => v.state == CloudClientState::Startup,
        CloudStage::PostStartupEvent | CloudStage::AwaitUpload | CloudStage::PostReading
        | CloudStage::PostOfflineEvent | CloudStage::SetSleepMode => v.state
            == CloudClientState::Connected,
        CloudStage::AwaitUploadReady | CloudStage::WakeUp | CloudStage::PostOnlineEvent => v.state
            == CloudClientState::Sleeping,
        CloudStage::Reset | CloudStage::WaitToRetryReset => true,
    }
}

/// Uploads are taken in `Connected` only: the controller never asks for
/// an upload unless it is in `Connected` afterwards, and never asks to post
/// one unless it was in `Connected` and an upload had just been received.
/// So while it starts up, sleeps or recovers, every upload stays where it
/// is.
pub proof fn lemma_uploads_taken_when_connected(
    pre: CloudControllerView,
    event: CloudEvent,
    moment: Moment,
)
    requires
        is_cloud_state(pre),
    ensures
        is_cloud_state(cloud_step(pre, event, moment).0),
        cloud_step(pre, event, moment).1 is AwaitUpload ==> cloud_step(pre, event, moment).0.state
            == CloudClientState::Connected,
        cloud_step(pre, event, moment).1 is PostReading ==> pre.state
            == CloudClientState::Connected && pre.stage == CloudStage::AwaitUpload && event
            == CloudEvent::Upload,
{
}

} // verus!
