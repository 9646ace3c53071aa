//! Who may read the serial line: the runner and the client lease.
//!
//! Unsolicited lines and responses arrive on the same stream, so only one
//! party may read it at a time. The runner polls for unsolicited lines
//! until a client asks for the controller, and resumes when the client
//! gives it back. A client walks through a fixed lease: ask, await the
//! reply, lock, use, unlock, give back, await the reply.

use crate::at::{AtRequestMessage, AtResponseMessage};
use crate::bounded::Text;
use vstd::prelude::*;

verus! {

/// What the runner is doing.
#[derive(Debug, Clone, Copy, PartialEq, Eq)]
pub enum RunnerState {
    /// No client holds the controller: the runner waits for a request and
    /// for an unsolicited line, whichever comes first.
    UrcPoll,
    /// A client holds the controller: the runner waits for requests only,
    /// and lines that arrive are the client's to read.
    AtControllerAcquired,
}

/// Something odd that the runner took in its stride.
#[derive(Debug, Clone, Copy, PartialEq, Eq)]
pub enum RunnerNote {
    /// Nothing odd.
    Nothing,
    /// A release arrived while no client held the controller.
    ReleaseWhileNotAcquired,
    /// An acquire arrived while a client held the controller.
    AcquireWhileAcquired,
}

/// The runner's state and note after a request. Every request is answered;
/// an acquire leaves the controller with the client and a release with the
/// runner, whatever the state was.
pub open spec fn runner_step(state: RunnerState, request: AtRequestMessage) -> (
    RunnerState,
    RunnerNote,
) {
    match (state, request) {
        (RunnerState::UrcPoll, AtRequestMessage::AcquireAtController) => (
            RunnerState::AtControllerAcquired,
            RunnerNote::Nothing,
        ),
        (RunnerState::UrcPoll, AtRequestMessage::ReleaseAtController) => (
            RunnerState::UrcPoll,
            RunnerNote::ReleaseWhileNotAcquired,
        ),
        (RunnerState::AtControllerAcquired, AtRequestMessage::AcquireAtController) => (
            RunnerState::AtControllerAcquired,
            RunnerNote::AcquireWhileAcquired,
        ),
        (RunnerState::AtControllerAcquired, AtRequestMessage::ReleaseAtController) => (
            RunnerState::UrcPoll,
            RunnerNote::Nothing,
        ),
    }
}

/// What the runner did with a request.
#[derive(Debug, Clone, Copy, PartialEq, Eq)]
pub struct RunnerReply {
    /// The reply to send to the client.
    pub reply: AtResponseMessage,
    /// What to note in the log, if anything.
    pub note: RunnerNote,
}

/// The task that owns the unsolicited-line poll.
pub struct Runner {
    state: RunnerState,
}

impl View for Runner {
    type V = RunnerState;

    closed spec fn view(&self) -> RunnerState {
        self.state
    }
}

impl Runner {
    /// A runner that polls for unsolicited lines.
    pub fn new() -> (r: Self)
        ensures
            r@ == RunnerState::UrcPoll,
    {
        Runner { state: RunnerState::UrcPoll }
    }

    /// The runner's state.
    pub fn state(&self) -> (r: RunnerState)
        ensures
            r == self@,
    {
        self.state
    }

    /// Whether the runner reads unsolicited lines from the stream in its
    /// present state.
    pub fn polls_urc(&self) -> (r: bool)
        ensures
            r == (self@ == RunnerState::UrcPoll),
    {
        match self.state {
            RunnerState::UrcPoll => true,
            RunnerState::AtControllerAcquired => false,
        }
    }

    /// Takes a request from the control channel and says what to reply.
    pub fn run(&mut self, request: AtRequestMessage) -> (r: RunnerReply)
        ensures
            final(self)@ == runner_step(old(self)@, request).0,
            r.note == runner_step(old(self)@, request).1,
            r.reply == AtResponseMessage::Accepted,
    {
        let note = match self.state {
            RunnerState::UrcPoll => match request {
                AtRequestMessage::AcquireAtController => {
                    self.state = RunnerState::AtControllerAcquired;
                    RunnerNote::Nothing
                },
                AtRequestMessage::ReleaseAtController => RunnerNote::ReleaseWhileNotAcquired,
            },
            RunnerState::AtControllerAcquired => match request {
                AtRequestMessage::AcquireAtController => RunnerNote::AcquireWhileAcquired,
                AtRequestMessage::ReleaseAtController => {
                    self.state = RunnerState::UrcPoll;
                    RunnerNote::Nothing
                },
            },
        };
        RunnerReply { reply: AtResponseMessage::Accepted, note }
    }

    /// Takes an unsolicited line. The line is handed back for the log and
    /// the runner stays as it is.
    pub fn handle_urc(&mut self, urc: Text) -> (r: Text)
        ensures
            final(self)@ == old(self)@,
            r@ == urc@,
    {
        urc
    }
}

/// One step of a client's lease of the controller.
#[derive(Debug, Clone, Copy, PartialEq, Eq)]
pub enum LeaseStep {
    /// Send [`AtRequestMessage::AcquireAtController`] to the runner.
    SendAcquire,
    /// Await the runner's reply.
    AwaitAcquireReply,
    /// Lock the controller.
    LockController,
    /// Run the caller's work on the locked controller.
    UseController,
    /// Drop the lock.
    DropLock,
    /// Send [`AtRequestMessage::ReleaseAtController`] to the runner.
    SendRelease,
    /// Await the runner's reply.
    AwaitReleaseReply,
    /// The lease is over.
    Done,
}

/// The step that follows `step` in a lease.
pub open spec fn lease_next(step: LeaseStep) -> LeaseStep {
    match step {
        LeaseStep::SendAcquire => LeaseStep::AwaitAcquireReply,
        LeaseStep::AwaitAcquireReply => LeaseStep::LockController,
        LeaseStep::LockController => LeaseStep::UseController,
        LeaseStep::UseController => LeaseStep::DropLock,
        LeaseStep::DropLock => LeaseStep::SendRelease,
        LeaseStep::SendRelease => LeaseStep::AwaitReleaseReply,
        LeaseStep::AwaitReleaseReply => LeaseStep::Done,
        LeaseStep::Done => LeaseStep::Done,
    }
}

/// The request that a step of the lease sends to the runner, if it sends
/// one.
pub open spec fn lease_request(step: LeaseStep) -> Option<AtRequestMessage> {
    match step {
        LeaseStep::SendAcquire => Some(AtRequestMessage::AcquireAtController),
        LeaseStep::SendRelease => Some(AtRequestMessage::ReleaseAtController),
        _ => None,
    }
}

/// The step that a lease is at after `done` of its steps.
pub open spec fn lease_step_at(done: nat) -> LeaseStep
    decreases done,
{
    if done == 0 {
        LeaseStep::SendAcquire
    } else {
        lease_next(lease_step_at((done - 1) as nat))
    }
}

/// The runner's state after a client has taken `done` steps of a lease
/// that began while the runner was in `state`.
pub open spec fn runner_during_lease(state: RunnerState, done: nat) -> RunnerState
    decreases done,
{
    if done == 0 {
        state
    } else {
        let before = runner_during_lease(state, (done - 1) as nat);
        match lease_request(lease_step_at((done - 1) as nat)) {
            Some(request) => runner_step(before, request).0,
            None => before,
        }
    }
}

/// A client's lease of the controller.
pub struct Lease {
    step: LeaseStep,
}

impl View for Lease {
    type V = LeaseStep;

    closed spec fn view(&self) -> LeaseStep {
        self.step
    }
}

impl Lease {
    /// A lease that has not begun: its first step is to ask the runner.
    pub fn new() -> (r: Self)
        ensures
            r@ == LeaseStep::SendAcquire,
    {
        Lease { step: LeaseStep::SendAcquire }
    }

    /// The step to take now.
    pub fn step(&self) -> (r: LeaseStep)
        ensures
            r == self@,
    {
        self.step
    }

    /// The request to send to the runner in the present step, if the step
    /// sends one.
    pub fn request(&self) -> (r: Option<AtRequestMessage>)
        ensures
            r == lease_request(self@),
    {
        match self.step {
            LeaseStep::SendAcquire => Some(AtRequestMessage::AcquireAtController),
            LeaseStep::SendRelease => Some(AtRequestMessage::ReleaseAtController),
            _ => None,
        }
    }

    /// Whether the client holds the lock on the controller in the present
    /// step.
    pub fn holds_lock(&self) -> (r: bool)
        ensures
            r == (self@ == LeaseStep::UseController || self@ == LeaseStep::DropLock),
    {
        match self.step {
            LeaseStep::UseController | LeaseStep::DropLock => true,
            _ => false,
        }
    }

    /// Marks the present step as taken and moves to the next.
    pub fn advance(&mut self)
        ensures
            final(self)@ == lease_next(old(self)@),
    {
        self.step = match self.step {
            LeaseStep::SendAcquire => LeaseStep::AwaitAcquireReply,
            LeaseStep::AwaitAcquireReply => LeaseStep::LockController,
            LeaseStep::LockController => LeaseStep::UseController,
            LeaseStep::UseController => LeaseStep::DropLock,
            LeaseStep::DropLock => LeaseStep::SendRelease,
            LeaseStep::SendRelease => LeaseStep::AwaitReleaseReply,
            LeaseStep::AwaitReleaseReply => LeaseStep::Done,
            LeaseStep::Done => LeaseStep::Done,
        };
    }
}

/// Exclusive use of the stream: from whatever state the runner starts,
/// it does not poll for unsolicited lines from the moment the client's
/// acquire is taken until its release is taken, which covers every step at
/// which the client holds the lock; and once the lease is over the runner
/// polls again.
pub proof fn lemma_lease_suspends_polling(state: RunnerState, done: nat)
    ensures
        1 <= done <= 5 ==> runner_during_lease(state, done) == RunnerState::AtControllerAcquired,
        done >= 6 ==> runner_during_lease(state, done) == RunnerState::UrcPoll,
        done == 3 ==> lease_step_at(done) == LeaseStep::UseController,
        done == 4 ==> lease_step_at(done) == LeaseStep::DropLock,
        done >= 7 ==> lease_step_at(done) == LeaseStep::Done,
    decreases done,
{
    reveal_with_fuel(lease_step_at, 8);
    reveal_with_fuel(runner_during_lease, 8);
    if done > 7 {
        lemma_lease_suspends_polling(state, (done - 1) as nat);
    }
}

} // verus!
