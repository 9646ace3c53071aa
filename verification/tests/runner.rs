use bt_core::at::runner::{Lease, LeaseStep, Runner, RunnerNote, RunnerState};
use bt_core::at::{AtRequestMessage, AtResponseMessage};
use bt_core::bounded::Text;

#[test]
fn the_runner_polls_until_a_client_acquires() {
    let mut runner = Runner::new();
    assert_eq!(runner.state(), RunnerState::UrcPoll);
    assert!(runner.polls_urc());
    let reply = runner.run(AtRequestMessage::AcquireAtController);
    assert_eq!(reply.reply, AtResponseMessage::Accepted);
    assert_eq!(reply.note, RunnerNote::Nothing);
    assert_eq!(runner.state(), RunnerState::AtControllerAcquired);
    assert!(!runner.polls_urc());
    let reply = runner.run(AtRequestMessage::ReleaseAtController);
    assert_eq!(reply.reply, AtResponseMessage::Accepted);
    assert_eq!(reply.note, RunnerNote::Nothing);
    assert!(runner.polls_urc());
}

#[test]
fn the_runner_notes_requests_out_of_turn() {
    let mut runner = Runner::new();
    let reply = runner.run(AtRequestMessage::ReleaseAtController);
    assert_eq!(reply.reply, AtResponseMessage::Accepted);
    assert_eq!(reply.note, RunnerNote::ReleaseWhileNotAcquired);
    assert!(runner.polls_urc());
    runner.run(AtRequestMessage::AcquireAtController);
    let reply = runner.run(AtRequestMessage::AcquireAtController);
    assert_eq!(reply.reply, AtResponseMessage::Accepted);
    assert_eq!(reply.note, RunnerNote::AcquireWhileAcquired);
    assert!(!runner.polls_urc());
}

#[test]
fn an_unsolicited_line_is_handed_back_for_the_log() {
    let mut runner = Runner::new();
    let line = runner.handle_urc(Text::from_bytes(b"+CREG: 1").unwrap());
    assert_eq!(line.bytes(), b"+CREG: 1");
    assert!(runner.polls_urc());
}

#[test]
fn a_lease_walks_through_its_seven_steps() {
    let mut lease = Lease::new();
    let mut steps = Vec::new();
    while lease.step() != LeaseStep::Done {
        steps.push((lease.step(), lease.request(), lease.holds_lock()));
        lease.advance();
    }
    assert_eq!(
        steps,
        vec![
            (LeaseStep::SendAcquire, Some(AtRequestMessage::AcquireAtController), false),
            (LeaseStep::AwaitAcquireReply, None, false),
            (LeaseStep::LockController, None, false),
            (LeaseStep::UseController, None, true),
            (LeaseStep::DropLock, None, true),
            (LeaseStep::SendRelease, Some(AtRequestMessage::ReleaseAtController), false),
            (LeaseStep::AwaitReleaseReply, None, false),
        ]
    );
    lease.advance();
    assert_eq!(lease.step(), LeaseStep::Done);
    assert_eq!(lease.request(), None);
}

#[test]
fn the_runner_does_not_poll_while_a_lease_holds_the_lock() {
    let mut runner = Runner::new();
    let mut lease = Lease::new();
    while lease.step() != LeaseStep::Done {
        if let Some(request) = lease.request() {
            assert_eq!(runner.run(request).note, RunnerNote::Nothing);
        }
        if lease.holds_lock() {
            assert!(!runner.polls_urc());
        }
        lease.advance();
    }
    assert!(runner.polls_urc());
}
