use bt_core::at::serial_interface::SleepMode;
use bt_core::at::AtError;
use bt_core::net::cellular::CellularError;
use bt_core::net::cellular::sim_com_a67::ModuleStep;
use bt_core::net::cloud::{
    event_url, reading_url, startup_script, upload_script, CloudAction, CloudClientState,
    CloudController, CloudEvent, CloudStage, Moment,
};
use bt_core::proto::{Event, SystemEvent};
use bt_core::time::DateTime;

const T0: i64 = 1764505800;

fn at(uptime_seconds: u32) -> Moment {
    Moment { now: Some(T0 + uptime_seconds as i64), uptime_seconds }
}

fn unsynchronized(uptime_seconds: u32) -> Moment {
    Moment { now: None, uptime_seconds }
}

fn started() -> CloudController {
    let now = DateTime::new(2025, 11, 30, 12, 30, 0).unwrap();
    let mut controller = CloudController::new();
    controller.once(CloudEvent::Done, unsynchronized(1));
    controller.once(CloudEvent::Done, unsynchronized(20));
    controller.once(CloudEvent::Clock { now }, unsynchronized(21));
    controller.once(CloudEvent::Done, at(21));
    controller.once(CloudEvent::Done, at(22));
    controller
}

#[test]
fn startup_runs_through_to_connected() {
    let now = DateTime::new(2025, 11, 30, 12, 30, 0).unwrap();
    let mut controller = CloudController::new();
    assert_eq!(controller.state(), CloudClientState::Startup);
    assert_eq!(controller.first_action(), CloudAction::PowerCycle);
    assert_eq!(controller.once(CloudEvent::Done, unsynchronized(1)), CloudAction::StartupNetwork);
    assert_eq!(controller.once(CloudEvent::Done, unsynchronized(20)), CloudAction::QueryRealTimeClock);
    assert_eq!(
        controller.once(CloudEvent::Clock { now }, unsynchronized(21)),
        CloudAction::TimeSync { now }
    );
    assert_eq!(controller.state(), CloudClientState::Startup);
    assert_eq!(
        controller.once(CloudEvent::Done, at(21)),
        CloudAction::PostEvent {
            event: SystemEvent {
                timestamp: T0,
                event: Some(Event::StartupEvent { uptime_seconds: 21 })
            }
        }
    );
    assert_eq!(controller.state(), CloudClientState::Connected);
    assert_eq!(controller.once(CloudEvent::Done, at(22)), CloudAction::AwaitUpload { timeout_ms: 4000 });
    assert_eq!(controller.state(), CloudClientState::Connected);
    assert_eq!(controller.stage(), CloudStage::AwaitUpload);
}

#[test]
fn connected_posts_every_upload() {
    let mut controller = started();
    for i in 0..3 {
        assert_eq!(controller.once(CloudEvent::Upload, at(30 + i)), CloudAction::PostReading);
        assert_eq!(
            controller.once(CloudEvent::Done, at(31 + i)),
            CloudAction::AwaitUpload { timeout_ms: 4000 }
        );
        assert_eq!(controller.state(), CloudClientState::Connected);
    }
}

#[test]
fn connected_goes_to_sleep_when_no_upload_comes() {
    let mut controller = started();
    assert_eq!(
        controller.once(CloudEvent::UploadTimeout, at(40)),
        CloudAction::PostEvent {
            event: SystemEvent {
                timestamp: T0 + 40,
                event: Some(Event::OfflineEvent { uptime_seconds: 40 })
            }
        }
    );
    assert_eq!(controller.state(), CloudClientState::Connected);
    assert_eq!(
        controller.once(CloudEvent::Done, at(41)),
        CloudAction::SetSleepMode { mode: SleepMode::RxSleep }
    );
    assert_eq!(controller.once(CloudEvent::Done, at(42)), CloudAction::AwaitUploadReady);
    assert_eq!(controller.state(), CloudClientState::Sleeping);
}

#[test]
fn no_offline_event_without_the_time() {
    let mut controller = started();
    assert_eq!(
        controller.once(CloudEvent::UploadTimeout, unsynchronized(40)),
        CloudAction::SetSleepMode { mode: SleepMode::RxSleep }
    );
    assert_eq!(controller.once(CloudEvent::Done, unsynchronized(42)), CloudAction::AwaitUploadReady);
    assert_eq!(controller.once(CloudEvent::Done, unsynchronized(50)), CloudAction::WakeUp);
    assert_eq!(
        controller.once(CloudEvent::Done, unsynchronized(52)),
        CloudAction::AwaitUpload { timeout_ms: 4000 }
    );
    assert_eq!(controller.state(), CloudClientState::Connected);
}

#[test]
fn sleeping_wakes_up_when_an_upload_is_ready() {
    let mut controller = started();
    controller.once(CloudEvent::UploadTimeout, at(40));
    controller.once(CloudEvent::Done, at(41));
    controller.once(CloudEvent::Done, at(42));
    assert_eq!(controller.once(CloudEvent::Done, at(300)), CloudAction::WakeUp);
    assert_eq!(controller.state(), CloudClientState::Sleeping);
    assert_eq!(
        controller.once(CloudEvent::Done, at(303)),
        CloudAction::PostEvent {
            event: SystemEvent {
                timestamp: T0 + 303,
                event: Some(Event::OnlineEvent { uptime_seconds: 303 })
            }
        }
    );
    assert_eq!(controller.once(CloudEvent::Done, at(304)), CloudAction::AwaitUpload { timeout_ms: 4000 });
    assert_eq!(controller.state(), CloudClientState::Connected);
    assert_eq!(controller.once(CloudEvent::Upload, at(305)), CloudAction::PostReading);
}

#[test]
fn cloud_recovery() {
    let failed = CloudEvent::Failed { error: CellularError::AtError(AtError::Timeout) };
    let mut controller = CloudController::new();
    assert_eq!(controller.once(CloudEvent::Done, unsynchronized(1)), CloudAction::StartupNetwork);
    assert_eq!(controller.once(failed, unsynchronized(9)), CloudAction::Reset);
    assert_eq!(controller.stage(), CloudStage::Reset);
    assert_eq!(
        controller.once(CloudEvent::Failed { error: CellularError::GpioError }, unsynchronized(10)),
        CloudAction::Wait { ms: 30_000 }
    );
    assert_eq!(controller.once(CloudEvent::Done, unsynchronized(40)), CloudAction::Reset);
    assert_eq!(
        controller.once(CloudEvent::Failed { error: CellularError::GpioError }, unsynchronized(41)),
        CloudAction::Wait { ms: 30_000 }
    );
    assert_eq!(controller.once(CloudEvent::Done, unsynchronized(71)), CloudAction::Reset);
    assert_eq!(controller.once(CloudEvent::Done, unsynchronized(79)), CloudAction::PowerCycle);
    assert_eq!(controller.state(), CloudClientState::Startup);
    assert_eq!(controller.stage(), CloudStage::PowerCycle);
    assert_eq!(controller.once(CloudEvent::Done, unsynchronized(90)), CloudAction::StartupNetwork);
}

#[test]
fn a_failure_in_any_state_resets_the_modem() {
    let failed = CloudEvent::Failed { error: CellularError::Timeout };
    let mut controller = started();
    assert_eq!(controller.once(CloudEvent::Upload, at(30)), CloudAction::PostReading);
    assert_eq!(controller.once(failed, at(31)), CloudAction::Reset);
    assert_eq!(controller.state(), CloudClientState::Connected);
    assert_eq!(controller.once(CloudEvent::Done, at(39)), CloudAction::PowerCycle);
    assert_eq!(controller.state(), CloudClientState::Startup);

    let mut controller = started();
    controller.once(CloudEvent::UploadTimeout, at(40));
    controller.once(CloudEvent::Done, at(41));
    controller.once(CloudEvent::Done, at(42));
    controller.once(CloudEvent::Done, at(300));
    assert_eq!(controller.once(failed, at(303)), CloudAction::Reset);
    assert_eq!(controller.state(), CloudClientState::Sleeping);
    assert_eq!(controller.once(CloudEvent::Done, at(311)), CloudAction::PowerCycle);
    assert_eq!(controller.state(), CloudClientState::Startup);
}

#[test]
fn an_event_that_is_not_awaited_counts_as_a_failure() {
    let mut controller = CloudController::new();
    assert_eq!(controller.once(CloudEvent::Upload, unsynchronized(1)), CloudAction::Reset);
    let mut controller = started();
    assert_eq!(controller.once(CloudEvent::Done, at(30)), CloudAction::Reset);
}

#[test]
fn uploads_are_not_asked_for_while_starting_up() {
    let now = DateTime::new(2025, 11, 30, 12, 30, 0).unwrap();
    let failed = CloudEvent::Failed { error: CellularError::Timeout };
    let mut controller = CloudController::new();
    let script = [
        CloudEvent::Done,
        failed,
        failed,
        CloudEvent::Done,
        CloudEvent::Done,
        CloudEvent::Done,
        CloudEvent::Done,
        CloudEvent::Clock { now },
        CloudEvent::Done,
    ];
    for event in script {
        let action = controller.once(event, unsynchronized(5));
        assert!(!matches!(action, CloudAction::AwaitUpload { .. } | CloudAction::PostReading));
    }
    assert_eq!(controller.state(), CloudClientState::Connected);
}

#[test]
fn sleep_puts_the_controller_to_sleep() {
    let mut controller = started();
    assert_eq!(controller.sleep(), Ok(()));
    assert_eq!(controller.state(), CloudClientState::Sleeping);
    assert_eq!(controller.stage(), CloudStage::AwaitUploadReady);
    assert_eq!(controller.once(CloudEvent::Done, at(50)), CloudAction::WakeUp);
}

#[test]
fn backend_urls() {
    assert_eq!(
        reading_url(b"http://api.example.org"),
        b"http://api.example.org/api/v2/solar/reading".to_vec()
    );
    assert_eq!(
        event_url(b"http://api.example.org"),
        b"http://api.example.org/api/v2/solar/event".to_vec()
    );
}

#[test]
fn check_startup_event_body() {
    let event = SystemEvent {
        timestamp: T0,
        event: Some(Event::StartupEvent { uptime_seconds: 123 }),
    };
    assert_eq!(
        CloudController::upload_event(&event, 19),
        Ok(vec![0x08, 0xc8, 0xf1, 0xb0, 0xc9, 0x06, 0x12, 0x02, 0x08, 0x7b])
    );
    assert_eq!(CloudController::upload_event(&event, 10).map(|body| body.len()), Ok(10));
    assert_eq!(CloudController::upload_event(&event, 9), Err(CellularError::Encoding));
}

#[test]
fn a_post_sets_the_headers_first() {
    let script = upload_script(b"http://api.example.org/api/v2/solar/reading", b"secret").unwrap();
    let mut sent = Vec::new();
    for step in script.iter() {
        match step {
            ModuleStep::Send { request } => sent.push(String::from_utf8_lossy(request.command()).into_owned()),
            ModuleStep::WriteBody => sent.push(format!("<body>")),
            ModuleStep::Action { method } => sent.push(format!("{:?}", method)),
            _ => panic!("a step that does not belong to a post"),
        }
    }
    assert_eq!(
        sent,
        vec![
            "AT+HTTPPARA=\"USERDATA\",\"Connection: Keep-Alive\"",
            "AT+HTTPPARA=\"USERDATA\",\"X-Token: secret\"",
            "AT+HTTPPARA=\"URL\",\"http://api.example.org/api/v2/solar/reading\"",
            "<body>",
            "Post"
        ]
    );
    assert_eq!(
        upload_script(&[b'u'; 300], b"secret").err(),
        Some(CellularError::AtError(AtError::FormatError))
    );
    assert_eq!(
        upload_script(b"http://api.example.org", &[b't'; 300]).err(),
        Some(CellularError::AtError(AtError::FormatError))
    );
}

#[test]
fn the_network_is_started_on_the_carriers_access_point() {
    let script = startup_script();
    assert_eq!(script.len(), 3);
    assert!(matches!(
        &script[0],
        ModuleStep::Send { request } if request.command() == b"AT+CGDCONT=1,\"IP\",\"gprs.swisscom.ch\""
    ));
    assert!(matches!(script[1], ModuleStep::AwaitRegistration { retry_ms: 1000 }));
    assert!(matches!(script[2], ModuleStep::ReadClock));
}
