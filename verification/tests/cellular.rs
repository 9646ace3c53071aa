use bt_core::at::http::{AtHttpReadRequest, HttpAction, HttpActionResponse, HttpStatusCode};
use bt_core::at::network::NetworkRegistrationState;
use bt_core::at::AtError;
use bt_core::net::cellular::sim_com_a67::{
    clock_read_outcome, is_registered, HttpRequest, HttpResponse, HttpResponseBody, Level,
    ModuleStep, Pin, SimComCellularModule,
};
use bt_core::net::cellular::{CellularError, ErrorKind};
use bt_core::time::DateTime;

fn shape(script: &[ModuleStep]) -> Vec<String> {
    script
        .iter()
        .map(|step| match step {
            ModuleStep::SetPin { pin, level } => format!("{:?}={:?}", pin, level),
            ModuleStep::Wait { ms } => format!("wait {}", ms),
            ModuleStep::EnsureAt { timeout_ms } => format!("ensure at {}", timeout_ms),
            ModuleStep::AwaitAlive => format!("await alive"),
            ModuleStep::AwaitRegistration { retry_ms } => format!("await registration {}", retry_ms),
            ModuleStep::ReadClock => format!("read clock"),
            ModuleStep::Send { request } => format!(
                "send {} {}",
                String::from_utf8_lossy(request.command()),
                request.timeout_ms()
            ),
            ModuleStep::WriteBody => format!("write body"),
            ModuleStep::Action { method } => format!("action {:?}", method),
        })
        .collect()
}

const POWER_ON: [&str; 6] = [
    "PowerKey=Low",
    "wait 50",
    "PowerKey=High",
    "wait 8000",
    "ensure at 10000",
    "send AT+CTZU=1 5000",
];

#[test]
fn power_on_drives_the_power_key() {
    let mut module = SimComCellularModule::new();
    assert_eq!(shape(&module.power_on()), POWER_ON.to_vec());
}

#[test]
fn power_down_waits_four_seconds() {
    assert_eq!(shape(&SimComCellularModule::new().power_down()), vec!["send AT+CPOF 5000", "wait 2000", "wait 2000"]);
}

#[test]
fn power_cycle_powers_a_live_modem_down_first() {
    let mut module = SimComCellularModule::new();
    let mut expected = vec!["send AT+CPOF 5000", "wait 2000", "wait 2000", "wait 1000"];
    expected.extend_from_slice(&POWER_ON);
    assert_eq!(shape(&module.power_cycle(true)), expected);
    assert_eq!(shape(&module.power_cycle(false)), POWER_ON.to_vec());
}

#[test]
fn reset_drives_the_reset_line() {
    assert_eq!(
        shape(&SimComCellularModule::new().reset()),
        vec!["Reset=Low", "wait 2500", "Reset=High", "wait 5000"]
    );
    assert!(matches!(
        SimComCellularModule::new().reset()[0],
        ModuleStep::SetPin { pin: Pin::Reset, level: Level::Low }
    ));
}

#[test]
fn startup_network_sets_the_access_point_and_awaits_registration() {
    assert_eq!(
        shape(&SimComCellularModule::new().startup_network(b"gprs.swisscom.ch").unwrap()),
        vec![
            "send AT+CGDCONT=1,\"IP\",\"gprs.swisscom.ch\" 5000",
            "await registration 1000",
            "read clock"
        ]
    );
    assert!(matches!(
        SimComCellularModule::new().startup_network(&[b'a'; 400]),
        Err(CellularError::AtError(AtError::FormatError))
    ));
}

#[test]
fn wake_up_awaits_the_modem_and_the_network() {
    assert_eq!(shape(&SimComCellularModule::new().wake_up()), vec!["await alive", "await registration 2000"]);
}

#[test]
fn only_the_home_network_counts_as_registered() {
    assert!(is_registered(NetworkRegistrationState::Registered));
    assert!(!is_registered(NetworkRegistrationState::RegisteredRoaming));
    assert!(!is_registered(NetworkRegistrationState::NotRegisteredSearching));
    assert!(!is_registered(NetworkRegistrationState::NotRegistered));
    assert!(!is_registered(NetworkRegistrationState::RegistrationDenied));
    assert!(!is_registered(NetworkRegistrationState::Unknown));
    assert!(!is_registered(NetworkRegistrationState::RegisteredSmsOnly));
}

#[test]
fn the_modem_is_alive_if_the_probe_is_answered() {
    assert!(SimComCellularModule::new().is_alive(&Ok::<(), AtError>(())));
    assert!(!SimComCellularModule::new().is_alive(&Err::<(), AtError>(AtError::Timeout)));
}

#[test]
fn the_clock_read_is_best_effort() {
    let now = DateTime::new(2025, 11, 30, 12, 30, 0).unwrap();
    assert_eq!(clock_read_outcome(Ok(now)), Ok(Some(now)));
    assert_eq!(clock_read_outcome(Err(AtError::ParseError)), Ok(None));
    assert_eq!(
        clock_read_outcome(Err(AtError::Timeout)),
        Err(CellularError::AtError(AtError::Timeout))
    );
    assert_eq!(
        clock_read_outcome(Err(AtError::ModemError)),
        Err(CellularError::AtError(AtError::ModemError))
    );
}

#[test]
fn the_http_service_is_started_once_per_power_on() {
    let mut module = SimComCellularModule::new();
    assert_eq!(module.request().unwrap().command(), b"AT+HTTPINIT");
    module.http_started();
    assert!(module.request().is_none());
    module.power_on();
    assert_eq!(module.request().unwrap().command(), b"AT+HTTPINIT");
    module.http_started();
    module.power_cycle(true);
    assert!(module.request().is_some());
}

#[test]
fn get_and_post_scripts() {
    assert_eq!(
        shape(&HttpRequest::get(b"http://example.org/a").unwrap()),
        vec!["send AT+HTTPPARA=\"URL\",\"http://example.org/a\" 5000", "action Get"]
    );
    assert_eq!(
        shape(&HttpRequest::post(b"http://example.org/b").unwrap()),
        vec!["send AT+HTTPPARA=\"URL\",\"http://example.org/b\" 5000", "write body", "action Post"]
    );
    assert!(matches!(
        HttpRequest::post(b"http://example.org/b").unwrap()[2],
        ModuleStep::Action { method: HttpAction::Post }
    ));
    assert_eq!(
        HttpRequest::set_header(b"X-Token", b"secret").unwrap().command(),
        b"AT+HTTPPARA=\"USERDATA\",\"X-Token: secret\""
    );
    assert!(matches!(
        HttpRequest::get(&[b'x'; 300]),
        Err(CellularError::AtError(AtError::FormatError))
    ));
}

#[test]
fn a_body_is_read_in_pieces_of_at_most_1024_bytes() {
    let mut body = HttpResponseBody::new(2500);
    assert_eq!(body.len(), 2500);
    assert!(!body.is_empty());
    assert_eq!(body.read(4096), Some(AtHttpReadRequest::new(0, 1024)));
    assert_eq!(body.read(100), Some(AtHttpReadRequest::new(0, 100)));
    assert_eq!(body.read(0), None);
    let reads = body.read_to_end(4096);
    assert_eq!(
        reads,
        vec![
            AtHttpReadRequest::new(0, 1024),
            AtHttpReadRequest::new(1024, 1024),
            AtHttpReadRequest::new(2048, 452)
        ]
    );
    assert_eq!(reads.iter().map(|r| r.len).sum::<usize>(), 2500);
    assert_eq!(body.position(), 2500);
    assert_eq!(body.read(4096), None);
}

#[test]
fn a_small_buffer_limits_what_is_read() {
    let mut body = HttpResponseBody::new(2500);
    let reads = body.read_to_end(1500);
    assert_eq!(reads, vec![AtHttpReadRequest::new(0, 1024), AtHttpReadRequest::new(1024, 476)]);
    assert_eq!(body.position(), 1500);
    body.advance(700);
    assert_eq!(body.position(), 2200);
    assert_eq!(body.read(700), Some(AtHttpReadRequest::new(2200, 300)));
    body.advance(700);
    assert_eq!(body.position(), 2500);
    body.advance(700);
    assert_eq!(body.position(), 2500);
}

#[test]
fn repeated_reads_return_the_announced_length() {
    for len in [0usize, 1, 93, 1023, 1024, 1025, 5000] {
        for buffer in [1usize, 7, 512, 1024, 2000] {
            let mut body = HttpResponseBody::new(len);
            let mut total = 0;
            while let Some(request) = body.read(buffer) {
                assert_eq!(request.offset, total);
                assert!(request.len <= buffer && request.len <= 1024);
                total += request.len;
                body.advance(buffer);
            }
            assert_eq!(total, len);
        }
    }
}

#[test]
fn an_empty_body() {
    let announced = HttpActionResponse { method: 1, status_code: HttpStatusCode(204), data_length: 0 };
    let mut response = HttpResponse::new(announced);
    assert_eq!(response.status(), HttpStatusCode(204));
    assert!(response.body().is_empty());
    assert_eq!(response.body().read_to_end(1024), vec![]);
}

#[test]
fn a_body_is_text_if_it_is_utf8() {
    assert_eq!(HttpResponseBody::read_as_str(b"{\"ok\":true}"), Ok("{\"ok\":true}"));
    assert_eq!(HttpResponseBody::read_as_str("Zürich".as_bytes()), Ok("Zürich"));
    assert_eq!(HttpResponseBody::read_as_str(b""), Ok(""));
    assert_eq!(HttpResponseBody::read_as_str(&[0xff, 0x00]), Err(CellularError::AtError(AtError::ParseError)));
}

#[test]
fn errors_have_a_kind() {
    assert_eq!(CellularError::Timeout.kind(), ErrorKind::TimedOut);
    assert_eq!(CellularError::AtError(AtError::Timeout).kind(), ErrorKind::Other);
    assert_eq!(CellularError::GpioError.kind(), ErrorKind::Other);
    assert_eq!(CellularError::Encoding.kind(), ErrorKind::Other);
    assert_eq!(CellularError::from(AtError::ModemError), CellularError::AtError(AtError::ModemError));
}
