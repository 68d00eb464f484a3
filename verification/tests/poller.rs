use solbridxml2mqtt::config::{Config, ConfigError, InfluxDbConfig, MqttConfig};
use solbridxml2mqtt::decode::DecodeError;
use solbridxml2mqtt::poller::{
    status_is_success, Action, CycleOutcome, Event, FailureKind, Phase, Poller, ProtocolError,
    HTTP_TIMEOUT_SECS,
};
use solbridxml2mqtt::reading::{DeviceReading, MeasurementSample};

const STATUS: &str = r#"<Root><Device Name="Inv1" Serial="SN1"><Measurements><Measurement Type="Voltage_L1" Value="230.5" Unit="V"/><Measurement Type="Status" Type2=""/></Measurements></Device></Root>"#;

fn broker() -> Option<MqttConfig> {
    Some(MqttConfig { broker: "localhost".to_string(), port: 1883, client_id: "bridge".to_string() })
}

fn database() -> Option<InfluxDbConfig> {
    Some(InfluxDbConfig {
        url: "http://localhost:8086".to_string(),
        token: "t".to_string(),
        org: "home".to_string(),
        bucket: "solar".to_string(),
    })
}

fn config(max_errors: u32, mqtt: Option<MqttConfig>, influxdb: Option<InfluxDbConfig>) -> Config {
    Config {
        inverter_url: "http://inverter/status.xml".to_string(),
        poll_interval_secs: 30,
        max_errors,
        quiet_mode: None,
        mqtt,
        influxdb,
    }
}

fn poller(max_errors: u32) -> Poller {
    Poller::new(config(max_errors, broker(), database())).unwrap()
}

/// Runs one cycle whose fetch fails; hands back how the cycle ended.
fn failed_cycle(poller: &mut Poller) -> Action {
    if poller.phase() == Phase::Sleeping {
        assert_eq!(poller.step(Event::Woke), Ok(Action::Idle));
    }
    assert!(matches!(poller.step(Event::Start), Ok(Action::Fetch { .. })));
    poller.step(Event::FetchFailed).unwrap()
}

/// Runs one cycle in which everything works; hands back how the cycle ended.
fn clean_cycle(poller: &mut Poller) -> Action {
    if poller.phase() == Phase::Sleeping {
        assert_eq!(poller.step(Event::Woke), Ok(Action::Idle));
    }
    assert!(matches!(poller.step(Event::Start), Ok(Action::Fetch { .. })));
    assert_eq!(poller.step(Event::Response { status: 200 }), Ok(Action::ReadBody));
    let mut action = poller.step(Event::Body(STATUS.to_string())).unwrap();
    loop {
        action = match action {
            Action::Publish(_) => poller.step(Event::Published { ok: true }).unwrap(),
            Action::Write { .. } => poller.step(Event::Written { ok: true }).unwrap(),
            other => return other,
        };
    }
}

#[test]
fn no_sink_is_refused_before_any_cycle() {
    let refused = Poller::new(config(3, None, None));
    assert_eq!(refused.err(), Some(ConfigError::NoSink));
    assert_eq!(config(3, None, None).validate(), Err(ConfigError::NoSink));
    assert_eq!(config(3, broker(), None).validate(), Ok(()));
    assert_eq!(config(3, None, database()).validate(), Ok(()));
}

#[test]
fn a_new_poller_is_idle_without_errors() {
    let poller = poller(3);
    assert_eq!(poller.phase(), Phase::Idle);
    assert_eq!(poller.errors(), 0);
    assert_eq!(poller.config().max_errors, 3);
}

#[test]
fn quiet_only_when_asked_for() {
    let mut c = config(3, broker(), None);
    assert!(!c.quiet());
    c.quiet_mode = Some(false);
    assert!(!c.quiet());
    c.quiet_mode = Some(true);
    assert!(c.quiet());
}

#[test]
fn failure_failure_success_counts_one_two_zero() {
    let mut poller = poller(5);
    failed_cycle(&mut poller);
    assert_eq!(poller.errors(), 1);
    failed_cycle(&mut poller);
    assert_eq!(poller.errors(), 2);
    let end = clean_cycle(&mut poller);
    assert_eq!(end, Action::Sleep { secs: 30, outcome: CycleOutcome::Success });
    assert_eq!(poller.errors(), 0);
}

#[test]
fn third_failure_in_a_row_is_fatal() {
    let mut poller = poller(3);
    let fetch = CycleOutcome::Failure(FailureKind::Fetch);
    assert_eq!(failed_cycle(&mut poller), Action::Sleep { secs: 30, outcome: fetch });
    assert_eq!(failed_cycle(&mut poller), Action::Sleep { secs: 30, outcome: fetch });
    assert_eq!(failed_cycle(&mut poller), Action::Stop { errors: 3, outcome: fetch });
    assert_eq!(poller.phase(), Phase::Stopped);
    assert_eq!(poller.errors(), 3);
}

#[test]
fn a_success_in_between_keeps_the_poller_alive() {
    let mut poller = poller(3);
    failed_cycle(&mut poller);
    assert_eq!(poller.errors(), 1);
    clean_cycle(&mut poller);
    assert_eq!(poller.errors(), 0);
    failed_cycle(&mut poller);
    assert_eq!(poller.errors(), 1);
    failed_cycle(&mut poller);
    assert_eq!(poller.errors(), 2);
    assert_eq!(poller.phase(), Phase::Sleeping);
}

#[test]
fn stopped_takes_no_event() {
    let mut poller = poller(1);
    assert!(matches!(failed_cycle(&mut poller), Action::Stop { errors: 1, .. }));
    for event in [
        Event::Start,
        Event::FetchFailed,
        Event::Response { status: 200 },
        Event::BodyFailed,
        Event::Body(STATUS.to_string()),
        Event::Published { ok: true },
        Event::Written { ok: true },
        Event::Woke,
    ] {
        assert_eq!(poller.step(event), Err(ProtocolError::Unexpected));
        assert_eq!(poller.phase(), Phase::Stopped);
        assert_eq!(poller.errors(), 1);
    }
}

#[test]
fn a_cycle_walks_through_the_phases() {
    let mut poller = poller(3);
    assert_eq!(
        poller.step(Event::Start),
        Ok(Action::Fetch {
            url: "http://inverter/status.xml".to_string(),
            timeout_secs: HTTP_TIMEOUT_SECS
        })
    );
    assert_eq!(HTTP_TIMEOUT_SECS, 5);
    assert_eq!(poller.phase(), Phase::Fetching);
    assert_eq!(poller.step(Event::Response { status: 200 }), Ok(Action::ReadBody));
    assert_eq!(poller.phase(), Phase::Decoding);
    let publish = poller.step(Event::Body(STATUS.to_string())).unwrap();
    assert_eq!(poller.phase(), Phase::Dispatching);
    match publish {
        Action::Publish(message) => {
            assert_eq!(message.topic, "inverter/SN1/Voltage_L1");
            assert_eq!(message.payload, "230.5 V");
        }
        other => panic!("{:?}", other),
    }
    let write = poller.step(Event::Published { ok: true }).unwrap();
    match write {
        Action::Write { bucket, points } => {
            assert_eq!(bucket, "solar");
            assert_eq!(points.len(), 1);
            assert_eq!(points[0].value, "230.5");
        }
        other => panic!("{:?}", other),
    }
    assert_eq!(poller.phase(), Phase::Dispatching);
    assert_eq!(
        poller.step(Event::Written { ok: true }),
        Ok(Action::Sleep { secs: 30, outcome: CycleOutcome::Success })
    );
    assert_eq!(poller.phase(), Phase::Sleeping);
    assert_eq!(poller.step(Event::Woke), Ok(Action::Idle));
    assert_eq!(poller.phase(), Phase::Idle);
}

#[test]
fn each_kind_of_failure_counts_once() {
    let mut poller = poller(10);
    poller.step(Event::Start).unwrap();
    assert_eq!(
        poller.step(Event::Response { status: 503 }),
        Ok(Action::Sleep { secs: 30, outcome: CycleOutcome::Failure(FailureKind::Fetch) })
    );
    assert_eq!(poller.errors(), 1);

    poller.step(Event::Woke).unwrap();
    poller.step(Event::Start).unwrap();
    poller.step(Event::Response { status: 204 }).unwrap();
    assert_eq!(
        poller.step(Event::BodyFailed),
        Ok(Action::Sleep { secs: 30, outcome: CycleOutcome::Failure(FailureKind::BodyRead) })
    );
    assert_eq!(poller.errors(), 2);

    poller.step(Event::Woke).unwrap();
    poller.step(Event::Start).unwrap();
    poller.step(Event::Response { status: 200 }).unwrap();
    assert_eq!(
        poller.step(Event::Body("<Root/>".to_string())),
        Ok(Action::Sleep { secs: 30, outcome: CycleOutcome::Failure(FailureKind::Decode) })
    );
    assert_eq!(poller.errors(), 3);

    poller.step(Event::Woke).unwrap();
    poller.step(Event::Start).unwrap();
    poller.step(Event::Response { status: 200 }).unwrap();
    assert_eq!(
        poller.step(Event::Body("not xml".to_string())),
        Ok(Action::Sleep { secs: 30, outcome: CycleOutcome::Failure(FailureKind::Decode) })
    );
    assert_eq!(poller.errors(), 4);
}

#[test]
fn a_failed_write_counts_one_after_the_reset() {
    let mut poller = poller(10);
    failed_cycle(&mut poller);
    failed_cycle(&mut poller);
    assert_eq!(poller.errors(), 2);
    poller.step(Event::Woke).unwrap();
    poller.step(Event::Start).unwrap();
    poller.step(Event::Response { status: 200 }).unwrap();
    poller.step(Event::Body(STATUS.to_string())).unwrap();
    assert_eq!(poller.errors(), 0);
    assert!(matches!(poller.step(Event::Published { ok: false }), Ok(Action::Write { .. })));
    assert_eq!(poller.errors(), 0);
    assert_eq!(
        poller.step(Event::Written { ok: false }),
        Ok(Action::Sleep { secs: 30, outcome: CycleOutcome::Failure(FailureKind::SinkWrite) })
    );
    assert_eq!(poller.errors(), 1);
    clean_cycle(&mut poller);
    assert_eq!(poller.errors(), 0);
}

#[test]
fn a_failed_write_is_fatal_at_limit_one() {
    let mut poller = poller(1);
    poller.step(Event::Start).unwrap();
    poller.step(Event::Response { status: 200 }).unwrap();
    poller.step(Event::Body(STATUS.to_string())).unwrap();
    poller.step(Event::Published { ok: true }).unwrap();
    assert_eq!(
        poller.step(Event::Written { ok: false }),
        Ok(Action::Stop { errors: 1, outcome: CycleOutcome::Failure(FailureKind::SinkWrite) })
    );
}

#[test]
fn only_the_broker() {
    let mut poller = Poller::new(config(3, broker(), None)).unwrap();
    poller.step(Event::Start).unwrap();
    poller.step(Event::Response { status: 200 }).unwrap();
    assert!(matches!(poller.step(Event::Body(STATUS.to_string())), Ok(Action::Publish(_))));
    assert_eq!(poller.step(Event::Written { ok: true }), Err(ProtocolError::Unexpected));
    assert_eq!(
        poller.step(Event::Published { ok: false }),
        Ok(Action::Sleep { secs: 30, outcome: CycleOutcome::Success })
    );
}

#[test]
fn only_the_database() {
    let mut poller = Poller::new(config(3, None, database())).unwrap();
    poller.step(Event::Start).unwrap();
    poller.step(Event::Response { status: 200 }).unwrap();
    assert!(matches!(poller.step(Event::Body(STATUS.to_string())), Ok(Action::Write { .. })));
    assert_eq!(poller.step(Event::Published { ok: true }), Err(ProtocolError::Unexpected));
    assert_eq!(
        poller.step(Event::Written { ok: true }),
        Ok(Action::Sleep { secs: 30, outcome: CycleOutcome::Success })
    );
}

#[test]
fn nothing_to_send_ends_the_cycle_at_once() {
    let text = r#"<Root><Device Name="Inv1" Serial="SN1"><Measurements><Measurement Type="Status"/></Measurements></Device></Root>"#;
    let mut poller = poller(3);
    poller.step(Event::Start).unwrap();
    poller.step(Event::Response { status: 200 }).unwrap();
    assert_eq!(
        poller.step(Event::Body(text.to_string())),
        Ok(Action::Sleep { secs: 30, outcome: CycleOutcome::Success })
    );
}

#[test]
fn text_values_are_published_but_not_written() {
    let text = r#"<Root><Device Name="Inv1" Serial="SN1"><Measurements><Measurement Type="State" Value="n/a"/></Measurements></Device></Root>"#;
    let mut poller = poller(3);
    poller.step(Event::Start).unwrap();
    poller.step(Event::Response { status: 200 }).unwrap();
    match poller.step(Event::Body(text.to_string())).unwrap() {
        Action::Publish(message) => {
            assert_eq!(message.topic, "inverter/SN1/State");
            assert_eq!(message.payload, "n/a");
        }
        other => panic!("{:?}", other),
    }
    assert_eq!(
        poller.step(Event::Published { ok: true }),
        Ok(Action::Sleep { secs: 30, outcome: CycleOutcome::Success })
    );
}

#[test]
fn events_out_of_turn_change_nothing() {
    let mut poller = poller(3);
    assert_eq!(poller.step(Event::Woke), Err(ProtocolError::Unexpected));
    assert_eq!(poller.step(Event::FetchFailed), Err(ProtocolError::Unexpected));
    assert_eq!(poller.phase(), Phase::Idle);
    assert_eq!(poller.errors(), 0);
    poller.step(Event::Start).unwrap();
    assert_eq!(poller.step(Event::Start), Err(ProtocolError::Unexpected));
    assert_eq!(poller.step(Event::Body(STATUS.to_string())), Err(ProtocolError::Unexpected));
    assert_eq!(poller.phase(), Phase::Fetching);
}

#[test]
fn digest_takes_a_reading_only_while_decoding() {
    let sample = MeasurementSample {
        kind: "Power".to_string(),
        raw_value: Some("1e3".to_string()),
        unit: None,
    };
    let reading = DeviceReading::new("Inv".to_string(), "S".to_string(), vec![sample.clone()]).unwrap();
    let mut poller = poller(3);
    assert_eq!(poller.digest(Ok(reading)), Err(ProtocolError::Unexpected));
    poller.step(Event::Start).unwrap();
    poller.step(Event::Response { status: 299 }).unwrap();
    let reading = DeviceReading::new("Inv".to_string(), "S".to_string(), vec![sample]).unwrap();
    match poller.digest(Ok(reading)).unwrap() {
        Action::Publish(message) => {
            assert_eq!(message.topic, "inverter/S/Power");
            assert_eq!(message.payload, "1e3");
        }
        other => panic!("{:?}", other),
    }

    let mut poller = Poller::new(config(3, broker(), database())).unwrap();
    poller.step(Event::Start).unwrap();
    poller.step(Event::Response { status: 200 }).unwrap();
    assert_eq!(
        poller.digest(Err(DecodeError::Mismatch)),
        Ok(Action::Sleep { secs: 30, outcome: CycleOutcome::Failure(FailureKind::Decode) })
    );
}

#[test]
fn success_statuses() {
    assert!(!status_is_success(199));
    assert!(status_is_success(200));
    assert!(status_is_success(299));
    assert!(!status_is_success(300));
    assert!(!status_is_success(404));
}

#[test]
fn limit_zero_stops_after_the_first_cycle() {
    let mut poller = poller(0);
    assert_eq!(
        clean_cycle(&mut poller),
        Action::Stop { errors: 0, outcome: CycleOutcome::Success }
    );
}
