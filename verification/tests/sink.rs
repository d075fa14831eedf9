use std::time::{Duration, Instant};
use iot_airquality_ingestor::config::EnvSettings;
use iot_airquality_ingestor::sink::{authorization_header, is_failure_outcome, token_header_valid};
use iot_airquality_ingestor::{
    AppConfig, InfluxDbSink, MetricSample, Reading, State, TransportOutcome, WriteFailure, WritePlan,
};

fn reading(v: f32) -> Reading {
    Reading { bits: v.to_bits(), centi: (v * 100.0).round() as i32, fixed2: format!("{:.2}", v) }
}

fn sample(device_id: &str, ts: u64) -> MetricSample {
    MetricSample {
        device_id: device_id.to_string(),
        timestamp_ns: ts,
        co2_ppm: 650,
        temperature_celsius: reading(22.45),
        humidity_percent: reading(48.2),
        pm25_ug_m3: reading(8.1),
        pm10_ug_m3: reading(12.96),
        tvoc_ppb: reading(85.0),
        pressure_hpa: reading(1013.25),
        battery_millivolts: 3850,
        rssi_dbm: -65,
        status: 0,
    }
}

fn empty_env() -> EnvSettings {
    EnvSettings {
        mqtt_broker_host: None,
        mqtt_broker_port: None,
        mqtt_client_id: None,
        mqtt_topic: None,
        influxdb_url: None,
        influxdb_org: None,
        influxdb_bucket: None,
        influxdb_token: None,
        ingestor_batch_size: None,
        ingestor_flush_interval_secs: None,
        cb_failure_threshold: None,
        cb_cooldown_secs: None,
        metrics_port: None,
        metrics_enabled: None,
    }
}

#[test]
fn line_protocol_of_one_sample() {
    let body = InfluxDbSink::format_line_protocol(&[sample("sensor-01", 1692374400000000000)]);
    assert_eq!(
        body,
        "air_quality,device_id=sensor-01 co2=650i,temperature=22.45,humidity=48.20,pm25=8.10,pm10=12.96,tvoc=85.00,pressure=1013.25,battery_mv=3850i,rssi=-65i,status=0i 1692374400000000000\n"
    );
}

#[test]
fn line_protocol_of_a_batch_and_of_nothing() {
    assert_eq!(InfluxDbSink::format_line_protocol(&[]), "");
    let mut b = sample("b", 2);
    b.rssi_dbm = i32::MIN;
    b.status = 3;
    b.co2_ppm = u32::MAX;
    let body = InfluxDbSink::format_line_protocol(&[sample("a", 1), b]);
    let lines: Vec<&str> = body.split_terminator('\n').collect();
    assert_eq!(lines.len(), 2);
    assert!(lines[0].starts_with("air_quality,device_id=a co2=650i,"));
    assert!(lines[0].ends_with(" 1"));
    assert!(lines[1].contains("co2=4294967295i,"));
    assert!(lines[1].contains(",rssi=-2147483648i,status=3i 2"));
}

#[test]
fn write_url_trims_trailing_slashes() {
    let mut config = AppConfig::from_settings(empty_env());
    let sink = InfluxDbSink::new(&config);
    assert_eq!(
        sink.write_url(),
        "http://127.0.0.1:8086/api/v2/write?db=airquality&bucket=airquality&org=baremetal-iot&precision=ns"
    );
    config.influx_url = "https://influx.example.org:8443//".to_string();
    config.influx_bucket = "b1".to_string();
    config.influx_org = "o1".to_string();
    let sink = InfluxDbSink::new(&config);
    assert_eq!(
        sink.write_url(),
        "https://influx.example.org:8443/api/v2/write?db=b1&bucket=b1&org=o1&precision=ns"
    );
}

#[test]
fn authorization_header_value() {
    assert_eq!(authorization_header("abc"), "Token abc");
}

#[test]
fn empty_batch_is_not_sent() {
    let config = AppConfig::from_settings(empty_env());
    let mut sink = InfluxDbSink::new(&config);
    assert!(matches!(sink.plan_write(&[]), WritePlan::Nothing));
    assert_eq!(sink.circuit_breaker().state(), State::Closed);
}

#[test]
fn outcomes_drive_the_breaker() {
    let mut env = empty_env();
    env.cb_failure_threshold = Some("2".to_string());
    env.cb_cooldown_secs = Some("3600".to_string());
    let config = AppConfig::from_settings(env);
    let mut sink = InfluxDbSink::new(&config);
    let batch = [sample("a", 1)];
    match sink.plan_write(&batch) {
        WritePlan::Send(body) => assert_eq!(body, InfluxDbSink::format_line_protocol(&batch)),
        _ => panic!("closed breaker must send"),
    }
    assert_eq!(sink.settle_write(TransportOutcome::Status(204)), Ok(()));
    assert_eq!(sink.settle_write(TransportOutcome::Status(400)), Err(WriteFailure::ClientError(400)));
    assert_eq!(sink.consecutive_failures(), 0);
    assert_eq!(sink.settle_write(TransportOutcome::Status(503)), Err(WriteFailure::ServerError(503)));
    assert_eq!(sink.circuit_breaker().state(), State::Closed);
    assert_eq!(sink.settle_write(TransportOutcome::Failed), Err(WriteFailure::Transport));
    assert_eq!(sink.circuit_breaker().state(), State::Open);
    assert!(matches!(sink.plan_write(&batch), WritePlan::Rejected));
    assert!(matches!(sink.plan_write_after(&batch, true), WritePlan::Send(_)));
    assert_eq!(sink.circuit_breaker().state(), State::HalfOpen);
    assert_eq!(sink.settle_write(TransportOutcome::Status(200)), Ok(()));
    assert_eq!(sink.circuit_breaker().state(), State::Closed);
    assert_eq!(sink.circuit_breaker().current_state_code(), 0);
}

#[test]
fn redirects_and_informational_answers_are_client_errors() {
    let config = AppConfig::from_settings(empty_env());
    let mut sink = InfluxDbSink::new(&config);
    assert_eq!(sink.settle_write(TransportOutcome::Status(302)), Err(WriteFailure::ClientError(302)));
    assert_eq!(sink.settle_write(TransportOutcome::Status(199)), Err(WriteFailure::ClientError(199)));
    assert_eq!(sink.settle_write(TransportOutcome::Status(299)), Ok(()));
    assert_eq!(sink.settle_write(TransportOutcome::Status(600)), Err(WriteFailure::ClientError(600)));
    assert_eq!(sink.consecutive_failures(), 0);
}

#[test]
fn tag_values_are_escaped() {
    let body = InfluxDbSink::format_line_protocol(&[sample("living room,east=1", 5)]);
    assert!(body.starts_with("air_quality,device_id=living\\ room\\,east\\=1 co2=650i,"));
    assert!(body.ends_with(" 5\n"));
    assert_eq!(body.matches('\n').count(), 1);
}

#[test]
fn token_header_check() {
    for token in ["abc", "baremetal-dev-token-987654321", "tab\there", "é", "", "bad\nline", "bad\rline", "del\u{7f}", "nul\u{0}"] {
        let expected = reqwest::header::HeaderValue::from_str(&format!("Token {}", token)).is_ok();
        assert_eq!(token_header_valid(token), expected, "{:?}", token);
    }
    assert!(token_header_valid("abc"));
    assert!(!token_header_valid("bad\nline"));
}

#[test]
fn readings_are_well_formed() {
    let values = [
        0.0f32, -0.0, 0.004, -0.004, 0.005, -0.005, 1.0, -1.0, 22.45, -12.34, 1013.25, 1.0e9, -1.0e30,
        f32::MAX, f32::MIN, f32::MIN_POSITIVE, f32::NAN, -f32::NAN, f32::INFINITY, f32::NEG_INFINITY,
    ];
    for v in values {
        assert!(reading(v).well_formed(), "{} {:?}", v, reading(v).fixed2);
    }
    let mut bad = reading(1.5);
    bad.fixed2 = "1.5".to_string();
    assert!(!bad.well_formed());
    let mut bad = reading(-1.5);
    bad.fixed2 = "1.50".to_string();
    assert!(!bad.well_formed());
    let mut bad = reading(2.0);
    bad.centi = -200;
    assert!(!bad.well_formed());
    assert!(sample("a", 1).well_formed());
}

#[test]
fn sink_breaker_uses_configured_cooldown() {
    let mut env = empty_env();
    env.cb_failure_threshold = Some("1".to_string());
    env.cb_cooldown_secs = Some("0".to_string());
    let mut sink = InfluxDbSink::new(&AppConfig::from_settings(env));
    let batch = [sample("a", 1)];
    assert_eq!(sink.settle_write(TransportOutcome::Status(500)), Err(WriteFailure::ServerError(500)));
    assert_eq!(sink.circuit_breaker().state(), State::Open);
    assert!(matches!(sink.plan_write(&batch), WritePlan::Send(_)));
    assert_eq!(sink.circuit_breaker().state(), State::HalfOpen);
}

#[test]
fn sink_cooldown_restarts_at_each_trip() {
    let mut env = empty_env();
    env.cb_failure_threshold = Some("1".to_string());
    env.cb_cooldown_secs = Some("30".to_string());
    let mut sink = InfluxDbSink::new(&AppConfig::from_settings(env));
    let batch = [sample("a", 1)];
    let t0 = Instant::now();
    assert_eq!(sink.settle_write_at(TransportOutcome::Status(502), t0), Err(WriteFailure::ServerError(502)));
    assert!(matches!(sink.plan_write_at(&batch, t0 + Duration::from_secs(29)), WritePlan::Rejected));
    assert!(matches!(sink.plan_write_at(&batch, t0 + Duration::from_secs(30)), WritePlan::Send(_)));
    assert_eq!(sink.settle_write_at(TransportOutcome::Failed, t0 + Duration::from_secs(31)), Err(WriteFailure::Transport));
    assert!(matches!(sink.plan_write_at(&batch, t0 + Duration::from_secs(60)), WritePlan::Rejected));
    assert!(matches!(sink.plan_write_at(&batch, t0 + Duration::from_secs(61)), WritePlan::Send(_)));
    assert_eq!(sink.settle_write_at(TransportOutcome::Status(204), t0 + Duration::from_secs(62)), Ok(()));
    assert_eq!(sink.circuit_breaker().state(), State::Closed);
}

#[test]
fn failure_outcomes_are_transport_errors_and_5xx() {
    assert!(is_failure_outcome(&TransportOutcome::Failed));
    assert!(is_failure_outcome(&TransportOutcome::Status(500)));
    assert!(is_failure_outcome(&TransportOutcome::Status(599)));
    assert!(!is_failure_outcome(&TransportOutcome::Status(499)));
    assert!(!is_failure_outcome(&TransportOutcome::Status(600)));
    assert!(!is_failure_outcome(&TransportOutcome::Status(200)));
}
