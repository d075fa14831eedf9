use iot_airquality_ingestor::config::EnvSettings;
use iot_airquality_ingestor::AppConfig;

fn env() -> EnvSettings {
    EnvSettings {
        mqtt_broker_host: None,
        mqtt_broker_port: None,
        mqtt_client_id: None,
        mqtt_topic: None,
        influxdb_url: None,
        influxdb_org: None,
        influxdb_bucket: None,
        influxdb_token: None,
        ingestor_batch_size: None,
        ingestor_flush_interval_secs: None,
        cb_failure_threshold: None,
        cb_cooldown_secs: None,
        metrics_port: None,
        metrics_enabled: None,
    }
}

fn s(v: &str) -> Option<String> {
    Some(v.to_string())
}

#[test]
fn defaults() {
    let c = AppConfig::from_settings(env());
    assert_eq!(c.mqtt_host, "127.0.0.1");
    assert_eq!(c.mqtt_port, 1883);
    assert_eq!(c.mqtt_client_id, "iot-airquality-ingestor-rust");
    assert_eq!(c.mqtt_topic, "sensors/+/airquality");
    assert_eq!(c.influx_url, "http://127.0.0.1:8086");
    assert_eq!(c.influx_org, "baremetal-iot");
    assert_eq!(c.influx_bucket, "airquality");
    assert_eq!(c.influx_token, "baremetal-dev-token-987654321");
    assert_eq!(c.batch_size, 12);
    assert_eq!(c.flush_interval_secs, 30);
    assert_eq!(c.circuit_breaker_threshold, 3);
    assert_eq!(c.circuit_breaker_cooldown_secs, 30);
    assert_eq!(c.metrics_port, 9100);
    assert!(c.metrics_enabled);
}

#[test]
fn overrides() {
    let mut e = env();
    e.mqtt_broker_host = s("broker.local");
    e.mqtt_broker_port = s("8883");
    e.mqtt_topic = s("sensors/#");
    e.ingestor_batch_size = s("+64");
    e.ingestor_flush_interval_secs = s("18446744073709551615");
    e.cb_failure_threshold = s("4294967295");
    e.cb_cooldown_secs = s("007");
    e.metrics_port = s("65535");
    e.metrics_enabled = s("FALSE");
    let c = AppConfig::from_settings(e);
    assert_eq!(c.mqtt_host, "broker.local");
    assert_eq!(c.mqtt_port, 8883);
    assert_eq!(c.mqtt_topic, "sensors/#");
    assert_eq!(c.batch_size, 64);
    assert_eq!(c.flush_interval_secs, u64::MAX);
    assert_eq!(c.circuit_breaker_threshold, u32::MAX);
    assert_eq!(c.circuit_breaker_cooldown_secs, 7);
    assert_eq!(c.metrics_port, 65535);
    assert!(c.metrics_enabled);
}

#[test]
fn invalid_numbers_fall_back_to_defaults() {
    let mut e = env();
    e.mqtt_broker_port = s("65536");
    e.ingestor_batch_size = s("-1");
    e.ingestor_flush_interval_secs = s("18446744073709551616");
    e.cb_failure_threshold = s(" 3");
    e.cb_cooldown_secs = s("");
    e.metrics_port = s("+");
    let c = AppConfig::from_settings(e);
    assert_eq!(c.mqtt_port, 1883);
    assert_eq!(c.batch_size, 12);
    assert_eq!(c.flush_interval_secs, 30);
    assert_eq!(c.circuit_breaker_threshold, 3);
    assert_eq!(c.circuit_breaker_cooldown_secs, 30);
    assert_eq!(c.metrics_port, 9100);
}

#[test]
fn metrics_switch() {
    for (v, on) in [("false", false), ("0", false), ("true", true), ("1", true), ("no", true), ("", true)] {
        let mut e = env();
        e.metrics_enabled = s(v);
        assert_eq!(AppConfig::from_settings(e).metrics_enabled, on, "{}", v);
    }
}

#[test]
fn numbers_parse_like_std() {
    for text in ["0", "1", "+1", "-0", "12a", "", "+", "++1", "65535", "65536", "0065535", "١٢"] {
        let mut e = env();
        e.mqtt_broker_port = s(text);
        let expected = text.parse::<u16>().ok().unwrap_or(1883);
        assert_eq!(AppConfig::from_settings(e).mqtt_port, expected, "{:?}", text);
    }
}
