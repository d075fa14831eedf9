//! Runtime configuration of the ingestor and the rules that resolve it from
//! the raw environment settings.

use vstd::prelude::*;
use crate::text::{parse_unsigned, parse_unsigned_range};

verus! {

/// Resolved runtime configuration.
#[derive(Clone, Debug)]
pub struct AppConfig {
    pub mqtt_host: String,
    pub mqtt_port: u16,
    pub mqtt_client_id: String,
    pub mqtt_topic: String,
    pub influx_url: String,
    pub influx_org: String,
    pub influx_bucket: String,
    pub influx_token: String,
    pub batch_size: usize,
    pub flush_interval_secs: u64,
    pub circuit_breaker_threshold: u32,
    pub circuit_breaker_cooldown_secs: u64,
    pub metrics_port: u16,
    pub metrics_enabled: bool,
}

/// The raw value of each configuration variable, `None` where the variable
/// is unset or not valid Unicode.
pub struct EnvSettings {
    pub mqtt_broker_host: Option<String>,
    pub mqtt_broker_port: Option<String>,
    pub mqtt_client_id: Option<String>,
    pub mqtt_topic: Option<String>,
    pub influxdb_url: Option<String>,
    pub influxdb_org: Option<String>,
    pub influxdb_bucket: Option<String>,
    pub influxdb_token: Option<String>,
    pub ingestor_batch_size: Option<String>,
    pub ingestor_flush_interval_secs: Option<String>,
    pub cb_failure_threshold: Option<String>,
    pub cb_cooldown_secs: Option<String>,
    pub metrics_port: Option<String>,
    pub metrics_enabled: Option<String>,
}

/// A text setting: its value when set, the default otherwise.
pub open spec fn text_setting(raw: Option<String>, default: Seq<char>) -> Seq<char> {
    match raw {
        Some(v) => v@,
        None => default,
    }
}

/// A numeric setting: its value when set to an unsigned decimal integer no
/// larger than `max`, the default otherwise.
pub open spec fn number_setting(raw: Option<String>, max: nat, default: nat) -> nat {
    match raw {
        Some(v) => match parse_unsigned(v@, max) {
            Some(n) => n,
            None => default,
        },
        None => default,
    }
}

/// A switch: on unless set to exactly `false` or `0`.
pub open spec fn switch_setting(raw: Option<String>) -> bool {
    match raw {
        Some(v) => v@ != "false"@ && v@ != "0"@,
        None => true,
    }
}

fn resolve_text(raw: Option<String>, default: &str) -> (value: String)
    ensures
        value@ == text_setting(raw, default@),
{
    match raw {
        Some(v) => v,
        None => String::from_str(default),
    }
}

fn resolve_number(raw: &Option<String>, max: u64, default: u64) -> (value: u64)
    requires
        default <= max,
    ensures
        value == number_setting(*raw, max as nat, default as nat),
        value <= max,
{
    match raw {
        Some(v) => {
            let text = v.as_str();
            match parse_unsigned_range(text, 0, text.unicode_len(), max) {
                Some(n) => {
                    assert(text@.subrange(0, text@.len() as int) =~= text@);
                    n
                },
                None => {
                    assert(text@.subrange(0, text@.len() as int) =~= text@);
                    default
                },
            }
        },
        None => default,
    }
}

fn resolve_switch(raw: &Option<String>) -> (on: bool)
    ensures
        on == switch_setting(*raw),
{
    match raw {
        Some(v) => {
            let no = String::from_str("false");
            let zero = String::from_str("0");
            !(*v == no) && !(*v == zero)
        },
        None => true,
    }
}

impl AppConfig {
    /// Resolves the configuration from the raw settings: each setting takes
    /// the value of its own variable when that is set (and, for a number,
    /// parses within range), with the defaults
    /// MQTT 127.0.0.1:1883, client id "iot-airquality-ingestor-rust", topic
    /// "sensors/+/airquality", InfluxDB http://127.0.0.1:8086, org
    /// "baremetal-iot", bucket "airquality", batches of 12 samples flushed at
    /// least every 30 s, a breaker tripping after 3 failures with a 30 s
    /// cooldown, and metrics enabled on port 9100.
    pub fn from_settings(env: EnvSettings) -> (config: AppConfig)
        ensures
            config@ == resolved(env),
            env.mqtt_broker_host matches Some(v) ==> config.mqtt_host@ == v@,
            env.mqtt_broker_host is None ==> config.mqtt_host@ == "127.0.0.1"@,
            env.mqtt_client_id matches Some(v) ==> config.mqtt_client_id@ == v@,
            env.mqtt_client_id is None ==> config.mqtt_client_id@ == "iot-airquality-ingestor-rust"@,
            env.mqtt_topic matches Some(v) ==> config.mqtt_topic@ == v@,
            env.mqtt_topic is None ==> config.mqtt_topic@ == "sensors/+/airquality"@,
            env.influxdb_url matches Some(v) ==> config.influx_url@ == v@,
            env.influxdb_url is None ==> config.influx_url@ == "http://127.0.0.1:8086"@,
            env.influxdb_org matches Some(v) ==> config.influx_org@ == v@,
            env.influxdb_org is None ==> config.influx_org@ == "baremetal-iot"@,
            env.influxdb_bucket matches Some(v) ==> config.influx_bucket@ == v@,
            env.influxdb_bucket is None ==> config.influx_bucket@ == "airquality"@,
            env.influxdb_token matches Some(v) ==> config.influx_token@ == v@,
            env.influxdb_token is None ==> config.influx_token@ == "baremetal-dev-token-987654321"@,
            config.mqtt_port == number_setting(env.mqtt_broker_port, 65535, 1883),
            config.batch_size == number_setting(env.ingestor_batch_size, usize::MAX as nat, 12),
            config.flush_interval_secs == number_setting(env.ingestor_flush_interval_secs, u64::MAX as nat, 30),
            config.circuit_breaker_threshold == number_setting(env.cb_failure_threshold, u32::MAX as nat, 3),
            config.circuit_breaker_cooldown_secs == number_setting(env.cb_cooldown_secs, u64::MAX as nat, 30),
            config.metrics_port == number_setting(env.metrics_port, 65535, 9100),
            config.metrics_enabled == switch_setting(env.metrics_enabled),
    {
        let EnvSettings {
            mqtt_broker_host,
            mqtt_broker_port,
            mqtt_client_id,
            mqtt_topic,
            influxdb_url,
            influxdb_org,
            influxdb_bucket,
            influxdb_token,
            ingestor_batch_size,
            ingestor_flush_interval_secs,
            cb_failure_threshold,
            cb_cooldown_secs,
            metrics_port,
            metrics_enabled,
        } = env;
        let config = AppConfig {
            mqtt_host: resolve_text(mqtt_broker_host, "127.0.0.1"),
            mqtt_port: resolve_number(&mqtt_broker_port, 65535, 1883) as u16,
            mqtt_client_id: resolve_text(mqtt_client_id, "iot-airquality-ingestor-rust"),
            mqtt_topic: resolve_text(mqtt_topic, "sensors/+/airquality"),
            influx_url: resolve_text(influxdb_url, "http://127.0.0.1:8086"),
            influx_org: resolve_text(influxdb_org, "baremetal-iot"),
            influx_bucket: resolve_text(influxdb_bucket, "airquality"),
            influx_token: resolve_text(influxdb_token, "baremetal-dev-token-987654321"),
            batch_size: resolve_number(&ingestor_batch_size, usize::MAX as u64, 12) as usize,
            flush_interval_secs: resolve_number(&ingestor_flush_interval_secs, u64::MAX, 30),
            circuit_breaker_threshold: resolve_number(&cb_failure_threshold, 0xFFFF_FFFF, 3) as u32,
            circuit_breaker_cooldown_secs: resolve_number(&cb_cooldown_secs, u64::MAX, 30),
            metrics_port: resolve_number(&metrics_port, 65535, 9100) as u16,
            metrics_enabled: resolve_switch(&metrics_enabled),
        };
        config
    }

    /// The model of a configuration.
    pub open spec fn view(&self) -> ConfigView {
        ConfigView {
            mqtt_host: self.mqtt_host@,
            mqtt_port: self.mqtt_port as nat,
            mqtt_client_id: self.mqtt_client_id@,
            mqtt_topic: self.mqtt_topic@,
            influx_url: self.influx_url@,
            influx_org: self.influx_org@,
            influx_bucket: self.influx_bucket@,
            influx_token: self.influx_token@,
            batch_size: self.batch_size as nat,
            flush_interval_secs: self.flush_interval_secs as nat,
            circuit_breaker_threshold: self.circuit_breaker_threshold as nat,
            circuit_breaker_cooldown_secs: self.circuit_breaker_cooldown_secs as nat,
            metrics_port: self.metrics_port as nat,
            metrics_enabled: self.metrics_enabled,
        }
    }
}

/// Mathematical model of a configuration.
pub struct ConfigView {
    pub mqtt_host: Seq<char>,
    pub mqtt_port: nat,
    pub mqtt_client_id: Seq<char>,
    pub mqtt_topic: Seq<char>,
    pub influx_url: Seq<char>,
    pub influx_org: Seq<char>,
    pub influx_bucket: Seq<char>,
    pub influx_token: Seq<char>,
    pub batch_size: nat,
    pub flush_interval_secs: nat,
    pub circuit_breaker_threshold: nat,
    pub circuit_breaker_cooldown_secs: nat,
    pub metrics_port: nat,
    pub metrics_enabled: bool,
}

/// The configuration the settings resolve to.
pub open spec fn resolved(env: EnvSettings) -> ConfigView {
    ConfigView {
        mqtt_host: text_setting(env.mqtt_broker_host, "127.0.0.1"@),
        mqtt_port: number_setting(env.mqtt_broker_port, 65535, 1883),
        mqtt_client_id: text_setting(env.mqtt_client_id, "iot-airquality-ingestor-rust"@),
        mqtt_topic: text_setting(env.mqtt_topic, "sensors/+/airquality"@),
        influx_url: text_setting(env.influxdb_url, "http://127.0.0.1:8086"@),
        influx_org: text_setting(env.influxdb_org, "baremetal-iot"@),
        influx_bucket: text_setting(env.influxdb_bucket, "airquality"@),
        influx_token: text_setting(env.influxdb_token, "baremetal-dev-token-987654321"@),
        batch_size: number_setting(env.ingestor_batch_size, usize::MAX as nat, 12),
        flush_interval_secs: number_setting(env.ingestor_flush_interval_secs, u64::MAX as nat, 30),
        circuit_breaker_threshold: number_setting(env.cb_failure_threshold, u32::MAX as nat, 3),
        circuit_breaker_cooldown_secs: number_setting(env.cb_cooldown_secs, u64::MAX as nat, 30),
        metrics_port: number_setting(env.metrics_port, 65535, 9100),
        metrics_enabled: switch_setting(env.metrics_enabled),
    }
}


/// Law: each text setting takes the value of its own variable when that is
/// set, and its own default otherwise; no setting reads another's variable.
pub proof fn lemma_text_settings_from_own_variable(env: EnvSettings)
    ensures
        env.mqtt_broker_host matches Some(v) ==> resolved(env).mqtt_host == v@,
        env.mqtt_broker_host is None ==> resolved(env).mqtt_host == "127.0.0.1"@,
        env.mqtt_client_id matches Some(v) ==> resolved(env).mqtt_client_id == v@,
        env.mqtt_client_id is None ==> resolved(env).mqtt_client_id == "iot-airquality-ingestor-rust"@,
        env.mqtt_topic matches Some(v) ==> resolved(env).mqtt_topic == v@,
        env.mqtt_topic is None ==> resolved(env).mqtt_topic == "sensors/+/airquality"@,
        env.influxdb_url matches Some(v) ==> resolved(env).influx_url == v@,
        env.influxdb_url is None ==> resolved(env).influx_url == "http://127.0.0.1:8086"@,
        env.influxdb_org matches Some(v) ==> resolved(env).influx_org == v@,
        env.influxdb_org is None ==> resolved(env).influx_org == "baremetal-iot"@,
        env.influxdb_bucket matches Some(v) ==> resolved(env).influx_bucket == v@,
        env.influxdb_bucket is None ==> resolved(env).influx_bucket == "airquality"@,
        env.influxdb_token matches Some(v) ==> resolved(env).influx_token == v@,
        env.influxdb_token is None ==> resolved(env).influx_token == "baremetal-dev-token-987654321"@,
{
}

} // verus!
