use iot_airquality_ingestor::IngestorMetrics;

fn expected_text(vals: [u64; 9], sensors: &[(&str, u64)]) -> String {
    let blocks = [
        ("iot_packets_received_total", "Total number of MQTT telemetry packets received", "counter"),
        ("iot_packets_valid_total", "Total number of successfully decoded valid packets", "counter"),
        ("iot_packets_dropped_total", "Total number of malformed or rejected packets", "counter"),
        ("iot_packets_spoofed_total", "Total packets rejected due to topic vs payload mismatch", "counter"),
        ("iot_influx_batches_total", "Total micro-batches processed towards InfluxDB", "counter"),
        ("iot_influx_points_written_total", "Total metric points written to InfluxDB", "counter"),
        ("iot_influx_errors_total", "Total InfluxDB HTTP or transport errors", "counter"),
        ("iot_influx_last_batch_latency_ms", "Duration of the last InfluxDB write batch in ms", "gauge"),
        ("iot_circuit_breaker_state", "Circuit breaker state (0=Closed/OK, 1=HalfOpen, 2=Open)", "gauge"),
    ];
    let mut out = String::new();
    for (i, (name, help, kind)) in blocks.iter().enumerate() {
        out.push_str(&format!("# HELP {} {}\n# TYPE {} {}\n{} {}\n\n", name, help, name, kind, name, vals[i]));
    }
    out.push_str("# HELP iot_sensor_last_seen_seconds Unix epoch of last seen packet per sensor\n");
    out.push_str("# TYPE iot_sensor_last_seen_seconds gauge\n");
    for (id, ts) in sensors {
        out.push_str(&format!("iot_sensor_last_seen_seconds{{device_id=\"{}\"}} {}\n", id, ts));
    }
    out
}

#[test]
fn fresh_registry_renders_zeros() {
    let m = IngestorMetrics::new();
    assert_eq!(m.render_prometheus_text(), expected_text([0; 9], &[]));
    assert_eq!(m.sensor_count(), 0);
}

#[test]
fn packet_counters() {
    let mut m = IngestorMetrics::new();
    m.record_packet_received();
    m.record_packet_received();
    m.record_packet_received();
    m.record_packet_dropped();
    m.record_packet_spoofed();
    m.record_packet_valid("sensor-esp32-01", 1_787_147_910);
    assert_eq!(m.packets_received_total(), 3);
    assert_eq!(m.packets_valid_total(), 1);
    assert_eq!(m.packets_dropped_total(), 2);
    assert_eq!(m.packets_spoofed_total(), 1);
}

#[test]
fn batch_results() {
    let mut m = IngestorMetrics::new();
    m.record_batch_result(12, 35, true, 0);
    m.record_batch_result(7, 5001, false, 2);
    assert_eq!(m.influx_batches_total(), 2);
    assert_eq!(m.influx_points_written_total(), 12);
    assert_eq!(m.influx_errors_total(), 1);
    assert_eq!(m.influx_last_batch_latency_ms(), 5001);
    assert_eq!(m.circuit_breaker_state(), 2);
}

#[test]
fn counters_wrap_like_atomic_fetch_add() {
    let mut m = IngestorMetrics::new();
    m.record_batch_result(u64::MAX, 1, true, 0);
    m.record_batch_result(u64::MAX, 1, true, 0);
    assert_eq!(m.influx_points_written_total(), u64::MAX - 1);
}

#[test]
fn last_seen_is_updated_in_place() {
    let mut m = IngestorMetrics::new();
    m.record_packet_valid("sensor-esp32-02", 100);
    m.record_packet_valid("sensor-esp32-01", 200);
    m.record_packet_valid("sensor-esp32-02", 300);
    assert_eq!(m.sensor_count(), 2);
    assert_eq!(m.last_seen("sensor-esp32-02"), Some(300));
    assert_eq!(m.last_seen("sensor-esp32-01"), Some(200));
    assert_eq!(m.last_seen("sensor-esp32-03"), None);
}

#[test]
fn render_includes_counters_and_sensors() {
    let mut m = IngestorMetrics::new();
    m.record_packet_received();
    m.record_packet_valid("sensor-esp32-02", 1_700_000_000);
    m.record_packet_valid("kitchen", 42);
    m.record_batch_result(12, 18, true, 1);
    let text = m.render_prometheus_text();
    assert_eq!(
        text,
        expected_text([1, 2, 0, 0, 1, 12, 0, 18, 1], &[("sensor-esp32-02", 1_700_000_000), ("kitchen", 42)])
    );
    assert!(text.contains("iot_sensor_last_seen_seconds{device_id=\"kitchen\"} 42\n"));
}

#[test]
fn label_values_are_escaped() {
    let mut m = IngestorMetrics::new();
    m.record_packet_valid("evil\"} 1\nfake_metric 9", 7);
    m.record_packet_valid("back\\slash", 8);
    let text = m.render_prometheus_text();
    assert!(text.ends_with(
        "iot_sensor_last_seen_seconds{device_id=\"evil\\\"} 1\\nfake_metric 9\"} 7\n\
         iot_sensor_last_seen_seconds{device_id=\"back\\\\slash\"} 8\n"
    ));
    assert!(!text.contains("\nfake_metric"));
    let sensor_lines = text.lines().filter(|l| l.starts_with("iot_sensor_last_seen_seconds{")).count();
    assert_eq!(sensor_lines, 2);
    assert_eq!(m.last_seen("evil\"} 1\nfake_metric 9"), Some(7));
}
