use iot_airquality_ingestor::ingest::{
    apply_delta, is_spoofed, reconstruct_deltas, resolve_base_timestamp, seconds_to_nanos, KeyframeRegistry,
};
use iot_airquality_ingestor::{BatchBuffer, DeltaSample, MetricSample, Reading};

fn delta(offset: u32, co2: i32) -> DeltaSample {
    DeltaSample {
        time_offset_sec: offset,
        co2_delta_ppm: co2,
        temp_delta_centi_deg: 0,
        hum_delta_centi_pct: 0,
        pm25_delta_centi_ug: 0,
    }
}

fn reading(v: f32) -> Reading {
    Reading { bits: v.to_bits(), centi: (v * 100.0).round() as i32, fixed2: format!("{:.2}", v) }
}

fn sample(ts: u64) -> MetricSample {
    MetricSample {
        device_id: "d".to_string(),
        timestamp_ns: ts,
        co2_ppm: 400,
        temperature_celsius: reading(20.0),
        humidity_percent: reading(40.0),
        pm25_ug_m3: reading(1.0),
        pm10_ug_m3: reading(2.0),
        tvoc_ppb: reading(3.0),
        pressure_hpa: reading(1000.0),
        battery_millivolts: 3700,
        rssi_dbm: -50,
        status: 0,
    }
}

fn reference_spoofed(topic: &str, device_id: &str) -> bool {
    let parts: Vec<&str> = topic.split('/').collect();
    parts.len() >= 3 && parts[1] != device_id
}

#[test]
fn spoofing_check() {
    assert!(!is_spoofed("sensors/sensor-esp32-01/airquality", "sensor-esp32-01"));
    assert!(is_spoofed("sensors/sensor-esp32-01/airquality", "sensor-esp32-02"));
    assert!(!is_spoofed("sensors/sensor-esp32-01", "other"));
    assert!(!is_spoofed("telemetry", "other"));
    assert!(is_spoofed("a//b", "x"));
    assert!(!is_spoofed("a//b", ""));
    let topics = ["", "/", "//", "///", "a/b/c/d", "a/bb/c", "é/ü/ö", "x/ü/y", "/a/", "a/a/a"];
    let ids = ["", "a", "b", "bb", "ü", "c"];
    for t in topics {
        for d in ids {
            assert_eq!(is_spoofed(t, d), reference_spoofed(t, d), "{:?} {:?}", t, d);
        }
    }
}

#[test]
fn timestamps() {
    assert_eq!(resolve_base_timestamp(1_787_147_910, 5), 1_787_147_910);
    assert_eq!(resolve_base_timestamp(1_000_000_000, 5), 1_000_000_000);
    assert_eq!(resolve_base_timestamp(999_999_999, 1_700_000_000), 1_700_000_000);
    assert_eq!(resolve_base_timestamp(0, 1_700_000_000), 1_700_000_000);
    assert_eq!(seconds_to_nanos(1_787_147_910), 1_787_147_910_000_000_000);
}

#[test]
fn co2_deltas_never_go_negative() {
    let d = apply_delta(100, 1_000_000_000_000_000_000, &delta(5, -150));
    assert_eq!(d.co2_ppm, 0);
    assert_eq!(d.timestamp_ns, 1_000_000_005_000_000_000);
    let d = apply_delta(u32::MAX, 0, &delta(0, 1));
    assert_eq!(d.co2_ppm, 0);
}

#[test]
fn delta_runs_accumulate() {
    let steps = reconstruct_deltas(600, 1_700_000_000_000_000_000, &[delta(5, 2), delta(10, -1), delta(15, -700), delta(20, 30)]);
    let co2: Vec<u32> = steps.iter().map(|s| s.co2_ppm).collect();
    let ts: Vec<u64> = steps.iter().map(|s| s.timestamp_ns).collect();
    assert_eq!(co2, vec![602, 601, 0, 30]);
    assert_eq!(
        ts,
        vec![
            1_700_000_005_000_000_000,
            1_700_000_010_000_000_000,
            1_700_000_015_000_000_000,
            1_700_000_020_000_000_000
        ]
    );
    assert!(reconstruct_deltas(600, 0, &[]).is_empty());
}

#[test]
fn batches_flush_at_size_and_on_drain() {
    let mut b = BatchBuffer::new(3);
    assert!(b.drain().is_none());
    assert!(b.push(sample(1)).is_none());
    assert!(b.push(sample(2)).is_none());
    let batch = b.push(sample(3)).expect("third sample fills the batch");
    assert_eq!(batch.iter().map(|s| s.timestamp_ns).collect::<Vec<_>>(), vec![1, 2, 3]);
    assert_eq!(b.len(), 0);
    assert!(b.push(sample(4)).is_none());
    let rest = b.drain().expect("one sample waits");
    assert_eq!(rest.len(), 1);
    assert_eq!(rest[0].timestamp_ns, 4);
    assert!(b.drain().is_none());
}

#[test]
fn zero_batch_size_flushes_every_sample() {
    let mut b = BatchBuffer::new(0);
    assert_eq!(b.push(sample(1)).map(|v| v.len()), Some(1));
    assert_eq!(b.push(sample(2)).map(|v| v.len()), Some(1));
}

#[test]
fn delta_batch_before_keyframe_is_refused() {
    let mut reg = KeyframeRegistry::new();
    assert!(reg.apply_delta_batch("d1", 0, &[delta(1, 10)]).is_none());
    assert_eq!(reg.baseline("d1"), None);
    reg.record_keyframe("d2", 500);
    assert!(reg.apply_delta_batch("d1", 0, &[delta(1, 10)]).is_none());
    assert_eq!(reg.baseline("d1"), None);
    assert_eq!(reg.baseline("d2"), Some(500));
}

#[test]
fn delta_batches_chain_from_the_keyframe() {
    let mut reg = KeyframeRegistry::new();
    reg.record_keyframe("d1", 400);
    let steps = reg.apply_delta_batch("d1", 5_000_000_000, &[delta(1, 10), delta(2, -20)]).unwrap();
    assert_eq!(steps.len(), 2);
    assert_eq!((steps[0].co2_ppm, steps[0].timestamp_ns), (410, 6_000_000_000));
    assert_eq!((steps[1].co2_ppm, steps[1].timestamp_ns), (390, 7_000_000_000));
    assert_eq!(reg.baseline("d1"), Some(390));
    let steps = reg.apply_delta_batch("d1", 0, &[delta(0, -1000)]).unwrap();
    assert_eq!(steps[0].co2_ppm, 0);
    assert_eq!(reg.baseline("d1"), Some(0));
    let steps = reg.apply_delta_batch("d1", 0, &[]).unwrap();
    assert!(steps.is_empty());
    assert_eq!(reg.baseline("d1"), Some(0));
    reg.record_keyframe("d1", 450);
    assert_eq!(reg.baseline("d1"), Some(450));
}
