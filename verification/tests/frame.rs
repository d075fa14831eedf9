use iot_airquality_ingestor::{
    compute_aqi_level, encode_base64_16, pack_binary_frame, pack_binary_frame_b64, sensor_id_to_index,
    MetricSample, Reading,
};

fn reading(v: f32) -> Reading {
    Reading { bits: v.to_bits(), centi: (v * 100.0).round() as i32, fixed2: format!("{:.2}", v) }
}

/// The level as the float comparisons of the ingestor compute it.
fn reference_aqi(co2: u32, pm25: f32, tvoc: f32) -> u8 {
    let a = match co2 {
        0..=599 => 1,
        600..=799 => 2,
        800..=999 => 3,
        1000..=1499 => 4,
        _ => 5,
    };
    let b = if pm25 < 5.0 {
        1
    } else if pm25 < 12.0 {
        2
    } else if pm25 < 25.0 {
        3
    } else if pm25 < 50.0 {
        4
    } else {
        5
    };
    let c = if tvoc < 65.0 {
        1
    } else if tvoc < 220.0 {
        2
    } else if tvoc < 660.0 {
        3
    } else if tvoc < 2200.0 {
        4
    } else {
        5
    };
    a.max(b).max(c)
}

fn sample(device_id: &str) -> MetricSample {
    MetricSample {
        device_id: device_id.to_string(),
        timestamp_ns: 1_787_147_910_000_000_000,
        co2_ppm: 589,
        temperature_celsius: reading(23.15),
        humidity_percent: reading(48.2),
        pm25_ug_m3: reading(3.85),
        pm10_ug_m3: reading(7.2),
        tvoc_ppb: reading(120.0),
        pressure_hpa: reading(1013.25),
        battery_millivolts: 3890,
        rssi_dbm: -61,
        status: 0,
    }
}

#[test]
fn base64_of_counting_bytes() {
    let src: [u8; 16] = [0, 1, 2, 3, 4, 5, 6, 7, 8, 9, 10, 11, 12, 13, 14, 15];
    assert_eq!(encode_base64_16(&src), "AAECAwQFBgcICQoLDA0ODw==");
}

#[test]
fn base64_of_all_ones_and_zeros() {
    assert_eq!(encode_base64_16(&[0xFF; 16]), "/////////////////////w==");
    assert_eq!(encode_base64_16(&[0; 16]), "AAAAAAAAAAAAAAAAAAAAAA==");
    assert_eq!(encode_base64_16(&[0; 16]).len(), 24);
}

#[test]
fn sensor_index_of_known_devices() {
    for k in 1..=8u8 {
        let id = format!("sensor-esp32-0{}", k);
        assert_eq!(sensor_id_to_index(&id), k - 1);
    }
}

#[test]
fn sensor_index_fallback_parsing() {
    assert_eq!(sensor_id_to_index("sensor-esp32-16"), 15);
    assert_eq!(sensor_id_to_index("sensor-esp32-17"), 0);
    assert_eq!(sensor_id_to_index("sensor-esp32-00"), 0);
    assert_eq!(sensor_id_to_index("sensor-esp32-255"), 14);
    assert_eq!(sensor_id_to_index("sensor-esp32-256"), 0);
    assert_eq!(sensor_id_to_index("node-+5"), 4);
    assert_eq!(sensor_id_to_index("node--5"), 4);
    assert_eq!(sensor_id_to_index("node-"), 0);
    assert_eq!(sensor_id_to_index("kitchen"), 0);
    assert_eq!(sensor_id_to_index("42"), 9);
    assert_eq!(sensor_id_to_index(""), 0);
    assert_eq!(sensor_id_to_index("node-1a"), 0);
    assert_eq!(sensor_id_to_index("node-00003"), 2);
}

#[test]
fn aqi_bands() {
    let b = |v: f32| v.to_bits();
    assert_eq!(compute_aqi_level(400, b(1.0), b(10.0)), 1);
    assert_eq!(compute_aqi_level(600, b(1.0), b(10.0)), 2);
    assert_eq!(compute_aqi_level(999, b(1.0), b(10.0)), 3);
    assert_eq!(compute_aqi_level(1000, b(1.0), b(10.0)), 4);
    assert_eq!(compute_aqi_level(1500, b(1.0), b(10.0)), 5);
    assert_eq!(compute_aqi_level(400, b(5.0), b(10.0)), 2);
    assert_eq!(compute_aqi_level(400, b(49.99), b(10.0)), 4);
    assert_eq!(compute_aqi_level(400, b(1.0), b(2200.0)), 5);
    assert_eq!(compute_aqi_level(589, b(3.85), b(120.0)), 2);
}

#[test]
fn aqi_matches_float_comparisons() {
    let specials = [
        f32::NAN,
        -f32::NAN,
        f32::INFINITY,
        f32::NEG_INFINITY,
        -0.0,
        0.0,
        -1.0,
        f32::MIN_POSITIVE,
        f32::MAX,
        f32::MIN,
        4.999_999_5,
        5.0,
        5.000_001,
        11.999_999,
        12.0,
        24.9,
        25.0,
        50.0,
        64.99,
        65.0,
        219.9,
        220.0,
        659.9,
        660.0,
        2199.9,
        2200.0,
        1.0e30,
    ];
    for &p in specials.iter() {
        for &t in specials.iter() {
            for &c in [0u32, 599, 600, 799, 800, 999, 1000, 1499, 1500, u32::MAX].iter() {
                assert_eq!(compute_aqi_level(c, p.to_bits(), t.to_bits()), reference_aqi(c, p, t), "{} {} {}", c, p, t);
            }
        }
    }
    let mut x: f32 = -10.0;
    while x < 3000.0 {
        assert_eq!(compute_aqi_level(0, x.to_bits(), x.to_bits()), reference_aqi(0, x, x), "{}", x);
        x += 0.37;
    }
}

#[test]
fn frame_layout_of_example_sample() {
    let s = sample("sensor-esp32-01");
    let frame = pack_binary_frame(&s);
    assert_eq!(frame, [106, 133, 182, 134, 2, 77, 9, 11, 18, 212, 1, 129, 15, 50, 195, 32]);
    assert_eq!(pack_binary_frame_b64(&s), "aoW2hgJNCQsS1AGBDzLDIA==");
}

#[test]
fn frame_decodes_like_the_dashboard() {
    let mut s = sample("sensor-esp32-05");
    s.temperature_celsius = reading(-12.34);
    s.rssi_dbm = -200;
    s.co2_ppm = 70_000;
    s.battery_millivolts = 100_000;
    s.humidity_percent = reading(-3.0);
    s.pm25_ug_m3 = reading(1.0e9);
    let f = pack_binary_frame(&s);
    assert_eq!(u32::from_be_bytes([f[0], f[1], f[2], f[3]]), 1_787_147_910);
    assert_eq!(u16::from_be_bytes([f[4], f[5]]), 65535);
    assert_eq!(i16::from_be_bytes([f[6], f[7]]), -1234);
    assert_eq!(u16::from_be_bytes([f[8], f[9]]), 0);
    assert_eq!(u16::from_be_bytes([f[10], f[11]]), 65535);
    assert_eq!(u16::from_be_bytes([f[12], f[13]]), 65535);
    assert_eq!(f[14] as i8, -128);
    assert_eq!(f[15] >> 4, 5);
    assert_eq!(f[15] & 0x0F, 4);
}

#[test]
fn frame_timestamp_truncates_to_32_bits() {
    let mut s = sample("x");
    s.timestamp_ns = u64::MAX;
    let f = pack_binary_frame(&s);
    let secs = u64::MAX / 1_000_000_000;
    assert_eq!(u32::from_be_bytes([f[0], f[1], f[2], f[3]]), secs as u32);
}

#[test]
fn aqi_never_falls_when_co2_rises() {
    let p = 7.5f32.to_bits();
    let t = 300.0f32.to_bits();
    let mut last = 0;
    for co2 in (0..3000u32).step_by(50) {
        let level = compute_aqi_level(co2, p, t);
        assert!(level >= last);
        assert!((1..=5).contains(&level));
        last = level;
    }
}
