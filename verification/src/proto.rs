//! Messages of the `iot.airquality` Protocol Buffers schema, as plain
//! values. Wire decoding is done by the application with prost; these are
//! the values the library works on.

use vstd::prelude::*;

pub mod air_quality_packet;

verus! {

/// Health of the sensor array reported by a device.
#[derive(Clone, Copy, Debug, PartialEq, Eq, Structural, Hash, PartialOrd, Ord)]
pub enum SensorStatus {
    StatusOk,
    StatusWarmingUp,
    StatusDegraded,
    StatusFault,
}

/// The wire number of each status.
pub open spec fn status_number(s: SensorStatus) -> i32 {
    match s {
        SensorStatus::StatusOk => 0,
        SensorStatus::StatusWarmingUp => 1,
        SensorStatus::StatusDegraded => 2,
        SensorStatus::StatusFault => 3,
    }
}

impl SensorStatus {
    /// The wire number of the status.
    pub fn number(self) -> (n: i32)
        ensures
            n == status_number(self),
    {
        match self {
            SensorStatus::StatusOk => 0,
            SensorStatus::StatusWarmingUp => 1,
            SensorStatus::StatusDegraded => 2,
            SensorStatus::StatusFault => 3,
        }
    }

    /// The status with a wire number, if any.
    pub fn from_number(n: i32) -> (s: Option<SensorStatus>)
        ensures
            match s {
                Some(st) => status_number(st) == n,
                None => n < 0 || n > 3,
            },
    {
        match n {
            0 => Some(SensorStatus::StatusOk),
            1 => Some(SensorStatus::StatusWarmingUp),
            2 => Some(SensorStatus::StatusDegraded),
            3 => Some(SensorStatus::StatusFault),
            _ => None,
        }
    }
}

/// Keyframe with every reading. The readings are IEEE-754 binary32 values,
/// held as their bit patterns.
#[derive(Clone, Copy, Debug, PartialEq, Eq, Structural)]
pub struct FullSample {
    pub temperature_celsius: u32,
    pub humidity_percent: u32,
    pub co2_ppm: u32,
    pub pm25_ug_m3: u32,
    pub pm10_ug_m3: u32,
    pub tvoc_ppb: u32,
    pub pressure_hpa: u32,
}

/// Micro-delta relative to the previous sample of the same device.
#[derive(Clone, Copy, Debug, PartialEq, Eq, Structural)]
pub struct DeltaSample {
    pub time_offset_sec: u32,
    pub co2_delta_ppm: i32,
    pub temp_delta_centi_deg: i32,
    pub hum_delta_centi_pct: i32,
    pub pm25_delta_centi_ug: i32,
}

/// A run of delta samples.
pub struct DeltaBatch {
    pub samples: Vec<DeltaSample>,
}

/// One telemetry packet of a device.
pub struct AirQualityPacket {
    pub device_id: String,
    pub sequence_number: u32,
    pub base_timestamp_sec: u64,
    pub battery_millivolts: u32,
    pub rssi_dbm: i32,
    pub status: i32,
    pub payload: Option<air_quality_packet::Payload>,
}

} // verus!
