//! Verified core of the IoT air-quality ingestion hub: the upstream circuit
//! breaker, the Prometheus metrics registry and its text exposition, the
//! compact binary SSE frame, InfluxDB line protocol batches, the batching
//! and ingestion decisions, and the configuration resolution rules.

pub mod batch;
pub mod circuit_breaker;
pub mod config;
pub mod frame;
pub mod http;
pub mod ingest;
pub mod metrics;
pub mod proto;
pub mod registry;
pub mod sample;
pub mod sink;
pub mod text;

pub use batch::BatchBuffer;
pub use circuit_breaker::{CircuitBreaker, State};
pub use config::{AppConfig, EnvSettings};
pub use frame::{compute_aqi_level, encode_base64_16, pack_binary_frame, pack_binary_frame_b64, sensor_id_to_index};
pub use metrics::{IngestorMetrics, TelemetryBroadcast};
pub use proto::{air_quality_packet, AirQualityPacket, DeltaBatch, DeltaSample, FullSample, SensorStatus};
pub use sample::{MetricSample, Reading};
pub use sink::{InfluxDbSink, TransportOutcome, WriteFailure, WritePlan};
