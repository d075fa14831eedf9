# iot-airquality-ingestor

The ingestion hub of a bare-metal IoT air-quality platform: it subscribes to
MQTT telemetry packets (Protocol Buffers), rebuilds the samples of delta
batches, streams each sample to the dashboard as a 16-byte Base64 frame (or as
JSON when the subscriber asks for `format=json`),
batches samples towards InfluxDB behind a circuit breaker, and exposes
Prometheus metrics.

## Layout

- `src/` is the library, verified with Verus:
  - `circuit_breaker.rs`: the Closed / Open / HalfOpen breaker and its laws;
  - `metrics.rs`: the counters, the per-sensor liveness registry and the
    Prometheus text exposition;
  - `frame.rs`: Base64, the AQI level, the sensor index and the 16-byte frame;
  - `sink.rs`: line protocol, the write endpoint and the write decisions;
  - `batch.rs`: the micro-batching buffer;
  - `ingest.rs`: anti-spoofing, timestamps, the per-device keyframe
    registry and the integer part of delta reconstruction;
  - `registry.rs`: device-keyed entry lists (lookup, update-or-append);
  - `http.rs`: routing, responses and the stream's event frames;
  - `config.rs`: configuration resolution; `text.rs`: decimal rendering and
    parsing; `proto.rs`, `sample.rs`: the messages and the sample.
- `app/` is the program: MQTT, HTTP and TCP I/O, prost decoding, JSON
  serialization, the clock, and the floating-point work (two-decimal
  rendering, hundredths rounding, delta accumulation of float readings).
- `tests/` runs the library on concrete values.
