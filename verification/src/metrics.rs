//! Prometheus exposition (text format 0.0.4) of the ingestor's counters and
//! gauges, and the per-sensor liveness registry.

use std::sync::Arc;
use vstd::prelude::*;
use crate::registry::{distinct_keys, entry_value, keyed, lookup, upsert, upsert_entry};
use crate::text::{
    contains_text,
    decimal,
    lemma_contains_left,
    lemma_contains_middle,
    lemma_contains_right,
    lemma_decimal_no_newline,
    lemma_newline_count_concat,
    lemma_no_newline_concat,
    lemma_no_newline_count,
    newline_count,
    no_newline,
    push_char_at,
    push_decimal,
};

verus! {

/// Addition of a counter increment modulo 2^64, as an atomic `fetch_add`
/// performs it.
pub open spec fn wrap_add(x: u64, y: u64) -> u64 {
    ((x as int + y as int) % 0x1_0000_0000_0000_0000) as u64
}

fn counter_add(x: u64, y: u64) -> (r: u64)
    ensures
        r == wrap_add(x, y),
{
    x.wrapping_add(y)
}

// ---------------------------------------------------------------------------
// The registry
// ---------------------------------------------------------------------------

/// The model of a fresh registry.
pub open spec fn zero_metrics() -> MetricsView {
    MetricsView {
        packets_received_total: 0,
        packets_valid_total: 0,
        packets_dropped_total: 0,
        packets_spoofed_total: 0,
        influx_batches_total: 0,
        influx_points_written_total: 0,
        influx_errors_total: 0,
        influx_last_batch_latency_ms: 0,
        circuit_breaker_state: 0,
        sensors: Seq::empty(),
    }
}

/// Mathematical model of the registry: every counter and gauge, and the
/// per-sensor last-seen entries in the order the sensors were first seen.
pub struct MetricsView {
    pub packets_received_total: u64,
    pub packets_valid_total: u64,
    pub packets_dropped_total: u64,
    pub packets_spoofed_total: u64,
    pub influx_batches_total: u64,
    pub influx_points_written_total: u64,
    pub influx_errors_total: u64,
    pub influx_last_batch_latency_ms: u64,
    pub circuit_breaker_state: u32,
    pub sensors: Seq<(Seq<char>, u64)>,
}

/// Counters and gauges of the ingestor.
pub struct IngestorMetrics {
    /// Total MQTT telemetry packets received.
    packets_received_total: u64,
    /// Total successfully decoded valid packets.
    packets_valid_total: u64,
    /// Total malformed or rejected packets.
    packets_dropped_total: u64,
    /// Total packets dropped because the topic and payload ids differ.
    packets_spoofed_total: u64,
    /// Total micro-batches sent towards InfluxDB.
    influx_batches_total: u64,
    /// Total points written to InfluxDB.
    influx_points_written_total: u64,
    /// Total failed InfluxDB batch writes.
    influx_errors_total: u64,
    /// Duration in ms of the last InfluxDB write batch.
    influx_last_batch_latency_ms: u64,
    /// Circuit breaker state (0 = Closed, 1 = HalfOpen, 2 = Open).
    circuit_breaker_state: u32,
    sensor_last_seen: Vec<(String, u64)>,
}

/// The model after one received packet.
pub open spec fn after_received(v: MetricsView) -> MetricsView {
    MetricsView { packets_received_total: wrap_add(v.packets_received_total, 1), ..v }
}

/// The model after one valid packet of `device_id` seen at `timestamp_sec`.
pub open spec fn after_valid(v: MetricsView, device_id: Seq<char>, timestamp_sec: u64) -> MetricsView {
    MetricsView {
        packets_valid_total: wrap_add(v.packets_valid_total, 1),
        sensors: upsert(v.sensors, device_id, timestamp_sec),
        ..v
    }
}

/// The model after one dropped packet.
pub open spec fn after_dropped(v: MetricsView) -> MetricsView {
    MetricsView { packets_dropped_total: wrap_add(v.packets_dropped_total, 1), ..v }
}

/// The model after one spoofed packet, which is also a dropped packet.
pub open spec fn after_spoofed(v: MetricsView) -> MetricsView {
    MetricsView {
        packets_spoofed_total: wrap_add(v.packets_spoofed_total, 1),
        packets_dropped_total: wrap_add(v.packets_dropped_total, 1),
        ..v
    }
}

/// The model after one batch write.
pub open spec fn after_batch(
    v: MetricsView,
    points_count: u64,
    latency_ms: u64,
    is_success: bool,
    cb_state: u32,
) -> MetricsView {
    MetricsView {
        influx_batches_total: wrap_add(v.influx_batches_total, 1),
        influx_last_batch_latency_ms: latency_ms,
        circuit_breaker_state: cb_state,
        influx_points_written_total: if is_success {
            wrap_add(v.influx_points_written_total, points_count)
        } else {
            v.influx_points_written_total
        },
        influx_errors_total: if is_success {
            v.influx_errors_total
        } else {
            wrap_add(v.influx_errors_total, 1)
        },
        ..v
    }
}

/// The model after `k` received packets.
pub open spec fn after_received_n(v: MetricsView, k: nat) -> MetricsView
    decreases k,
{
    if k == 0 {
        v
    } else {
        after_received(after_received_n(v, (k - 1) as nat))
    }
}

/// Law: `k` received packets add `k` to the received counter, modulo 2^64,
/// and change nothing else.
pub proof fn lemma_received_adds(v: MetricsView, k: nat)
    ensures
        after_received_n(v, k).packets_received_total == (v.packets_received_total + k) % 0x1_0000_0000_0000_0000int,
        after_received_n(v, k) == (MetricsView {
            packets_received_total: after_received_n(v, k).packets_received_total,
            ..v
        }),
    decreases k,
{
    if k > 0 {
        lemma_received_adds(v, (k - 1) as nat);
        let r = v.packets_received_total as int;
        assert(((r + (k - 1)) % 0x1_0000_0000_0000_0000 + 1) % 0x1_0000_0000_0000_0000 == (r + k)
            % 0x1_0000_0000_0000_0000) by (nonlinear_arith);
    } else {
        assert((v.packets_received_total as int) % 0x1_0000_0000_0000_0000int == v.packets_received_total);
    }
}

/// Every spoofed packet counted is also counted as dropped.
pub open spec fn spoofed_within_dropped(v: MetricsView) -> bool {
    v.packets_spoofed_total <= v.packets_dropped_total
}

/// Law: a fresh registry counts no more spoofed than dropped packets, and
/// every recording keeps it so as long as the dropped counter has not
/// reached its largest value (where it would wrap).
pub proof fn lemma_spoofed_within_dropped(
    v: MetricsView,
    device_id: Seq<char>,
    timestamp_sec: u64,
    points_count: u64,
    latency_ms: u64,
    is_success: bool,
    cb_state: u32,
)
    requires
        spoofed_within_dropped(v),
        v.packets_dropped_total < u64::MAX,
    ensures
        spoofed_within_dropped(zero_metrics()),
        spoofed_within_dropped(after_received(v)),
        spoofed_within_dropped(after_valid(v, device_id, timestamp_sec)),
        spoofed_within_dropped(after_dropped(v)),
        spoofed_within_dropped(after_spoofed(v)),
        spoofed_within_dropped(after_batch(v, points_count, latency_ms, is_success, cb_state)),
{
}

impl IngestorMetrics {
    /// The model of the registry.
    pub closed spec fn view(&self) -> MetricsView {
        MetricsView {
            packets_received_total: self.packets_received_total,
            packets_valid_total: self.packets_valid_total,
            packets_dropped_total: self.packets_dropped_total,
            packets_spoofed_total: self.packets_spoofed_total,
            influx_batches_total: self.influx_batches_total,
            influx_points_written_total: self.influx_points_written_total,
            influx_errors_total: self.influx_errors_total,
            influx_last_batch_latency_ms: self.influx_last_batch_latency_ms,
            circuit_breaker_state: self.circuit_breaker_state,
            sensors: keyed(self.sensor_last_seen@),
        }
    }

    /// Each sensor occurs once in the registry.
    pub open spec fn wf(&self) -> bool {
        distinct_keys(self.view().sensors)
    }

    /// All counters at zero, no sensor seen.
    pub fn new() -> (m: Self)
        ensures
            m.wf(),
            m.view() == zero_metrics(),
    {
        let m = IngestorMetrics {
            packets_received_total: 0,
            packets_valid_total: 0,
            packets_dropped_total: 0,
            packets_spoofed_total: 0,
            influx_batches_total: 0,
            influx_points_written_total: 0,
            influx_errors_total: 0,
            influx_last_batch_latency_ms: 0,
            circuit_breaker_state: 0,
            sensor_last_seen: Vec::new(),
        };
        assert(m.view().sensors =~= Seq::<(Seq<char>, u64)>::empty());
        m
    }

    /// Counts one received packet.
    pub fn record_packet_received(&mut self)
        ensures
            final(self).view() == after_received(old(self).view()),
    {
        self.packets_received_total = counter_add(self.packets_received_total, 1);
    }

    /// Counts one valid packet and records when its sensor was last seen.
    pub fn record_packet_valid(&mut self, device_id: &str, timestamp_sec: u64)
        requires
            old(self).wf(),
        ensures
            final(self).wf(),
            final(self).view() == after_valid(old(self).view(), device_id@, timestamp_sec),
    {
        self.packets_valid_total = counter_add(self.packets_valid_total, 1);
        upsert_entry(&mut self.sensor_last_seen, device_id, timestamp_sec);
    }

    /// Counts one malformed or rejected packet.
    pub fn record_packet_dropped(&mut self)
        ensures
            final(self).view() == after_dropped(old(self).view()),
    {
        self.packets_dropped_total = counter_add(self.packets_dropped_total, 1);
    }

    /// Counts one spoofed packet, which is also a dropped packet.
    pub fn record_packet_spoofed(&mut self)
        ensures
            final(self).view() == after_spoofed(old(self).view()),
    {
        self.packets_spoofed_total = counter_add(self.packets_spoofed_total, 1);
        self.packets_dropped_total = counter_add(self.packets_dropped_total, 1);
    }

    /// Records the outcome of one batch write: one more batch, the latency
    /// and breaker state of this write, and either the points written or
    /// one more error.
    pub fn record_batch_result(&mut self, points_count: u64, latency_ms: u64, is_success: bool, cb_state: u32)
        ensures
            final(self).view() == after_batch(old(self).view(), points_count, latency_ms, is_success, cb_state),
    {
        self.influx_batches_total = counter_add(self.influx_batches_total, 1);
        self.influx_last_batch_latency_ms = latency_ms;
        self.circuit_breaker_state = cb_state;
        if is_success {
            self.influx_points_written_total = counter_add(self.influx_points_written_total, points_count);
        } else {
            self.influx_errors_total = counter_add(self.influx_errors_total, 1);
        }
    }

    /// The last-seen timestamp recorded for a sensor.
    pub fn last_seen(&self, device_id: &str) -> (ts: Option<u64>)
        requires
            self.wf(),
        ensures
            ts == lookup(self.view().sensors, device_id@),
    {
        entry_value(&self.sensor_last_seen, device_id)
    }

    /// Renders all metrics in the Prometheus text format (version 0.0.4).
    pub fn render_prometheus_text(&self) -> (text: String)
        ensures
            text@ == exposition(self.view()),
            contains_text(text@, "# TYPE iot_packets_received_total counter\n"@ + "iot_packets_received_total "@ + decimal(self.view().packets_received_total as nat) + "\n"@),
            contains_text(text@, "# TYPE iot_packets_valid_total counter\n"@ + "iot_packets_valid_total "@ + decimal(self.view().packets_valid_total as nat) + "\n"@),
            contains_text(text@, "# TYPE iot_packets_dropped_total counter\n"@ + "iot_packets_dropped_total "@ + decimal(self.view().packets_dropped_total as nat) + "\n"@),
            contains_text(text@, "# TYPE iot_packets_spoofed_total counter\n"@ + "iot_packets_spoofed_total "@ + decimal(self.view().packets_spoofed_total as nat) + "\n"@),
            contains_text(text@, "# TYPE iot_influx_batches_total counter\n"@ + "iot_influx_batches_total "@ + decimal(self.view().influx_batches_total as nat) + "\n"@),
            contains_text(text@, "# TYPE iot_influx_points_written_total counter\n"@ + "iot_influx_points_written_total "@ + decimal(self.view().influx_points_written_total as nat) + "\n"@),
            contains_text(text@, "# TYPE iot_influx_errors_total counter\n"@ + "iot_influx_errors_total "@ + decimal(self.view().influx_errors_total as nat) + "\n"@),
            contains_text(text@, "# TYPE iot_influx_last_batch_latency_ms gauge\n"@ + "iot_influx_last_batch_latency_ms "@ + decimal(self.view().influx_last_batch_latency_ms as nat) + "\n"@),
            contains_text(text@, "# TYPE iot_circuit_breaker_state gauge\n"@ + "iot_circuit_breaker_state "@ + decimal(self.view().circuit_breaker_state as nat) + "\n"@),
    {
        let mut out = String::new();
        push_block(
            &mut out,
            "# HELP iot_packets_received_total Total number of MQTT telemetry packets received\n",
            "# TYPE iot_packets_received_total counter\n",
            "iot_packets_received_total ",
            self.packets_received_total,
        );
        push_block(
            &mut out,
            "# HELP iot_packets_valid_total Total number of successfully decoded valid packets\n",
            "# TYPE iot_packets_valid_total counter\n",
            "iot_packets_valid_total ",
            self.packets_valid_total,
        );
        push_block(
            &mut out,
            "# HELP iot_packets_dropped_total Total number of malformed or rejected packets\n",
            "# TYPE iot_packets_dropped_total counter\n",
            "iot_packets_dropped_total ",
            self.packets_dropped_total,
        );
        push_block(
            &mut out,
            "# HELP iot_packets_spoofed_total Total packets rejected due to topic vs payload mismatch\n",
            "# TYPE iot_packets_spoofed_total counter\n",
            "iot_packets_spoofed_total ",
            self.packets_spoofed_total,
        );
        push_block(
            &mut out,
            "# HELP iot_influx_batches_total Total micro-batches processed towards InfluxDB\n",
            "# TYPE iot_influx_batches_total counter\n",
            "iot_influx_batches_total ",
            self.influx_batches_total,
        );
        push_block(
            &mut out,
            "# HELP iot_influx_points_written_total Total metric points written to InfluxDB\n",
            "# TYPE iot_influx_points_written_total counter\n",
            "iot_influx_points_written_total ",
            self.influx_points_written_total,
        );
        push_block(
            &mut out,
            "# HELP iot_influx_errors_total Total InfluxDB HTTP or transport errors\n",
            "# TYPE iot_influx_errors_total counter\n",
            "iot_influx_errors_total ",
            self.influx_errors_total,
        );
        push_block(
            &mut out,
            "# HELP iot_influx_last_batch_latency_ms Duration of the last InfluxDB write batch in ms\n",
            "# TYPE iot_influx_last_batch_latency_ms gauge\n",
            "iot_influx_last_batch_latency_ms ",
            self.influx_last_batch_latency_ms,
        );
        push_block(
            &mut out,
            "# HELP iot_circuit_breaker_state Circuit breaker state (0=Closed/OK, 1=HalfOpen, 2=Open)\n",
            "# TYPE iot_circuit_breaker_state gauge\n",
            "iot_circuit_breaker_state ",
            self.circuit_breaker_state as u64,
        );
        out.append("# HELP iot_sensor_last_seen_seconds Unix epoch of last seen packet per sensor\n");
        out.append("# TYPE iot_sensor_last_seen_seconds gauge\n");
        let ghost head = out@;
        let n = self.sensor_last_seen.len();
        let mut i: usize = 0;
        while i < n
            invariant
                n == self.view().sensors.len(),
                i <= n,
                out@ == head + sensor_lines(self.view().sensors.subrange(0, i as int)),
            decreases n - i,
        {
            let ghost before = out@;
            let entry = &self.sensor_last_seen[i];
            out.append("iot_sensor_last_seen_seconds{device_id=\"");
            push_escaped_label(&mut out, entry.0.as_str());
            out.append("\"} ");
            push_decimal(&mut out, entry.1);
            out.append("\n");
            proof {
                let e = self.view().sensors;
                assert(e[i as int] == (entry.0@, entry.1));
                assert(e.subrange(0, i + 1).drop_last() =~= e.subrange(0, i as int));
                assert(out@ =~= before + sensor_line(e[i as int]));
            }
            i = i + 1;
        }
        proof {
            assert(self.view().sensors.subrange(0, n as int) =~= self.view().sensors);
            assert(out@ =~= exposition(self.view()));
            lemma_exposition_counters(self.view());
        }
        out
    }

    /// Total MQTT telemetry packets received.
    pub fn packets_received_total(&self) -> (v: u64)
        ensures
            v == self.view().packets_received_total,
    {
        self.packets_received_total
    }

    /// Total successfully decoded valid packets.
    pub fn packets_valid_total(&self) -> (v: u64)
        ensures
            v == self.view().packets_valid_total,
    {
        self.packets_valid_total
    }

    /// Total malformed or rejected packets.
    pub fn packets_dropped_total(&self) -> (v: u64)
        ensures
            v == self.view().packets_dropped_total,
    {
        self.packets_dropped_total
    }

    /// Total packets dropped because the topic and payload ids differ.
    pub fn packets_spoofed_total(&self) -> (v: u64)
        ensures
            v == self.view().packets_spoofed_total,
    {
        self.packets_spoofed_total
    }

    /// Total micro-batches sent towards InfluxDB.
    pub fn influx_batches_total(&self) -> (v: u64)
        ensures
            v == self.view().influx_batches_total,
    {
        self.influx_batches_total
    }

    /// Total points written to InfluxDB.
    pub fn influx_points_written_total(&self) -> (v: u64)
        ensures
            v == self.view().influx_points_written_total,
    {
        self.influx_points_written_total
    }

    /// Total failed InfluxDB batch writes.
    pub fn influx_errors_total(&self) -> (v: u64)
        ensures
            v == self.view().influx_errors_total,
    {
        self.influx_errors_total
    }

    /// Duration in ms of the last InfluxDB write batch.
    pub fn influx_last_batch_latency_ms(&self) -> (v: u64)
        ensures
            v == self.view().influx_last_batch_latency_ms,
    {
        self.influx_last_batch_latency_ms
    }

    /// Circuit breaker state gauge (0 Closed, 1 HalfOpen, 2 Open).
    pub fn circuit_breaker_state(&self) -> (v: u32)
        ensures
            v == self.view().circuit_breaker_state,
    {
        self.circuit_breaker_state
    }

    /// The number of sensors seen so far.
    pub fn sensor_count(&self) -> (n: usize)
        ensures
            n == self.view().sensors.len(),
    {
        self.sensor_last_seen.len()
    }
}

// ---------------------------------------------------------------------------
// Text exposition
// ---------------------------------------------------------------------------

/// One metric in the exposition: its HELP line, its TYPE line, then the
/// sample line (name, a space, the value) and a blank line.
pub open spec fn block(
    help_line: Seq<char>,
    type_line: Seq<char>,
    sample_prefix: Seq<char>,
    value: nat,
) -> Seq<char> {
    help_line + type_line + sample_prefix + decimal(value) + "\n\n"@
}

/// The liveness sample line of one sensor.
pub open spec fn sensor_line(entry: (Seq<char>, u64)) -> Seq<char> {
    "iot_sensor_last_seen_seconds{device_id=\""@ + escape_label(entry.0) + "\"} "@ + decimal(
        entry.1 as nat,
    ) + "\n"@
}

/// The escaped form of one character of a label value in the text
/// exposition format: backslash, double quote and line feed are written
/// `\\`, `\"` and `\n`.
pub open spec fn escape_label_char(c: char) -> Seq<char> {
    if c == '\\' {
        seq!['\\', '\\']
    } else if c == '"' {
        seq!['\\', '"']
    } else if c == '\n' {
        seq!['\\', 'n']
    } else {
        seq![c]
    }
}

/// The escaped form of a label value.
pub open spec fn escape_label(s: Seq<char>) -> Seq<char>
    decreases s.len(),
{
    if s.len() == 0 {
        Seq::<char>::empty()
    } else {
        escape_label(s.drop_last()) + escape_label_char(s.last())
    }
}

proof fn lemma_escape_label_no_newline(s: Seq<char>)
    ensures
        no_newline(escape_label(s)),
    decreases s.len(),
{
    if s.len() > 0 {
        lemma_escape_label_no_newline(s.drop_last());
        let c = s.last();
        assert(no_newline(escape_label_char(c)));
        lemma_no_newline_concat(escape_label(s.drop_last()), escape_label_char(c));
    }
}

/// Law: every sensor line holds exactly one line feed, at its end, whatever
/// characters the device id holds; so the liveness block has exactly one
/// line per sensor.
pub proof fn lemma_one_line_per_sensor(e: Seq<(Seq<char>, u64)>)
    ensures
        forall|i: int|
            0 <= i < e.len() ==> {
                let line = #[trigger] sensor_line(e[i]);
                &&& line.last() == '\n'
                &&& no_newline(line.drop_last())
            },
        newline_count(sensor_lines(e)) == e.len(),
    decreases e.len(),
{
    assert forall|i: int| 0 <= i < e.len() implies {
        let line = #[trigger] sensor_line(e[i]);
        &&& line.last() == '\n'
        &&& no_newline(line.drop_last())
    } by {
        lemma_sensor_line_shape(e[i]);
    }
    if e.len() > 0 {
        lemma_one_line_per_sensor(e.drop_last());
        lemma_sensor_line_shape(e.last());
        let line = sensor_line(e.last());
        lemma_newline_count_concat(sensor_lines(e.drop_last()), line);
        lemma_newline_count_concat(line.drop_last(), seq!['\n']);
        assert(line.drop_last() + seq!['\n'] =~= line);
        lemma_no_newline_count(line.drop_last());
        assert(newline_count(seq!['\n']) == 1) by {
            assert(seq!['\n'].drop_last() =~= Seq::<char>::empty());
        }
    }
}

proof fn lemma_sensor_line_shape(entry: (Seq<char>, u64))
    ensures
        sensor_line(entry).last() == '\n',
        no_newline(sensor_line(entry).drop_last()),
{
    reveal_strlit("iot_sensor_last_seen_seconds{device_id=\"");
    reveal_strlit("\"} ");
    reveal_strlit("\n");
    let a = "iot_sensor_last_seen_seconds{device_id=\""@;
    let b = escape_label(entry.0);
    let c = "\"} "@;
    let d = decimal(entry.1 as nat);
    lemma_escape_label_no_newline(entry.0);
    lemma_decimal_no_newline(entry.1 as nat);
    assert(no_newline(a));
    assert(no_newline(c));
    lemma_no_newline_concat(a, b);
    lemma_no_newline_concat(a + b, c);
    lemma_no_newline_concat(a + b + c, d);
    assert(sensor_line(entry).drop_last() =~= a + b + c + d);
}

/// Appends the escaped form of a label value.
fn push_escaped_label(out: &mut String, s: &str)
    ensures
        final(out)@ == old(out)@ + escape_label(s@),
{
    let ghost start = out@;
    let n = s.unicode_len();
    let mut i: usize = 0;
    while i < n
        invariant
            n == s@.len(),
            i <= n,
            out@ == start + escape_label(s@.subrange(0, i as int)),
        decreases n - i,
    {
        let ghost before = out@;
        let c = s.get_char(i);
        if c == '\\' {
            let piece = "\\\\";
            proof {
                reveal_strlit("\\\\");
            }
            out.append(piece);
        } else if c == '"' {
            let piece = "\\\"";
            proof {
                reveal_strlit("\\\"");
            }
            out.append(piece);
        } else if c == '\n' {
            let piece = "\\n";
            proof {
                reveal_strlit("\\n");
            }
            out.append(piece);
        } else {
            push_char_at(out, s, i);
        }
        proof {
            let next = s@.subrange(0, i + 1);
            assert(next.drop_last() =~= s@.subrange(0, i as int));
            assert(next.last() == c);
            assert(out@ =~= before + escape_label_char(c));
        }
        i = i + 1;
    }
    assert(s@.subrange(0, n as int) =~= s@);
}

/// The liveness sample lines of all sensors, in registry order.
pub open spec fn sensor_lines(e: Seq<(Seq<char>, u64)>) -> Seq<char>
    decreases e.len(),
{
    if e.len() == 0 {
        Seq::<char>::empty()
    } else {
        sensor_lines(e.drop_last()) + sensor_line(e.last())
    }
}

/// The whole exposition of a registry, in Prometheus text format 0.0.4.
pub open spec fn exposition(m: MetricsView) -> Seq<char> {
    block(
        "# HELP iot_packets_received_total Total number of MQTT telemetry packets received\n"@,
        "# TYPE iot_packets_received_total counter\n"@,
        "iot_packets_received_total "@,
        m.packets_received_total as nat,
    )
        + block(
            "# HELP iot_packets_valid_total Total number of successfully decoded valid packets\n"@,
            "# TYPE iot_packets_valid_total counter\n"@,
            "iot_packets_valid_total "@,
            m.packets_valid_total as nat,
        )
        + block(
            "# HELP iot_packets_dropped_total Total number of malformed or rejected packets\n"@,
            "# TYPE iot_packets_dropped_total counter\n"@,
            "iot_packets_dropped_total "@,
            m.packets_dropped_total as nat,
        )
        + block(
            "# HELP iot_packets_spoofed_total Total packets rejected due to topic vs payload mismatch\n"@,
            "# TYPE iot_packets_spoofed_total counter\n"@,
            "iot_packets_spoofed_total "@,
            m.packets_spoofed_total as nat,
        )
        + block(
            "# HELP iot_influx_batches_total Total micro-batches processed towards InfluxDB\n"@,
            "# TYPE iot_influx_batches_total counter\n"@,
            "iot_influx_batches_total "@,
            m.influx_batches_total as nat,
        )
        + block(
            "# HELP iot_influx_points_written_total Total metric points written to InfluxDB\n"@,
            "# TYPE iot_influx_points_written_total counter\n"@,
            "iot_influx_points_written_total "@,
            m.influx_points_written_total as nat,
        )
        + block(
            "# HELP iot_influx_errors_total Total InfluxDB HTTP or transport errors\n"@,
            "# TYPE iot_influx_errors_total counter\n"@,
            "iot_influx_errors_total "@,
            m.influx_errors_total as nat,
        )
        + block(
            "# HELP iot_influx_last_batch_latency_ms Duration of the last InfluxDB write batch in ms\n"@,
            "# TYPE iot_influx_last_batch_latency_ms gauge\n"@,
            "iot_influx_last_batch_latency_ms "@,
            m.influx_last_batch_latency_ms as nat,
        )
        + block(
            "# HELP iot_circuit_breaker_state Circuit breaker state (0=Closed/OK, 1=HalfOpen, 2=Open)\n"@,
            "# TYPE iot_circuit_breaker_state gauge\n"@,
            "iot_circuit_breaker_state "@,
            m.circuit_breaker_state as nat,
        )
        + "# HELP iot_sensor_last_seen_seconds Unix epoch of last seen packet per sensor\n"@
        + "# TYPE iot_sensor_last_seen_seconds gauge\n"@
        + sensor_lines(m.sensors)
}

/// The sample line of a block follows its TYPE line.
proof fn lemma_block_sample(help_line: Seq<char>, type_line: Seq<char>, sample_prefix: Seq<char>, value: nat)
    ensures
        contains_text(
            block(help_line, type_line, sample_prefix, value),
            type_line + sample_prefix + decimal(value) + "\n"@,
        ),
{
    reveal_strlit("\n\n");
    reveal_strlit("\n");
    let t = type_line + sample_prefix + decimal(value) + "\n"@;
    assert(block(help_line, type_line, sample_prefix, value) =~= help_line + t + "\n"@);
    lemma_contains_middle(help_line, t, "\n"@);
}

/// Law: in the exposition of any registry, each counter and gauge has its
/// TYPE line followed by its sample line, which carries that counter's
/// own value: `iot_packets_dropped_total` the dropped packets,
/// `iot_packets_spoofed_total` the spoofed ones, and so on.
pub proof fn lemma_exposition_counters(m: MetricsView)
    ensures
        contains_text(exposition(m), "# TYPE iot_packets_received_total counter\n"@ + "iot_packets_received_total "@ + decimal(m.packets_received_total as nat) + "\n"@),
        contains_text(exposition(m), "# TYPE iot_packets_valid_total counter\n"@ + "iot_packets_valid_total "@ + decimal(m.packets_valid_total as nat) + "\n"@),
        contains_text(exposition(m), "# TYPE iot_packets_dropped_total counter\n"@ + "iot_packets_dropped_total "@ + decimal(m.packets_dropped_total as nat) + "\n"@),
        contains_text(exposition(m), "# TYPE iot_packets_spoofed_total counter\n"@ + "iot_packets_spoofed_total "@ + decimal(m.packets_spoofed_total as nat) + "\n"@),
        contains_text(exposition(m), "# TYPE iot_influx_batches_total counter\n"@ + "iot_influx_batches_total "@ + decimal(m.influx_batches_total as nat) + "\n"@),
        contains_text(exposition(m), "# TYPE iot_influx_points_written_total counter\n"@ + "iot_influx_points_written_total "@ + decimal(m.influx_points_written_total as nat) + "\n"@),
        contains_text(exposition(m), "# TYPE iot_influx_errors_total counter\n"@ + "iot_influx_errors_total "@ + decimal(m.influx_errors_total as nat) + "\n"@),
        contains_text(exposition(m), "# TYPE iot_influx_last_batch_latency_ms gauge\n"@ + "iot_influx_last_batch_latency_ms "@ + decimal(m.influx_last_batch_latency_ms as nat) + "\n"@),
        contains_text(exposition(m), "# TYPE iot_circuit_breaker_state gauge\n"@ + "iot_circuit_breaker_state "@ + decimal(m.circuit_breaker_state as nat) + "\n"@),
{
    let b0 = block("# HELP iot_packets_received_total Total number of MQTT telemetry packets received\n"@, "# TYPE iot_packets_received_total counter\n"@, "iot_packets_received_total "@, m.packets_received_total as nat);
    let b1 = block("# HELP iot_packets_valid_total Total number of successfully decoded valid packets\n"@, "# TYPE iot_packets_valid_total counter\n"@, "iot_packets_valid_total "@, m.packets_valid_total as nat);
    let b2 = block("# HELP iot_packets_dropped_total Total number of malformed or rejected packets\n"@, "# TYPE iot_packets_dropped_total counter\n"@, "iot_packets_dropped_total "@, m.packets_dropped_total as nat);
    let b3 = block("# HELP iot_packets_spoofed_total Total packets rejected due to topic vs payload mismatch\n"@, "# TYPE iot_packets_spoofed_total counter\n"@, "iot_packets_spoofed_total "@, m.packets_spoofed_total as nat);
    let b4 = block("# HELP iot_influx_batches_total Total micro-batches processed towards InfluxDB\n"@, "# TYPE iot_influx_batches_total counter\n"@, "iot_influx_batches_total "@, m.influx_batches_total as nat);
    let b5 = block("# HELP iot_influx_points_written_total Total metric points written to InfluxDB\n"@, "# TYPE iot_influx_points_written_total counter\n"@, "iot_influx_points_written_total "@, m.influx_points_written_total as nat);
    let b6 = block("# HELP iot_influx_errors_total Total InfluxDB HTTP or transport errors\n"@, "# TYPE iot_influx_errors_total counter\n"@, "iot_influx_errors_total "@, m.influx_errors_total as nat);
    let b7 = block("# HELP iot_influx_last_batch_latency_ms Duration of the last InfluxDB write batch in ms\n"@, "# TYPE iot_influx_last_batch_latency_ms gauge\n"@, "iot_influx_last_batch_latency_ms "@, m.influx_last_batch_latency_ms as nat);
    let b8 = block("# HELP iot_circuit_breaker_state Circuit breaker state (0=Closed/OK, 1=HalfOpen, 2=Open)\n"@, "# TYPE iot_circuit_breaker_state gauge\n"@, "iot_circuit_breaker_state "@, m.circuit_breaker_state as nat);
    let e = exposition(m);
    assert(contains_text(e, "# TYPE iot_packets_received_total counter\n"@ + "iot_packets_received_total "@ + decimal(m.packets_received_total as nat) + "\n"@)) by {
        let t = "# TYPE iot_packets_received_total counter\n"@ + "iot_packets_received_total "@ + decimal(m.packets_received_total as nat) + "\n"@;
        lemma_block_sample("# HELP iot_packets_received_total Total number of MQTT telemetry packets received\n"@, "# TYPE iot_packets_received_total counter\n"@, "iot_packets_received_total "@, m.packets_received_total as nat);
        lemma_contains_right((b0), b1, t);
        lemma_contains_right((b0 + b1), b2, t);
        lemma_contains_right((b0 + b1 + b2), b3, t);
        lemma_contains_right((b0 + b1 + b2 + b3), b4, t);
        lemma_contains_right((b0 + b1 + b2 + b3 + b4), b5, t);
        lemma_contains_right((b0 + b1 + b2 + b3 + b4 + b5), b6, t);
        lemma_contains_right((b0 + b1 + b2 + b3 + b4 + b5 + b6), b7, t);
        lemma_contains_right((b0 + b1 + b2 + b3 + b4 + b5 + b6 + b7), b8, t);
        lemma_contains_right((b0 + b1 + b2 + b3 + b4 + b5 + b6 + b7 + b8), "# HELP iot_sensor_last_seen_seconds Unix epoch of last seen packet per sensor\n"@, t);
        lemma_contains_right((b0 + b1 + b2 + b3 + b4 + b5 + b6 + b7 + b8) + "# HELP iot_sensor_last_seen_seconds Unix epoch of last seen packet per sensor\n"@, "# TYPE iot_sensor_last_seen_seconds gauge\n"@, t);
        lemma_contains_right((b0 + b1 + b2 + b3 + b4 + b5 + b6 + b7 + b8) + "# HELP iot_sensor_last_seen_seconds Unix epoch of last seen packet per sensor\n"@ + "# TYPE iot_sensor_last_seen_seconds gauge\n"@, sensor_lines(m.sensors), t);
    }
    assert(contains_text(e, "# TYPE iot_packets_valid_total counter\n"@ + "iot_packets_valid_total "@ + decimal(m.packets_valid_total as nat) + "\n"@)) by {
        let t = "# TYPE iot_packets_valid_total counter\n"@ + "iot_packets_valid_total "@ + decimal(m.packets_valid_total as nat) + "\n"@;
        lemma_block_sample("# HELP iot_packets_valid_total Total number of successfully decoded valid packets\n"@, "# TYPE iot_packets_valid_total counter\n"@, "iot_packets_valid_total "@, m.packets_valid_total as nat);
        lemma_contains_left((b0), b1, t);
        lemma_contains_right((b0 + b1), b2, t);
        lemma_contains_right((b0 + b1 + b2), b3, t);
        lemma_contains_right((b0 + b1 + b2 + b3), b4, t);
        lemma_contains_right((b0 + b1 + b2 + b3 + b4), b5, t);
        lemma_contains_right((b0 + b1 + b2 + b3 + b4 + b5), b6, t);
        lemma_contains_right((b0 + b1 + b2 + b3 + b4 + b5 + b6), b7, t);
        lemma_contains_right((b0 + b1 + b2 + b3 + b4 + b5 + b6 + b7), b8, t);
        lemma_contains_right((b0 + b1 + b2 + b3 + b4 + b5 + b6 + b7 + b8), "# HELP iot_sensor_last_seen_seconds Unix epoch of last seen packet per sensor\n"@, t);
        lemma_contains_right((b0 + b1 + b2 + b3 + b4 + b5 + b6 + b7 + b8) + "# HELP iot_sensor_last_seen_seconds Unix epoch of last seen packet per sensor\n"@, "# TYPE iot_sensor_last_seen_seconds gauge\n"@, t);
        lemma_contains_right((b0 + b1 + b2 + b3 + b4 + b5 + b6 + b7 + b8) + "# HELP iot_sensor_last_seen_seconds Unix epoch of last seen packet per sensor\n"@ + "# TYPE iot_sensor_last_seen_seconds gauge\n"@, sensor_lines(m.sensors), t);
    }
    assert(contains_text(e, "# TYPE iot_packets_dropped_total counter\n"@ + "iot_packets_dropped_total "@ + decimal(m.packets_dropped_total as nat) + "\n"@)) by {
        let t = "# TYPE iot_packets_dropped_total counter\n"@ + "iot_packets_dropped_total "@ + decimal(m.packets_dropped_total as nat) + "\n"@;
        lemma_block_sample("# HELP iot_packets_dropped_total Total number of malformed or rejected packets\n"@, "# TYPE iot_packets_dropped_total counter\n"@, "iot_packets_dropped_total "@, m.packets_dropped_total as nat);
        lemma_contains_left((b0 + b1), b2, t);
        lemma_contains_right((b0 + b1 + b2), b3, t);
        lemma_contains_right((b0 + b1 + b2 + b3), b4, t);
        lemma_contains_right((b0 + b1 + b2 + b3 + b4), b5, t);
        lemma_contains_right((b0 + b1 + b2 + b3 + b4 + b5), b6, t);
        lemma_contains_right((b0 + b1 + b2 + b3 + b4 + b5 + b6), b7, t);
        lemma_contains_right((b0 + b1 + b2 + b3 + b4 + b5 + b6 + b7), b8, t);
        lemma_contains_right((b0 + b1 + b2 + b3 + b4 + b5 + b6 + b7 + b8), "# HELP iot_sensor_last_seen_seconds Unix epoch of last seen packet per sensor\n"@, t);
        lemma_contains_right((b0 + b1 + b2 + b3 + b4 + b5 + b6 + b7 + b8) + "# HELP iot_sensor_last_seen_seconds Unix epoch of last seen packet per sensor\n"@, "# TYPE iot_sensor_last_seen_seconds gauge\n"@, t);
        lemma_contains_right((b0 + b1 + b2 + b3 + b4 + b5 + b6 + b7 + b8) + "# HELP iot_sensor_last_seen_seconds Unix epoch of last seen packet per sensor\n"@ + "# TYPE iot_sensor_last_seen_seconds gauge\n"@, sensor_lines(m.sensors), t);
    }
    assert(contains_text(e, "# TYPE iot_packets_spoofed_total counter\n"@ + "iot_packets_spoofed_total "@ + decimal(m.packets_spoofed_total as nat) + "\n"@)) by {
        let t = "# TYPE iot_packets_spoofed_total counter\n"@ + "iot_packets_spoofed_total "@ + decimal(m.packets_spoofed_total as nat) + "\n"@;
        lemma_block_sample("# HELP iot_packets_spoofed_total Total packets rejected due to topic vs payload mismatch\n"@, "# TYPE iot_packets_spoofed_total counter\n"@, "iot_packets_spoofed_total "@, m.packets_spoofed_total as nat);
        lemma_contains_left((b0 + b1 + b2), b3, t);
        lemma_contains_right((b0 + b1 + b2 + b3), b4, t);
        lemma_contains_right((b0 + b1 + b2 + b3 + b4), b5, t);
        lemma_contains_right((b0 + b1 + b2 + b3 + b4 + b5), b6, t);
        lemma_contains_right((b0 + b1 + b2 + b3 + b4 + b5 + b6), b7, t);
        lemma_contains_right((b0 + b1 + b2 + b3 + b4 + b5 + b6 + b7), b8, t);
        lemma_contains_right((b0 + b1 + b2 + b3 + b4 + b5 + b6 + b7 + b8), "# HELP iot_sensor_last_seen_seconds Unix epoch of last seen packet per sensor\n"@, t);
        lemma_contains_right((b0 + b1 + b2 + b3 + b4 + b5 + b6 + b7 + b8) + "# HELP iot_sensor_last_seen_seconds Unix epoch of last seen packet per sensor\n"@, "# TYPE iot_sensor_last_seen_seconds gauge\n"@, t);
        lemma_contains_right((b0 + b1 + b2 + b3 + b4 + b5 + b6 + b7 + b8) + "# HELP iot_sensor_last_seen_seconds Unix epoch of last seen packet per sensor\n"@ + "# TYPE iot_sensor_last_seen_seconds gauge\n"@, sensor_lines(m.sensors), t);
    }
    assert(contains_text(e, "# TYPE iot_influx_batches_total counter\n"@ + "iot_influx_batches_total "@ + decimal(m.influx_batches_total as nat) + "\n"@)) by {
        let t = "# TYPE iot_influx_batches_total counter\n"@ + "iot_influx_batches_total "@ + decimal(m.influx_batches_total as nat) + "\n"@;
        lemma_block_sample("# HELP iot_influx_batches_total Total micro-batches processed towards InfluxDB\n"@, "# TYPE iot_influx_batches_total counter\n"@, "iot_influx_batches_total "@, m.influx_batches_total as nat);
        lemma_contains_left((b0 + b1 + b2 + b3), b4, t);
        lemma_contains_right((b0 + b1 + b2 + b3 + b4), b5, t);
        lemma_contains_right((b0 + b1 + b2 + b3 + b4 + b5), b6, t);
        lemma_contains_right((b0 + b1 + b2 + b3 + b4 + b5 + b6), b7, t);
        lemma_contains_right((b0 + b1 + b2 + b3 + b4 + b5 + b6 + b7), b8, t);
        lemma_contains_right((b0 + b1 + b2 + b3 + b4 + b5 + b6 + b7 + b8), "# HELP iot_sensor_last_seen_seconds Unix epoch of last seen packet per sensor\n"@, t);
        lemma_contains_right((b0 + b1 + b2 + b3 + b4 + b5 + b6 + b7 + b8) + "# HELP iot_sensor_last_seen_seconds Unix epoch of last seen packet per sensor\n"@, "# TYPE iot_sensor_last_seen_seconds gauge\n"@, t);
        lemma_contains_right((b0 + b1 + b2 + b3 + b4 + b5 + b6 + b7 + b8) + "# HELP iot_sensor_last_seen_seconds Unix epoch of last seen packet per sensor\n"@ + "# TYPE iot_sensor_last_seen_seconds gauge\n"@, sensor_lines(m.sensors), t);
    }
    assert(contains_text(e, "# TYPE iot_influx_points_written_total counter\n"@ + "iot_influx_points_written_total "@ + decimal(m.influx_points_written_total as nat) + "\n"@)) by {
        let t = "# TYPE iot_influx_points_written_total counter\n"@ + "iot_influx_points_written_total "@ + decimal(m.influx_points_written_total as nat) + "\n"@;
        lemma_block_sample("# HELP iot_influx_points_written_total Total metric points written to InfluxDB\n"@, "# TYPE iot_influx_points_written_total counter\n"@, "iot_influx_points_written_total "@, m.influx_points_written_total as nat);
        lemma_contains_left((b0 + b1 + b2 + b3 + b4), b5, t);
        lemma_contains_right((b0 + b1 + b2 + b3 + b4 + b5), b6, t);
        lemma_contains_right((b0 + b1 + b2 + b3 + b4 + b5 + b6), b7, t);
        lemma_contains_right((b0 + b1 + b2 + b3 + b4 + b5 + b6 + b7), b8, t);
        lemma_contains_right((b0 + b1 + b2 + b3 + b4 + b5 + b6 + b7 + b8), "# HELP iot_sensor_last_seen_seconds Unix epoch of last seen packet per sensor\n"@, t);
        lemma_contains_right((b0 + b1 + b2 + b3 + b4 + b5 + b6 + b7 + b8) + "# HELP iot_sensor_last_seen_seconds Unix epoch of last seen packet per sensor\n"@, "# TYPE iot_sensor_last_seen_seconds gauge\n"@, t);
        lemma_contains_right((b0 + b1 + b2 + b3 + b4 + b5 + b6 + b7 + b8) + "# HELP iot_sensor_last_seen_seconds Unix epoch of last seen packet per sensor\n"@ + "# TYPE iot_sensor_last_seen_seconds gauge\n"@, sensor_lines(m.sensors), t);
    }
    assert(contains_text(e, "# TYPE iot_influx_errors_total counter\n"@ + "iot_influx_errors_total "@ + decimal(m.influx_errors_total as nat) + "\n"@)) by {
        let t = "# TYPE iot_influx_errors_total counter\n"@ + "iot_influx_errors_total "@ + decimal(m.influx_errors_total as nat) + "\n"@;
        lemma_block_sample("# HELP iot_influx_errors_total Total InfluxDB HTTP or transport errors\n"@, "# TYPE iot_influx_errors_total counter\n"@, "iot_influx_errors_total "@, m.influx_errors_total as nat);
        lemma_contains_left((b0 + b1 + b2 + b3 + b4 + b5), b6, t);
        lemma_contains_right((b0 + b1 + b2 + b3 + b4 + b5 + b6), b7, t);
        lemma_contains_right((b0 + b1 + b2 + b3 + b4 + b5 + b6 + b7), b8, t);
        lemma_contains_right((b0 + b1 + b2 + b3 + b4 + b5 + b6 + b7 + b8), "# HELP iot_sensor_last_seen_seconds Unix epoch of last seen packet per sensor\n"@, t);
        lemma_contains_right((b0 + b1 + b2 + b3 + b4 + b5 + b6 + b7 + b8) + "# HELP iot_sensor_last_seen_seconds Unix epoch of last seen packet per sensor\n"@, "# TYPE iot_sensor_last_seen_seconds gauge\n"@, t);
        lemma_contains_right((b0 + b1 + b2 + b3 + b4 + b5 + b6 + b7 + b8) + "# HELP iot_sensor_last_seen_seconds Unix epoch of last seen packet per sensor\n"@ + "# TYPE iot_sensor_last_seen_seconds gauge\n"@, sensor_lines(m.sensors), t);
    }
    assert(contains_text(e, "# TYPE iot_influx_last_batch_latency_ms gauge\n"@ + "iot_influx_last_batch_latency_ms "@ + decimal(m.influx_last_batch_latency_ms as nat) + "\n"@)) by {
        let t = "# TYPE iot_influx_last_batch_latency_ms gauge\n"@ + "iot_influx_last_batch_latency_ms "@ + decimal(m.influx_last_batch_latency_ms as nat) + "\n"@;
        lemma_block_sample("# HELP iot_influx_last_batch_latency_ms Duration of the last InfluxDB write batch in ms\n"@, "# TYPE iot_influx_last_batch_latency_ms gauge\n"@, "iot_influx_last_batch_latency_ms "@, m.influx_last_batch_latency_ms as nat);
        lemma_contains_left((b0 + b1 + b2 + b3 + b4 + b5 + b6), b7, t);
        lemma_contains_right((b0 + b1 + b2 + b3 + b4 + b5 + b6 + b7), b8, t);
        lemma_contains_right((b0 + b1 + b2 + b3 + b4 + b5 + b6 + b7 + b8), "# HELP iot_sensor_last_seen_seconds Unix epoch of last seen packet per sensor\n"@, t);
        lemma_contains_right((b0 + b1 + b2 + b3 + b4 + b5 + b6 + b7 + b8) + "# HELP iot_sensor_last_seen_seconds Unix epoch of last seen packet per sensor\n"@, "# TYPE iot_sensor_last_seen_seconds gauge\n"@, t);
        lemma_contains_right((b0 + b1 + b2 + b3 + b4 + b5 + b6 + b7 + b8) + "# HELP iot_sensor_last_seen_seconds Unix epoch of last seen packet per sensor\n"@ + "# TYPE iot_sensor_last_seen_seconds gauge\n"@, sensor_lines(m.sensors), t);
    }
    assert(contains_text(e, "# TYPE iot_circuit_breaker_state gauge\n"@ + "iot_circuit_breaker_state "@ + decimal(m.circuit_breaker_state as nat) + "\n"@)) by {
        let t = "# TYPE iot_circuit_breaker_state gauge\n"@ + "iot_circuit_breaker_state "@ + decimal(m.circuit_breaker_state as nat) + "\n"@;
        lemma_block_sample("# HELP iot_circuit_breaker_state Circuit breaker state (0=Closed/OK, 1=HalfOpen, 2=Open)\n"@, "# TYPE iot_circuit_breaker_state gauge\n"@, "iot_circuit_breaker_state "@, m.circuit_breaker_state as nat);
        lemma_contains_left((b0 + b1 + b2 + b3 + b4 + b5 + b6 + b7), b8, t);
        lemma_contains_right((b0 + b1 + b2 + b3 + b4 + b5 + b6 + b7 + b8), "# HELP iot_sensor_last_seen_seconds Unix epoch of last seen packet per sensor\n"@, t);
        lemma_contains_right((b0 + b1 + b2 + b3 + b4 + b5 + b6 + b7 + b8) + "# HELP iot_sensor_last_seen_seconds Unix epoch of last seen packet per sensor\n"@, "# TYPE iot_sensor_last_seen_seconds gauge\n"@, t);
        lemma_contains_right((b0 + b1 + b2 + b3 + b4 + b5 + b6 + b7 + b8) + "# HELP iot_sensor_last_seen_seconds Unix epoch of last seen packet per sensor\n"@ + "# TYPE iot_sensor_last_seen_seconds gauge\n"@, sensor_lines(m.sensors), t);
    }
}

fn push_block(out: &mut String, help_line: &str, type_line: &str, sample_prefix: &str, value: u64)
    ensures
        final(out)@ == old(out)@ + block(help_line@, type_line@, sample_prefix@, value as nat),
{
    out.append(help_line);
    out.append(type_line);
    out.append(sample_prefix);
    push_decimal(out, value);
    out.append("\n\n");
    assert(out@ =~= old(out)@ + block(help_line@, type_line@, sample_prefix@, value as nat));
}

/// Telemetry event broadcast to the live stream subscribers: the Base64
/// binary frame and the JSON form of one sample.
#[derive(Clone, Debug)]
pub struct TelemetryBroadcast {
    pub binary_b64: Arc<String>,
    pub json: Arc<String>,
}

} // verus!
