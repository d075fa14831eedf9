//! InfluxDB v2 line protocol batches and the decisions of the batch writer:
//! when a batch is sent, and what each transport outcome does to the
//! circuit breaker.

use std::time::Instant;
use vstd::prelude::*;
use crate::circuit_breaker::{
    CircuitBreaker,
    State,
    BreakerView,
    cooldown_elapsed_at,
    duration_from_secs,
    instant_now,
    opened_after_failure,
    admits,
    after_admission,
    after_failure,
    after_success,
    initial_view,
};
use crate::config::AppConfig;
use crate::sample::MetricSample;
use crate::sample::lemma_fixed2_no_newline;
use vstd::utf8::encode_utf8;
use crate::text::{
    decimal,
    lemma_decimal_no_newline,
    lemma_newline_count_concat,
    lemma_no_newline_concat,
    lemma_no_newline_count,
    lemma_signed_decimal_no_newline,
    newline_count,
    no_newline,
    push_char_at,
    push_decimal,
    push_signed_decimal,
    signed_decimal,
};

verus! {


// ---------------------------------------------------------------------------
// Line protocol
// ---------------------------------------------------------------------------

/// The escaped form of one character of a tag value in line protocol:
/// space, comma and equals sign are preceded by a backslash.
pub open spec fn escape_tag_char(c: char) -> Seq<char> {
    if c == ' ' || c == ',' || c == '=' {
        seq!['\\', c]
    } else {
        seq![c]
    }
}

/// The escaped form of a tag value in line protocol.
pub open spec fn escape_tag(s: Seq<char>) -> Seq<char>
    decreases s.len(),
{
    if s.len() == 0 {
        Seq::<char>::empty()
    } else {
        escape_tag(s.drop_last()) + escape_tag_char(s.last())
    }
}

/// Appends the escaped form of a tag value.
fn push_escaped_tag(out: &mut String, s: &str)
    ensures
        final(out)@ == old(out)@ + escape_tag(s@),
{
    let ghost start = out@;
    let n = s.unicode_len();
    let mut i: usize = 0;
    while i < n
        invariant
            n == s@.len(),
            i <= n,
            out@ == start + escape_tag(s@.subrange(0, i as int)),
        decreases n - i,
    {
        let ghost before = out@;
        let c = s.get_char(i);
        if c == ' ' || c == ',' || c == '=' {
            let slash = "\\";
            proof {
                reveal_strlit("\\");
            }
            out.append(slash);
        }
        push_char_at(out, s, i);
        proof {
            let next = s@.subrange(0, i + 1);
            assert(next.drop_last() =~= s@.subrange(0, i as int));
            assert(next.last() == c);
            assert(out@ =~= before + escape_tag_char(c));
        }
        i = i + 1;
    }
    assert(s@.subrange(0, n as int) =~= s@);
}

/// The line protocol line of one sample: measurement `air_quality`, tag
/// `device_id` (escaped), integer fields with an `i` suffix, readings with
/// two decimals, and the nanosecond timestamp.
pub open spec fn sample_line(s: MetricSample) -> Seq<char> {
    "air_quality,device_id="@ + escape_tag(s.device_id@)
        + " co2="@ + decimal(s.co2_ppm as nat)
        + "i,temperature="@ + s.temperature_celsius.fixed2@
        + ",humidity="@ + s.humidity_percent.fixed2@
        + ",pm25="@ + s.pm25_ug_m3.fixed2@
        + ",pm10="@ + s.pm10_ug_m3.fixed2@
        + ",tvoc="@ + s.tvoc_ppb.fixed2@
        + ",pressure="@ + s.pressure_hpa.fixed2@
        + ",battery_mv="@ + decimal(s.battery_millivolts as nat)
        + "i,rssi="@ + signed_decimal(s.rssi_dbm as int)
        + "i,status="@ + signed_decimal(s.status as int)
        + "i "@ + decimal(s.timestamp_ns as nat)
        + "\n"@
}

/// The line protocol body of a batch: one line per sample, in order.
pub open spec fn line_protocol(samples: Seq<MetricSample>) -> Seq<char>
    decreases samples.len(),
{
    if samples.len() == 0 {
        Seq::<char>::empty()
    } else {
        line_protocol(samples.drop_last()) + sample_line(samples.last())
    }
}

#[verifier::rlimit(60)]
fn push_sample_line(out: &mut String, s: &MetricSample)
    ensures
        final(out)@ == old(out)@ + sample_line(*s),
{
    out.append("air_quality,device_id=");
    push_escaped_tag(out, s.device_id.as_str());
    out.append(" co2=");
    push_decimal(out, s.co2_ppm as u64);
    out.append("i,temperature=");
    out.append(s.temperature_celsius.fixed2.as_str());
    out.append(",humidity=");
    out.append(s.humidity_percent.fixed2.as_str());
    out.append(",pm25=");
    out.append(s.pm25_ug_m3.fixed2.as_str());
    out.append(",pm10=");
    out.append(s.pm10_ug_m3.fixed2.as_str());
    out.append(",tvoc=");
    out.append(s.tvoc_ppb.fixed2.as_str());
    out.append(",pressure=");
    out.append(s.pressure_hpa.fixed2.as_str());
    out.append(",battery_mv=");
    push_decimal(out, s.battery_millivolts as u64);
    out.append("i,rssi=");
    push_signed_decimal(out, s.rssi_dbm as i64);
    out.append("i,status=");
    push_signed_decimal(out, s.status as i64);
    out.append("i ");
    push_decimal(out, s.timestamp_ns);
    out.append("\n");
    assert(out@ =~= old(out)@ + sample_line(*s));
}

/// Law: the body of two batches joined is the body of the first followed
/// by the body of the second (the body of no samples is empty).
pub proof fn lemma_line_protocol_concat(a: Seq<MetricSample>, b: Seq<MetricSample>)
    ensures
        line_protocol(a + b) == line_protocol(a) + line_protocol(b),
        line_protocol(Seq::<MetricSample>::empty()) == Seq::<char>::empty(),
    decreases b.len(),
{
    if b.len() == 0 {
        assert(a + b =~= a);
        assert(line_protocol(a) + Seq::<char>::empty() =~= line_protocol(a));
    } else {
        lemma_line_protocol_concat(a, b.drop_last());
        assert((a + b).drop_last() =~= a + b.drop_last());
        assert((a + b).last() == b.last());
        assert(line_protocol(a) + line_protocol(b.drop_last()) + sample_line(b.last()) =~= line_protocol(a)
            + (line_protocol(b.drop_last()) + sample_line(b.last())));
    }
}

/// Whether no device id of a batch holds a line feed.
pub open spec fn single_line_ids(samples: Seq<MetricSample>) -> bool {
    forall|i: int| 0 <= i < samples.len() ==> no_newline((#[trigger] samples[i]).device_id@)
}

/// Law: the body of a batch of well-formed samples whose device ids hold
/// no line feed has exactly one line feed per sample.
pub proof fn lemma_one_line_per_sample(samples: Seq<MetricSample>)
    requires
        forall|i: int| 0 <= i < samples.len() ==> (#[trigger] samples[i]).wf(),
        single_line_ids(samples),
    ensures
        newline_count(line_protocol(samples)) == samples.len(),
    decreases samples.len(),
{
    if samples.len() > 0 {
        let init = samples.drop_last();
        let last = samples.last();
        assert forall|i: int| 0 <= i < init.len() implies (#[trigger] init[i]).wf() by {
            assert(init[i] == samples[i]);
        }
        assert forall|i: int| 0 <= i < init.len() implies no_newline((#[trigger] init[i]).device_id@) by {
            assert(init[i] == samples[i]);
        }
        lemma_one_line_per_sample(init);
        assert(last == samples[samples.len() - 1]);
        lemma_sample_line_shape(last);
        let line = sample_line(last);
        lemma_newline_count_concat(line_protocol(init), line);
        assert(line.drop_last() + seq!['\n'] =~= line);
        lemma_newline_count_concat(line.drop_last(), seq!['\n']);
        lemma_no_newline_count(line.drop_last());
        assert(newline_count(seq!['\n']) == 1) by {
            assert(seq!['\n'].drop_last() =~= Seq::<char>::empty());
        }
    }
}

proof fn lemma_escape_tag_no_newline(s: Seq<char>)
    requires
        no_newline(s),
    ensures
        no_newline(escape_tag(s)),
    decreases s.len(),
{
    if s.len() > 0 {
        let t = s.drop_last();
        assert forall|i: int| 0 <= i < t.len() implies #[trigger] t[i] != '\n' by {
            assert(t[i] == s[i]);
        }
        lemma_escape_tag_no_newline(t);
        assert(s.last() == s[s.len() - 1]);
        assert(no_newline(escape_tag_char(s.last())));
        lemma_no_newline_concat(escape_tag(t), escape_tag_char(s.last()));
    }
}

/// Law: the line of a well-formed sample whose device id holds no line
/// feed ends with its only line feed.
pub proof fn lemma_sample_line_shape(s: MetricSample)
    requires
        s.wf(),
        no_newline(s.device_id@),
    ensures
        sample_line(s).last() == '\n',
        no_newline(sample_line(s).drop_last()),
{
    reveal_strlit("air_quality,device_id=");
    reveal_strlit(" co2=");
    reveal_strlit("i,temperature=");
    reveal_strlit(",humidity=");
    reveal_strlit(",pm25=");
    reveal_strlit(",pm10=");
    reveal_strlit(",tvoc=");
    reveal_strlit(",pressure=");
    reveal_strlit(",battery_mv=");
    reveal_strlit("i,rssi=");
    reveal_strlit("i,status=");
    reveal_strlit("i ");
    lemma_escape_tag_no_newline(s.device_id@);
    lemma_fixed2_no_newline(s.temperature_celsius);
    lemma_fixed2_no_newline(s.humidity_percent);
    lemma_fixed2_no_newline(s.pm25_ug_m3);
    lemma_fixed2_no_newline(s.pm10_ug_m3);
    lemma_fixed2_no_newline(s.tvoc_ppb);
    lemma_fixed2_no_newline(s.pressure_hpa);
    lemma_decimal_no_newline(s.co2_ppm as nat);
    lemma_decimal_no_newline(s.battery_millivolts as nat);
    lemma_decimal_no_newline(s.timestamp_ns as nat);
    lemma_signed_decimal_no_newline(s.rssi_dbm as int);
    lemma_signed_decimal_no_newline(s.status as int);
    let a0 = "air_quality,device_id="@;
    assert(no_newline(a0));
    let p1 = escape_tag(s.device_id@);
    lemma_no_newline_concat(a0, p1);
    let a1 = a0 + p1;
    let p2 = " co2="@;
    assert(no_newline(p2));
    lemma_no_newline_concat(a1, p2);
    let a2 = a1 + p2;
    let p3 = decimal(s.co2_ppm as nat);
    lemma_no_newline_concat(a2, p3);
    let a3 = a2 + p3;
    let p4 = "i,temperature="@;
    assert(no_newline(p4));
    lemma_no_newline_concat(a3, p4);
    let a4 = a3 + p4;
    let p5 = s.temperature_celsius.fixed2@;
    lemma_no_newline_concat(a4, p5);
    let a5 = a4 + p5;
    let p6 = ",humidity="@;
    assert(no_newline(p6));
    lemma_no_newline_concat(a5, p6);
    let a6 = a5 + p6;
    let p7 = s.humidity_percent.fixed2@;
    lemma_no_newline_concat(a6, p7);
    let a7 = a6 + p7;
    let p8 = ",pm25="@;
    assert(no_newline(p8));
    lemma_no_newline_concat(a7, p8);
    let a8 = a7 + p8;
    let p9 = s.pm25_ug_m3.fixed2@;
    lemma_no_newline_concat(a8, p9);
    let a9 = a8 + p9;
    let p10 = ",pm10="@;
    assert(no_newline(p10));
    lemma_no_newline_concat(a9, p10);
    let a10 = a9 + p10;
    let p11 = s.pm10_ug_m3.fixed2@;
    lemma_no_newline_concat(a10, p11);
    let a11 = a10 + p11;
    let p12 = ",tvoc="@;
    assert(no_newline(p12));
    lemma_no_newline_concat(a11, p12);
    let a12 = a11 + p12;
    let p13 = s.tvoc_ppb.fixed2@;
    lemma_no_newline_concat(a12, p13);
    let a13 = a12 + p13;
    let p14 = ",pressure="@;
    assert(no_newline(p14));
    lemma_no_newline_concat(a13, p14);
    let a14 = a13 + p14;
    let p15 = s.pressure_hpa.fixed2@;
    lemma_no_newline_concat(a14, p15);
    let a15 = a14 + p15;
    let p16 = ",battery_mv="@;
    assert(no_newline(p16));
    lemma_no_newline_concat(a15, p16);
    let a16 = a15 + p16;
    let p17 = decimal(s.battery_millivolts as nat);
    lemma_no_newline_concat(a16, p17);
    let a17 = a16 + p17;
    let p18 = "i,rssi="@;
    assert(no_newline(p18));
    lemma_no_newline_concat(a17, p18);
    let a18 = a17 + p18;
    let p19 = signed_decimal(s.rssi_dbm as int);
    lemma_no_newline_concat(a18, p19);
    let a19 = a18 + p19;
    let p20 = "i,status="@;
    assert(no_newline(p20));
    lemma_no_newline_concat(a19, p20);
    let a20 = a19 + p20;
    let p21 = signed_decimal(s.status as int);
    lemma_no_newline_concat(a20, p21);
    let a21 = a20 + p21;
    let p22 = "i "@;
    assert(no_newline(p22));
    lemma_no_newline_concat(a21, p22);
    let a22 = a21 + p22;
    let p23 = decimal(s.timestamp_ns as nat);
    lemma_no_newline_concat(a22, p23);
    let a23 = a22 + p23;
    reveal_strlit("\n");
    assert(sample_line(s) == a23 + "\n"@);
    assert(sample_line(s) =~= a23.push('\n'));
    assert(sample_line(s).drop_last() =~= a23);
}

// ---------------------------------------------------------------------------
// Write URL
// ---------------------------------------------------------------------------

/// `s` without its trailing `/` characters (`trim_end_matches('/')`).
pub open spec fn trim_trailing_slashes(s: Seq<char>) -> Seq<char>
    decreases s.len(),
{
    if s.len() > 0 && s.last() == '/' {
        trim_trailing_slashes(s.drop_last())
    } else {
        s
    }
}

/// The InfluxDB v2 write endpoint for a configuration, with nanosecond
/// precision; the bucket is given both as `db` and as `bucket`.
pub open spec fn write_url(url: Seq<char>, bucket: Seq<char>, org: Seq<char>) -> Seq<char> {
    trim_trailing_slashes(url) + "/api/v2/write?db="@ + bucket + "&bucket="@ + bucket + "&org="@
        + org + "&precision=ns"@
}

proof fn lemma_trim_prefix(s: Seq<char>, j: int)
    requires
        0 <= j <= s.len(),
        j == 0 || s[j - 1] != '/',
        forall|k: int| j <= k < s.len() ==> s[k] == '/',
    ensures
        trim_trailing_slashes(s) == s.subrange(0, j),
    decreases s.len(),
{
    if j == s.len() {
        assert(s.subrange(0, j) =~= s);
    } else {
        lemma_trim_prefix(s.drop_last(), j);
        assert(s.drop_last().subrange(0, j) =~= s.subrange(0, j));
    }
}

fn build_write_url(url: &str, bucket: &str, org: &str) -> (w: String)
    ensures
        w@ == write_url(url@, bucket@, org@),
{
    let len = url.unicode_len();
    let mut j = len;
    while j > 0 && url.get_char(j - 1) == '/'
        invariant
            len == url@.len(),
            j <= len,
            forall|k: int| j <= k < len ==> url@[k] == '/',
        decreases j,
    {
        j = j - 1;
    }
    proof {
        lemma_trim_prefix(url@, j as int);
    }
    let mut out = String::from_str(url.substring_char(0, j));
    out.append("/api/v2/write?db=");
    out.append(bucket);
    out.append("&bucket=");
    out.append(bucket);
    out.append("&org=");
    out.append(org);
    out.append("&precision=ns");
    assert(out@ =~= write_url(url@, bucket@, org@));
    out
}

/// The value of the `Authorization` header sent with every write.
pub open spec fn authorization_value(token: Seq<char>) -> Seq<char> {
    "Token "@ + token
}

/// Builds the `Authorization` header value for an InfluxDB API token.
pub fn authorization_header(token: &str) -> (value: String)
    ensures
        value@ == authorization_value(token@),
{
    let mut out = String::from_str("Token ");
    out.append(token);
    out
}

/// Whether a byte may stand in an HTTP header value: visible ASCII, space,
/// horizontal tab, or any byte from 128 up; control characters and DEL may
/// not.
pub open spec fn header_byte_valid(b: u8) -> bool {
    (b >= 32 && b != 127) || b == 9
}

/// Whether every byte may stand in an HTTP header value.
pub open spec fn header_bytes_valid(bytes: Seq<u8>) -> bool {
    forall|i: int| 0 <= i < bytes.len() ==> header_byte_valid(#[trigger] bytes[i])
}

/// Whether `reqwest::header::HeaderValue::from_str` accepts `value`: it
/// accepts exactly the texts whose UTF-8 bytes may all stand in a header
/// value.
#[verifier::external_body]
fn header_value_accepts(value: &str) -> (ok: bool)
    ensures
        ok == header_bytes_valid(encode_utf8(value@)),
{
    reqwest::header::HeaderValue::from_str(value).is_ok()
}

/// Whether the `Authorization` header built from a token is a valid header
/// value; the HTTP client cannot be built with one that is not.
pub fn token_header_valid(token: &str) -> (ok: bool)
    ensures
        ok == header_bytes_valid(encode_utf8(authorization_value(token@))),
{
    let value = authorization_header(token);
    header_value_accepts(value.as_str())
}

// ---------------------------------------------------------------------------
// The sink
// ---------------------------------------------------------------------------

/// What the writer does with a batch.
pub enum WritePlan {
    /// Nothing to send: the batch is empty.
    Nothing,
    /// The circuit breaker refuses the write.
    Rejected,
    /// Send this line protocol body.
    Send(String),
}

/// How the HTTP exchange of a write ended.
pub enum TransportOutcome {
    /// The request could not be sent or no response came back.
    Failed,
    /// The server answered with this status code.
    Status(u16),
}

/// Why a write failed.
#[derive(Debug, Clone, Copy, PartialEq, Eq, Structural)]
pub enum WriteFailure {
    /// The HTTP transport failed.
    Transport,
    /// The server answered with a 5xx status.
    ServerError(u16),
    /// The server answered with another non-2xx status.
    ClientError(u16),
}

/// The verdict on a write for a transport outcome.
pub open spec fn verdict(outcome: TransportOutcome) -> Result<(), WriteFailure> {
    match outcome {
        TransportOutcome::Failed => Err(WriteFailure::Transport),
        TransportOutcome::Status(code) => if 200 <= code <= 299 {
            Ok(())
        } else if 500 <= code <= 599 {
            Err(WriteFailure::ServerError(code))
        } else {
            Err(WriteFailure::ClientError(code))
        },
    }
}

/// Whether an outcome counts as a failure of the endpoint: a transport
/// failure or a 5xx answer.
pub open spec fn failure_outcome(outcome: TransportOutcome) -> bool {
    match outcome {
        TransportOutcome::Failed => true,
        TransportOutcome::Status(code) => 500 <= code <= 599,
    }
}

/// Whether an outcome counts as a failure of the endpoint, which the
/// breaker records.
pub fn is_failure_outcome(outcome: &TransportOutcome) -> (failure: bool)
    ensures
        failure == failure_outcome(*outcome),
{
    match outcome {
        TransportOutcome::Failed => true,
        TransportOutcome::Status(code) => 500 <= *code && *code <= 599,
    }
}

/// The breaker after a transport outcome: a 2xx answer is a success, a
/// transport failure or a 5xx answer is a failure, any other answer leaves
/// the breaker as it is.
pub open spec fn breaker_after_outcome(v: BreakerView, outcome: TransportOutcome) -> BreakerView {
    match outcome {
        TransportOutcome::Failed => after_failure(v),
        TransportOutcome::Status(code) => if 200 <= code <= 299 {
            after_success(v)
        } else if 500 <= code <= 599 {
            after_failure(v)
        } else {
            v
        },
    }
}

/// Law: only a 2xx answer resets the failure count; an answer that is
/// neither 2xx nor 5xx leaves the breaker exactly as it was, and a
/// transport failure or 5xx answer adds one failure.
pub proof fn lemma_only_success_resets(v: BreakerView, outcome: TransportOutcome)
    ensures
        !(outcome matches TransportOutcome::Status(code) && 200 <= code <= 299) ==> breaker_after_outcome(
            v,
            outcome,
        ).consecutive_failures >= v.consecutive_failures,
        outcome matches TransportOutcome::Status(code) && !(200 <= code <= 299) && !(500 <= code <= 599)
            ==> breaker_after_outcome(v, outcome) == v,
        failure_outcome(outcome) ==> breaker_after_outcome(v, outcome).consecutive_failures
            == v.consecutive_failures + 1,
{
}

/// What a non-empty batch leads to, given whether the breaker's cooldown
/// has elapsed: the breaker's admission decides, and an admitted batch is
/// sent as its line protocol body.
pub open spec fn planned(
    before: BreakerView,
    after: BreakerView,
    cooldown_elapsed: bool,
    samples: Seq<MetricSample>,
    plan: WritePlan,
) -> bool {
    &&& after == after_admission(before, cooldown_elapsed)
    &&& match plan {
        WritePlan::Send(body) => admits(before, cooldown_elapsed) && body@ == line_protocol(samples),
        WritePlan::Rejected => !admits(before, cooldown_elapsed),
        WritePlan::Nothing => false,
    }
}

/// The breaker's opening instant after a transport outcome settled at
/// `now`: a success closes it, a failure is recorded at `now`, any other
/// answer keeps it.
pub open spec fn opened_after_outcome(
    v: BreakerView,
    opened_at: Option<Instant>,
    outcome: TransportOutcome,
    now: Instant,
) -> Option<Instant> {
    match outcome {
        TransportOutcome::Failed => opened_after_failure(v, opened_at, now),
        TransportOutcome::Status(code) => if 200 <= code <= 299 {
            None
        } else if 500 <= code <= 599 {
            opened_after_failure(v, opened_at, now)
        } else {
            opened_at
        },
    }
}

/// InfluxDB v2 sink: the write endpoint and the circuit breaker guarding it.
pub struct InfluxDbSink {
    write_url: String,
    circuit_breaker: CircuitBreaker,
}

impl InfluxDbSink {
    /// The write endpoint.
    pub closed spec fn url(&self) -> Seq<char> {
        self.write_url@
    }

    /// The breaker guarding the endpoint.
    pub closed spec fn breaker(&self) -> CircuitBreaker {
        self.circuit_breaker
    }

    /// Internal consistency of the breaker.
    pub open spec fn wf(&self) -> bool {
        self.breaker().wf()
    }

    /// A sink for the configured InfluxDB instance, with a Closed breaker.
    pub fn new(config: &AppConfig) -> (sink: Self)
        ensures
            sink.wf(),
            sink.url() == write_url(config.influx_url@, config.influx_bucket@, config.influx_org@),
            sink.breaker().view() == initial_view(
                config.circuit_breaker_threshold as nat,
                config.circuit_breaker_cooldown_secs as nat * 1_000_000_000,
            ),
    {
        let write_url = build_write_url(
            config.influx_url.as_str(),
            config.influx_bucket.as_str(),
            config.influx_org.as_str(),
        );
        let circuit_breaker = CircuitBreaker::new(
            config.circuit_breaker_threshold,
            duration_from_secs(config.circuit_breaker_cooldown_secs),
        );
        InfluxDbSink { write_url, circuit_breaker }
    }

    /// The breaker guarding the endpoint.
    pub fn circuit_breaker(&self) -> (breaker: &CircuitBreaker)
        ensures
            *breaker == self.breaker(),
    {
        &self.circuit_breaker
    }

    /// The write endpoint.
    pub fn write_url(&self) -> (url: &String)
        ensures
            url@ == self.url(),
    {
        &self.write_url
    }

    /// Formats a batch of samples into InfluxDB line protocol, one line per
    /// sample.
    pub fn format_line_protocol(samples: &[MetricSample]) -> (body: String)
        ensures
            body@ == line_protocol(samples@),
    {
        let mut out = String::new();
        let n = samples.len();
        let mut i: usize = 0;
        while i < n
            invariant
                n == samples@.len(),
                i <= n,
                out@ == line_protocol(samples@.subrange(0, i as int)),
            decreases n - i,
        {
            push_sample_line(&mut out, &samples[i]);
            proof {
                assert(samples@.subrange(0, i + 1).drop_last() =~= samples@.subrange(0, i as int));
            }
            i = i + 1;
        }
        assert(samples@.subrange(0, n as int) =~= samples@);
        out
    }

    /// Decides what to do with a batch, given whether the breaker's cooldown
    /// has elapsed: an empty batch is not sent and the breaker is not asked;
    /// otherwise the breaker decides, and an admitted batch is sent as line
    /// protocol.
    pub fn plan_write_after(&mut self, samples: &[MetricSample], cooldown_elapsed: bool) -> (plan: WritePlan)
        requires
            old(self).wf(),
        ensures
            final(self).wf(),
            final(self).url() == old(self).url(),
            final(self).breaker().opened_at() == old(self).breaker().opened_at(),
            samples@.len() == 0 ==> plan is Nothing && final(self).breaker() == old(self).breaker(),
            samples@.len() > 0 ==> planned(
                old(self).breaker().view(),
                final(self).breaker().view(),
                cooldown_elapsed,
                samples@,
                plan,
            ),
    {
        if samples.len() == 0 {
            return WritePlan::Nothing;
        }
        if !self.circuit_breaker.can_execute_after(cooldown_elapsed) {
            return WritePlan::Rejected;
        }
        WritePlan::Send(Self::format_line_protocol(samples))
    }

    /// Decides what to do with a batch at the instant `now`: an empty batch
    /// is not sent and the breaker is not asked; otherwise the breaker
    /// decides at `now` (see [`CircuitBreaker::can_execute_at`]), and an
    /// admitted batch is sent as line protocol.
    pub fn plan_write_at(&mut self, samples: &[MetricSample], now: Instant) -> (plan: WritePlan)
        requires
            old(self).wf(),
        ensures
            final(self).wf(),
            final(self).url() == old(self).url(),
            final(self).breaker().opened_at() == old(self).breaker().opened_at(),
            samples@.len() == 0 ==> plan is Nothing && final(self).breaker() == old(self).breaker(),
            samples@.len() > 0 ==> planned(
                old(self).breaker().view(),
                final(self).breaker().view(),
                cooldown_elapsed_at(
                    old(self).breaker().opened_at(),
                    old(self).breaker().view().cooldown_nanos,
                    now,
                ),
                samples@,
                plan,
            ),
    {
        if samples.len() == 0 {
            return WritePlan::Nothing;
        }
        if !self.circuit_breaker.can_execute_at(now) {
            return WritePlan::Rejected;
        }
        WritePlan::Send(Self::format_line_protocol(samples))
    }

    /// Decides what to do with a batch, reading the clock for the current
    /// instant (see [`InfluxDbSink::plan_write_at`]).
    pub fn plan_write(&mut self, samples: &[MetricSample]) -> (plan: WritePlan)
        requires
            old(self).wf(),
        ensures
            final(self).wf(),
            final(self).url() == old(self).url(),
            final(self).breaker().opened_at() == old(self).breaker().opened_at(),
            samples@.len() == 0 ==> plan is Nothing && final(self).breaker() == old(self).breaker(),
            samples@.len() > 0 ==> exists|now: Instant|
                planned(
                    old(self).breaker().view(),
                    final(self).breaker().view(),
                    #[trigger] cooldown_elapsed_at(
                        old(self).breaker().opened_at(),
                        old(self).breaker().view().cooldown_nanos,
                        now,
                    ),
                    samples@,
                    plan,
                ),
    {
        if samples.len() == 0 {
            return WritePlan::Nothing;
        }
        let now = instant_now();
        self.plan_write_at(samples, now)
    }

    /// Settles a sent batch at the instant `now` with the outcome of its
    /// HTTP exchange: the breaker records a success on a 2xx answer and a
    /// failure on a transport failure or a 5xx answer; a failure that trips
    /// the breaker restarts its cooldown at `now`.
    pub fn settle_write_at(&mut self, outcome: TransportOutcome, now: Instant) -> (result: Result<(), WriteFailure>)
        requires
            old(self).wf(),
            failure_outcome(outcome) ==> old(self).breaker().view().consecutive_failures < u32::MAX,
        ensures
            final(self).wf(),
            final(self).url() == old(self).url(),
            result == verdict(outcome),
            final(self).breaker().view() == breaker_after_outcome(old(self).breaker().view(), outcome),
            outcome matches TransportOutcome::Status(code) && 200 <= code <= 299 ==> {
                &&& final(self).breaker().view().state == State::Closed
                &&& final(self).breaker().view().consecutive_failures == 0
                &&& final(self).breaker().opened_at() is None
            },
            failure_outcome(outcome) ==> {
                &&& final(self).breaker().view().consecutive_failures == old(self).breaker().view().consecutive_failures + 1
                &&& final(self).breaker().view().state == if old(self).breaker().view().state == State::HalfOpen
                    || old(self).breaker().view().consecutive_failures + 1 >= old(self).breaker().view().failure_threshold {
                    State::Open
                } else {
                    old(self).breaker().view().state
                }
            },
            outcome matches TransportOutcome::Status(code) && !(200 <= code <= 299) && !(500 <= code <= 599) ==> {
                &&& final(self).breaker().view() == old(self).breaker().view()
                &&& final(self).breaker().opened_at() == old(self).breaker().opened_at()
            },
            final(self).breaker().view().failure_threshold == old(self).breaker().view().failure_threshold,
            final(self).breaker().view().cooldown_nanos == old(self).breaker().view().cooldown_nanos,
            final(self).breaker().opened_at() == opened_after_outcome(
                old(self).breaker().view(),
                old(self).breaker().opened_at(),
                outcome,
                now,
            ),
    {
        match outcome {
            TransportOutcome::Failed => {
                self.circuit_breaker.record_failure_at(now);
                Err(WriteFailure::Transport)
            },
            TransportOutcome::Status(code) => {
                if 200 <= code && code <= 299 {
                    self.circuit_breaker.record_success();
                    Ok(())
                } else if 500 <= code && code <= 599 {
                    self.circuit_breaker.record_failure_at(now);
                    Err(WriteFailure::ServerError(code))
                } else {
                    Err(WriteFailure::ClientError(code))
                }
            },
        }
    }

    /// Settles a sent batch, reading the clock for the current instant (see
    /// [`InfluxDbSink::settle_write_at`]).
    pub fn settle_write(&mut self, outcome: TransportOutcome) -> (result: Result<(), WriteFailure>)
        requires
            old(self).wf(),
            failure_outcome(outcome) ==> old(self).breaker().view().consecutive_failures < u32::MAX,
        ensures
            final(self).wf(),
            final(self).url() == old(self).url(),
            result == verdict(outcome),
            final(self).breaker().view() == breaker_after_outcome(old(self).breaker().view(), outcome),
            outcome matches TransportOutcome::Status(code) && 200 <= code <= 299 ==> {
                &&& final(self).breaker().view().state == State::Closed
                &&& final(self).breaker().view().consecutive_failures == 0
                &&& final(self).breaker().opened_at() is None
            },
            failure_outcome(outcome) ==> {
                &&& final(self).breaker().view().consecutive_failures == old(self).breaker().view().consecutive_failures + 1
                &&& final(self).breaker().view().state == if old(self).breaker().view().state == State::HalfOpen
                    || old(self).breaker().view().consecutive_failures + 1 >= old(self).breaker().view().failure_threshold {
                    State::Open
                } else {
                    old(self).breaker().view().state
                }
            },
            outcome matches TransportOutcome::Status(code) && !(200 <= code <= 299) && !(500 <= code <= 599) ==> {
                &&& final(self).breaker().view() == old(self).breaker().view()
                &&& final(self).breaker().opened_at() == old(self).breaker().opened_at()
            },
            final(self).breaker().view().failure_threshold == old(self).breaker().view().failure_threshold,
            final(self).breaker().view().cooldown_nanos == old(self).breaker().view().cooldown_nanos,
            exists|now: Instant|
                final(self).breaker().opened_at() == #[trigger] opened_after_outcome(
                    old(self).breaker().view(),
                    old(self).breaker().opened_at(),
                    outcome,
                    now,
                ),
    {
        let now = instant_now();
        self.settle_write_at(outcome, now)
    }

    /// The failure counter of the breaker, for callers that must check it
    /// before settling a write.
    pub fn consecutive_failures(&self) -> (n: u32)
        ensures
            n == self.breaker().view().consecutive_failures,
    {
        self.circuit_breaker.consecutive_failures()
    }
}

} // verus!
