//! Decisions of the ingestion loop: the anti-spoofing topic check, the
//! packet timestamp, the integer part of delta reconstruction, and the
//! per-device keyframe registry that delta batches are applied against.

use vstd::prelude::*;
use crate::proto::DeltaSample;
use crate::registry::{distinct_keys, entry_value, keyed, lemma_upsert_lookup, lookup, upsert, upsert_entry};

verus! {

/// The pieces of `s` between occurrences of `sep`, as `str::split` yields
/// them (empty pieces included; an empty text gives one empty piece).
pub open spec fn split_on(s: Seq<char>, sep: char) -> Seq<Seq<char>>
    decreases s.len(),
{
    if s.len() == 0 {
        seq![Seq::<char>::empty()]
    } else {
        let rest = split_on(s.drop_first(), sep);
        if s[0] == sep {
            seq![Seq::<char>::empty()] + rest
        } else {
            rest.update(0, seq![s[0]] + rest[0])
        }
    }
}

proof fn lemma_split_nonempty(s: Seq<char>, sep: char)
    ensures
        split_on(s, sep).len() >= 1,
    decreases s.len(),
{
    if s.len() > 0 {
        lemma_split_nonempty(s.drop_first(), sep);
    }
}

/// Splitting at the first separator: the piece before it, then the pieces
/// of the text after it; a text without separator is one piece.
proof fn lemma_split_first(s: Seq<char>, sep: char, p: int)
    requires
        0 <= p <= s.len(),
        forall|k: int| 0 <= k < p ==> s[k] != sep,
        p == s.len() || s[p] == sep,
    ensures
        p == s.len() ==> split_on(s, sep) == seq![s],
        p < s.len() ==> split_on(s, sep) == seq![s.subrange(0, p)] + split_on(
            s.subrange(p + 1, s.len() as int),
            sep,
        ),
    decreases p,
{
    if p == 0 {
        if s.len() == 0 {
            assert(s =~= Seq::<char>::empty());
        } else {
            assert(s.subrange(0, 0) =~= Seq::<char>::empty());
            assert(s.subrange(1, s.len() as int) =~= s.drop_first());
        }
    } else {
        let t = s.drop_first();
        lemma_split_first(t, sep, p - 1);
        lemma_split_nonempty(t, sep);
        if p == s.len() {
            assert(seq![s[0]] + t =~= s);
            assert(split_on(s, sep) =~= seq![s]);
        } else {
            assert(t.subrange(p, t.len() as int) =~= s.subrange(p + 1, s.len() as int));
            assert(seq![s[0]] + t.subrange(0, p - 1) =~= s.subrange(0, p));
            assert(split_on(s, sep) =~= seq![s.subrange(0, p)] + split_on(
                s.subrange(p + 1, s.len() as int),
                sep,
            ));
        }
    }
}

/// Whether a packet published on `topic` claims another device than the one
/// named by the topic: the topic has at least three `/`-separated pieces and
/// its second piece differs from the payload's device id.
pub open spec fn topic_mismatch(topic: Seq<char>, device_id: Seq<char>) -> bool {
    let parts = split_on(topic, '/');
    parts.len() >= 3 && parts[1] != device_id
}

/// The first position at or after `from` holding `sep`, or the length.
fn find_char(s: &str, len: usize, from: usize, sep: char) -> (p: usize)
    requires
        len == s@.len(),
        from <= len,
    ensures
        from <= p <= len,
        forall|k: int| from <= k < p ==> s@[k] != sep,
        p == len || s@[p as int] == sep,
{
    let mut p = from;
    while p < len && s.get_char(p) != sep
        invariant
            len == s@.len(),
            from <= p <= len,
            forall|k: int| from <= k < p ==> s@[k] != sep,
        decreases len - p,
    {
        p = p + 1;
    }
    p
}

/// Whether the characters `from..to` of `s` are exactly `t`.
fn range_equals(s: &str, from: usize, to: usize, t: &str) -> (eq: bool)
    requires
        from <= to <= s@.len(),
    ensures
        eq == (s@.subrange(from as int, to as int) == t@),
{
    let n = t.unicode_len();
    if to - from != n {
        return false;
    }
    let mut i: usize = 0;
    while i < n
        invariant
            n == t@.len(),
            to - from == n,
            from <= to <= s@.len(),
            i <= n,
            forall|k: int| 0 <= k < i ==> s@[from + k] == t@[k],
        decreases n - i,
    {
        if s.get_char(from + i) != t.get_char(i) {
            assert(s@.subrange(from as int, to as int)[i as int] != t@[i as int]);
            return false;
        }
        i = i + 1;
    }
    assert(s@.subrange(from as int, to as int) =~= t@);
    true
}

/// Anti-spoofing check: whether the device named by the topic
/// (`sensors/<device>/airquality`) differs from the device id in the payload.
pub fn is_spoofed(topic: &str, device_id: &str) -> (spoofed: bool)
    ensures
        spoofed == topic_mismatch(topic@, device_id@),
{
    let len = topic.unicode_len();
    let p1 = find_char(topic, len, 0, '/');
    proof {
        lemma_split_first(topic@, '/', p1 as int);
    }
    if p1 == len {
        return false;
    }
    let ghost rest = topic@.subrange(p1 + 1, len as int);
    let p2 = find_char(topic, len, p1 + 1, '/');
    proof {
        let q = p2 - (p1 + 1);
        assert forall|k: int| 0 <= k < q implies rest[k] != '/' by {
            assert(rest[k] == topic@[p1 + 1 + k]);
        }
        lemma_split_first(rest, '/', q);
        lemma_split_nonempty(rest, '/');
        if p2 < len {
            let rest2 = rest.subrange(q + 1, rest.len() as int);
            lemma_split_nonempty(rest2, '/');
            assert(rest.subrange(0, q) =~= topic@.subrange(p1 + 1, p2 as int));
        }
    }
    if p2 == len {
        return false;
    }
    !range_equals(topic, p1 + 1, p2, device_id)
}

/// Packet timestamps before 2001-09-09 (under 10^9 s) come from a device
/// without a synchronized clock and are replaced by the ingestor's clock.
pub open spec fn base_timestamp(packet_sec: u64, now_sec: u64) -> u64 {
    if packet_sec >= 1_000_000_000 {
        packet_sec
    } else {
        now_sec
    }
}

/// The base timestamp of a packet, in seconds.
pub fn resolve_base_timestamp(packet_sec: u64, now_sec: u64) -> (sec: u64)
    ensures
        sec == base_timestamp(packet_sec, now_sec),
{
    if packet_sec >= 1_000_000_000 {
        packet_sec
    } else {
        now_sec
    }
}

/// Seconds to nanoseconds.
pub fn seconds_to_nanos(sec: u64) -> (ns: u64)
    requires
        sec * 1_000_000_000 <= u64::MAX,
    ensures
        ns == sec * 1_000_000_000,
{
    sec * 1_000_000_000
}

/// The CO2 concentration after a delta: never below zero, truncated to 32
/// bits.
pub open spec fn co2_after_delta(base_ppm: u32, delta_ppm: i32) -> u32 {
    let v = base_ppm as int + delta_ppm as int;
    ((if v < 0 { 0 } else { v }) % 0x1_0000_0000) as u32
}

/// The timestamp of a delta sample: the packet's timestamp plus the delta's
/// offset in seconds.
pub open spec fn delta_timestamp(packet_ns: u64, offset_sec: u32) -> int {
    packet_ns as int + offset_sec as int * 1_000_000_000
}

/// The integer readings reconstructed from one delta sample.
pub struct DeltaStep {
    pub co2_ppm: u32,
    pub timestamp_ns: u64,
}

/// Applies the integer part of a delta sample to the last known CO2 value.
pub fn apply_delta(base_co2_ppm: u32, packet_timestamp_ns: u64, delta: &DeltaSample) -> (step: DeltaStep)
    requires
        delta_timestamp(packet_timestamp_ns, delta.time_offset_sec) <= u64::MAX,
    ensures
        step.co2_ppm == co2_after_delta(base_co2_ppm, delta.co2_delta_ppm),
        step.timestamp_ns == delta_timestamp(packet_timestamp_ns, delta.time_offset_sec),
{
    let offset_ns = (delta.time_offset_sec as u64) * 1_000_000_000;
    let sum: i64 = base_co2_ppm as i64 + delta.co2_delta_ppm as i64;
    let clamped: i64 = if sum < 0 { 0 } else { sum };
    let co2 = clamped as u32;
    assert(co2 == clamped % 0x1_0000_0000) by (bit_vector)
        requires
            co2 == clamped as u32,
            clamped >= 0,
    ;
    DeltaStep { co2_ppm: co2, timestamp_ns: packet_timestamp_ns + offset_ns }
}

/// The CO2 values reconstructed from a run of deltas, each applied to the
/// previous result.
pub open spec fn co2_run(base_ppm: u32, deltas: Seq<DeltaSample>) -> Seq<u32>
    decreases deltas.len(),
{
    if deltas.len() == 0 {
        Seq::<u32>::empty()
    } else {
        let prev = co2_run(base_ppm, deltas.drop_last());
        let last = if prev.len() == 0 { base_ppm } else { prev.last() };
        prev.push(co2_after_delta(last, deltas.last().co2_delta_ppm))
    }
}

/// Reconstructs the integer readings of a delta batch against the last
/// keyframe: each delta applies to the CO2 value the previous one produced,
/// and its timestamp is the packet's plus its own offset.
pub fn reconstruct_deltas(base_co2_ppm: u32, packet_timestamp_ns: u64, deltas: &[DeltaSample]) -> (steps: Vec<DeltaStep>)
    requires
        forall|i: int|
            0 <= i < deltas@.len() ==> delta_timestamp(
                packet_timestamp_ns,
                (#[trigger] deltas@[i]).time_offset_sec,
            ) <= u64::MAX,
    ensures
        steps@.len() == deltas@.len(),
        forall|i: int|
            0 <= i < steps@.len() ==> (#[trigger] steps@[i]).co2_ppm == co2_run(
                base_co2_ppm,
                deltas@,
            )[i] && steps@[i].timestamp_ns == delta_timestamp(
                packet_timestamp_ns,
                deltas@[i].time_offset_sec,
            ),
{
    let mut steps: Vec<DeltaStep> = Vec::new();
    let mut co2 = base_co2_ppm;
    let n = deltas.len();
    let mut i: usize = 0;
    while i < n
        invariant
            n == deltas@.len(),
            i <= n,
            steps@.len() == i,
            co2_run(base_co2_ppm, deltas@.subrange(0, i as int)).len() == i,
            co2 == if i == 0 { base_co2_ppm } else { co2_run(base_co2_ppm, deltas@.subrange(0, i as int)).last() },
            forall|j: int|
                0 <= j < i ==> (#[trigger] steps@[j]).co2_ppm == co2_run(
                    base_co2_ppm,
                    deltas@.subrange(0, i as int),
                )[j] && steps@[j].timestamp_ns == delta_timestamp(
                    packet_timestamp_ns,
                    deltas@[j].time_offset_sec,
                ),
            forall|j: int|
                0 <= j < deltas@.len() ==> delta_timestamp(
                    packet_timestamp_ns,
                    (#[trigger] deltas@[j]).time_offset_sec,
                ) <= u64::MAX,
        decreases n - i,
    {
        let ghost prefix = deltas@.subrange(0, i as int);
        let ghost next = deltas@.subrange(0, i + 1);
        assert(next.drop_last() =~= prefix);
        assert(next.last() == deltas@[i as int]);
        let step = apply_delta(co2, packet_timestamp_ns, &deltas[i]);
        co2 = step.co2_ppm;
        steps.push(step);
        i = i + 1;
    }
    assert(deltas@.subrange(0, n as int) =~= deltas@);
    steps
}


/// The CO2 value a run of deltas ends on: the last reconstructed value, or
/// the base itself for an empty run.
pub open spec fn co2_after_run(base_ppm: u32, deltas: Seq<DeltaSample>) -> u32 {
    if deltas.len() == 0 {
        base_ppm
    } else {
        co2_run(base_ppm, deltas).last()
    }
}

proof fn lemma_co2_run_len(base_ppm: u32, deltas: Seq<DeltaSample>)
    ensures
        co2_run(base_ppm, deltas).len() == deltas.len(),
    decreases deltas.len(),
{
    if deltas.len() > 0 {
        lemma_co2_run_len(base_ppm, deltas.drop_last());
    }
}

/// The last keyframe CO2 value of each device, which delta batches from
/// that device are reconstructed against. A device is present once its
/// first full sample has been seen.
pub struct KeyframeRegistry {
    entries: Vec<(String, u32)>,
}

impl KeyframeRegistry {
    /// The registry as (device id, CO2 baseline) entries, each device once.
    pub closed spec fn view(&self) -> Seq<(Seq<char>, u32)> {
        keyed(self.entries@)
    }

    /// No device occurs twice.
    pub open spec fn wf(&self) -> bool {
        distinct_keys(self.view())
    }

    /// A registry in which no keyframe has been seen.
    pub fn new() -> (r: Self)
        ensures
            r.wf(),
            r.view() == Seq::<(Seq<char>, u32)>::empty(),
    {
        let r = KeyframeRegistry { entries: Vec::new() };
        assert(r.view() =~= Seq::<(Seq<char>, u32)>::empty());
        r
    }

    /// Records the CO2 value of a full sample as the device's baseline.
    pub fn record_keyframe(&mut self, device_id: &str, co2_ppm: u32)
        requires
            old(self).wf(),
        ensures
            final(self).wf(),
            final(self).view() == upsert(old(self).view(), device_id@, co2_ppm),
    {
        upsert_entry(&mut self.entries, device_id, co2_ppm);
    }

    /// The device's current CO2 baseline, if a keyframe has been seen.
    pub fn baseline(&self, device_id: &str) -> (co2: Option<u32>)
        requires
            self.wf(),
        ensures
            co2 == lookup(self.view(), device_id@),
    {
        entry_value(&self.entries, device_id)
    }

    /// Reconstructs the integer readings of a delta batch from `device_id`
    /// against its baseline, and moves the baseline to the value the batch
    /// ends on. Without a keyframe for the device the batch cannot be
    /// reconstructed: the result is `None` and the registry is unchanged.
    pub fn apply_delta_batch(&mut self, device_id: &str, packet_timestamp_ns: u64, deltas: &[DeltaSample]) -> (steps: Option<Vec<DeltaStep>>)
        requires
            old(self).wf(),
            forall|i: int|
                0 <= i < deltas@.len() ==> delta_timestamp(
                    packet_timestamp_ns,
                    (#[trigger] deltas@[i]).time_offset_sec,
                ) <= u64::MAX,
        ensures
            final(self).wf(),
            lookup(old(self).view(), device_id@) is None ==> steps is None && final(self).view() == old(self).view(),
            lookup(old(self).view(), device_id@) matches Some(base) ==> {
                &&& steps matches Some(s)
                &&& s@.len() == deltas@.len()
                &&& forall|i: int|
                    0 <= i < s@.len() ==> (#[trigger] s@[i]).co2_ppm == co2_run(base, deltas@)[i]
                        && s@[i].timestamp_ns == delta_timestamp(packet_timestamp_ns, deltas@[i].time_offset_sec)
                &&& final(self).view() == upsert(old(self).view(), device_id@, co2_after_run(base, deltas@))
            },
    {
        match self.baseline(device_id) {
            None => None,
            Some(base) => {
                let steps = reconstruct_deltas(base, packet_timestamp_ns, deltas);
                let n = steps.len();
                let last = if n == 0 { base } else { steps[n - 1].co2_ppm };
                proof {
                    lemma_co2_run_len(base, deltas@);
                }
                self.record_keyframe(device_id, last);
                Some(steps)
            },
        }
    }
}


/// Law: once a keyframe with CO2 value `co2` is recorded for `device`, a
/// delta batch from that device is reconstructed against `co2`; the batch
/// then moves that device's baseline to the value it ends on and leaves
/// every other device's baseline as it was.
pub proof fn lemma_keyframe_then_batch(
    e: Seq<(Seq<char>, u32)>,
    device: Seq<char>,
    co2: u32,
    deltas: Seq<DeltaSample>,
    other: Seq<char>,
)
    requires
        distinct_keys(e),
    ensures
        lookup(upsert(e, device, co2), device) == Some(co2),
        lookup(upsert(upsert(e, device, co2), device, co2_after_run(co2, deltas)), device) == Some(
            co2_after_run(co2, deltas),
        ),
        other != device ==> lookup(
            upsert(upsert(e, device, co2), device, co2_after_run(co2, deltas)),
            other,
        ) == lookup(e, other),
{
    lemma_upsert_lookup(e, device, co2, other);
    lemma_upsert_lookup(upsert(e, device, co2), device, co2_after_run(co2, deltas), other);
}

} // verus!
