//! The compact 16-byte binary telemetry frame streamed to the dashboard, its
//! Base64 framing, the AQI level and the sensor index packed into its last
//! byte.

use vstd::prelude::*;
use crate::sample::{MetricSample, Reading};
use crate::text::{parse_unsigned, parse_unsigned_range};

verus! {

// ---------------------------------------------------------------------------
// Base64 (RFC 4648, standard alphabet, with padding)
// ---------------------------------------------------------------------------

/// The standard Base64 alphabet.
pub open spec fn base64_alphabet() -> Seq<char> {
    "ABCDEFGHIJKLMNOPQRSTUVWXYZabcdefghijklmnopqrstuvwxyz0123456789+/"@
}

/// The symbol of a 6-bit value.
pub open spec fn base64_symbol(v: int) -> char {
    base64_alphabet()[v]
}

/// Standard padded Base64 encoding of a byte sequence: every group of three
/// bytes becomes four symbols; a final group of one or two bytes is padded
/// with `=`.
pub open spec fn base64_encode(b: Seq<u8>) -> Seq<char>
    decreases b.len(),
{
    let b0 = b[0] as int;
    let b1 = b[1] as int;
    let b2 = b[2] as int;
    if b.len() == 0 {
        seq![]
    } else if b.len() == 1 {
        seq![base64_symbol(b0 / 4), base64_symbol((b0 % 4) * 16), '=', '=']
    } else if b.len() == 2 {
        seq![
            base64_symbol(b0 / 4),
            base64_symbol((b0 % 4) * 16 + b1 / 16),
            base64_symbol((b1 % 16) * 4),
            '=',
        ]
    } else {
        seq![
            base64_symbol(b0 / 4),
            base64_symbol((b0 % 4) * 16 + b1 / 16),
            base64_symbol((b1 % 16) * 4 + b2 / 64),
            base64_symbol(b2 % 64),
        ] + base64_encode(b.subrange(3, b.len() as int))
    }
}

/// The 6-bit value of a Base64 symbol (-1 for a character outside the
/// alphabet).
pub open spec fn base64_value(c: char) -> int {
    if 'A' <= c && c <= 'Z' {
        c as int - 'A' as int
    } else if 'a' <= c && c <= 'z' {
        c as int - 'a' as int + 26
    } else if '0' <= c && c <= '9' {
        c as int - '0' as int + 52
    } else if c == '+' {
        62
    } else if c == '/' {
        63
    } else {
        -1
    }
}

/// Each symbol decodes back to its value.
pub proof fn lemma_symbol_value(v: int)
    requires
        0 <= v < 64,
    ensures
        base64_value(base64_symbol(v)) == v,
{
    reveal_strlit("ABCDEFGHIJKLMNOPQRSTUVWXYZabcdefghijklmnopqrstuvwxyz0123456789+/");
}

/// Standard padded Base64 decoding: every four symbols give three bytes,
/// or fewer where the group ends with padding.
pub open spec fn base64_decode(c: Seq<char>) -> Seq<u8>
    decreases c.len(),
{
    if c.len() < 4 {
        Seq::<u8>::empty()
    } else {
        let v0 = base64_value(c[0]);
        let v1 = base64_value(c[1]);
        let v2 = base64_value(c[2]);
        let v3 = base64_value(c[3]);
        let first = (v0 * 4 + v1 / 16) as u8;
        let group = if c[2] == '=' {
            seq![first]
        } else if c[3] == '=' {
            seq![first, ((v1 % 16) * 16 + v2 / 4) as u8]
        } else {
            seq![first, ((v1 % 16) * 16 + v2 / 4) as u8, ((v2 % 4) * 64 + v3) as u8]
        };
        group + base64_decode(c.subrange(4, c.len() as int))
    }
}

/// Law: decoding the Base64 form of any bytes gives back those bytes.
pub proof fn lemma_base64_roundtrip(b: Seq<u8>)
    ensures
        base64_decode(base64_encode(b)) == b,
    decreases b.len(),
{
    reveal_strlit("ABCDEFGHIJKLMNOPQRSTUVWXYZabcdefghijklmnopqrstuvwxyz0123456789+/");
    reveal_with_fuel(base64_decode, 2);
    if b.len() > 0 {
        let e = base64_encode(b);
        let b0 = b[0] as int;
        if b.len() == 1 {
            lemma_symbol_value(b0 / 4);
            lemma_symbol_value((b0 % 4) * 16);
            assert(e.len() == 4);
            assert(e[2] == '=');
            assert(base64_value(e[0]) == b0 / 4);
            assert(base64_value(e[1]) == (b0 % 4) * 16);
            assert(e.subrange(4, 4) =~= Seq::<char>::empty());
            assert(base64_decode(e) == seq![((b0 / 4) * 4 + ((b0 % 4) * 16) / 16) as u8]);
            assert((b0 / 4) * 4 + ((b0 % 4) * 16) / 16 == b0);
            assert(base64_decode(e) =~= b);
        } else {
            let b1 = b[1] as int;
            lemma_symbol_value(b0 / 4);
            lemma_symbol_value((b0 % 4) * 16 + b1 / 16);
            if b.len() == 2 {
                lemma_symbol_value((b1 % 16) * 4);
                assert(e.len() == 4);
                assert(e[3] == '=');
                assert(e[2] != '=') by {
                    assert(base64_value(e[2]) == (b1 % 16) * 4);
                }
                assert(base64_value(e[0]) == b0 / 4);
                assert(base64_value(e[1]) == (b0 % 4) * 16 + b1 / 16);
                assert(base64_value(e[2]) == (b1 % 16) * 4);
                assert(e.subrange(4, 4) =~= Seq::<char>::empty());
                assert((b0 / 4) * 4 + ((b0 % 4) * 16 + b1 / 16) / 16 == b0);
                assert((((b0 % 4) * 16 + b1 / 16) % 16) * 16 + ((b1 % 16) * 4) / 4 == b1);
                assert(base64_decode(e) =~= b);
            } else {
                let b2 = b[2] as int;
                lemma_symbol_value((b1 % 16) * 4 + b2 / 64);
                lemma_symbol_value(b2 % 64);
                let rest = b.subrange(3, b.len() as int);
                lemma_base64_roundtrip(rest);
                assert(e.subrange(4, e.len() as int) =~= base64_encode(rest));
                assert(base64_decode(e) =~= b);
            }
        }
    }
}

/// Law: different byte sequences have different Base64 forms; in
/// particular the encoding of 16-byte frames is injective.
pub proof fn lemma_base64_injective(a: Seq<u8>, b: Seq<u8>)
    ensures
        base64_encode(a) == base64_encode(b) <==> a == b,
{
    lemma_base64_roundtrip(a);
    lemma_base64_roundtrip(b);
}

/// Appends the Base64 symbol of a 6-bit value.
fn push_base64_symbol(out: &mut String, v: u8)
    requires
        v < 64,
    ensures
        final(out)@ == old(out)@.push(base64_symbol(v as int)),
{
    let table = "ABCDEFGHIJKLMNOPQRSTUVWXYZabcdefghijklmnopqrstuvwxyz0123456789+/";
    proof {
        reveal_strlit("ABCDEFGHIJKLMNOPQRSTUVWXYZabcdefghijklmnopqrstuvwxyz0123456789+/");
    }
    let symbol = table.substring_ascii(v as usize, v as usize + 1);
    out.append(symbol);
    assert(out@ =~= old(out)@.push(base64_symbol(v as int)));
}

/// The bit manipulations of the encoder compute the sextets of the spec.
proof fn lemma_sextets(b0: u8, b1: u8, b2: u8)
    ensures
        b0 >> 2u8 == b0 / 4,
        ((b0 & 3u8) << 4u8) | (b1 >> 4u8) == (b0 % 4) * 16 + b1 / 16,
        ((b1 & 15u8) << 2u8) | (b2 >> 6u8) == (b1 % 16) * 4 + b2 / 64,
        b2 & 63u8 == b2 % 64,
        (b0 & 3u8) << 4u8 == (b0 % 4) * 16,
        b0 >> 2u8 < 64,
        ((b0 & 3u8) << 4u8) | (b1 >> 4u8) < 64,
        ((b1 & 15u8) << 2u8) | (b2 >> 6u8) < 64,
{
    assert(b0 >> 2u8 == b0 / 4) by (bit_vector);
    assert(((b0 & 3u8) << 4u8) | (b1 >> 4u8) == (b0 % 4) * 16 + b1 / 16) by (bit_vector);
    assert(((b1 & 15u8) << 2u8) | (b2 >> 6u8) == (b1 % 16) * 4 + b2 / 64) by (bit_vector);
    assert(b2 & 63u8 == b2 % 64) by (bit_vector);
    assert((b0 & 3u8) << 4u8 == (b0 % 4) * 16) by (bit_vector);
}

/// Base64 encoding of exactly 16 bytes: 24 characters, the last two `=`.
pub fn encode_base64_16(src: &[u8; 16]) -> (encoded: String)
    ensures
        encoded@ == base64_encode(src@),
{
    let mut out = String::new();
    let mut s: usize = 0;
    let mut group: usize = 0;
    assert(src@.subrange(0, 16) =~= src@);
    while group < 5
        invariant
            src@.len() == 16,
            group <= 5,
            s == 3 * group,
            out@ + base64_encode(src@.subrange(s as int, 16)) == base64_encode(src@),
        decreases 5 - group,
    {
        let b0 = src[s];
        let b1 = src[s + 1];
        let b2 = src[s + 2];
        proof {
            lemma_sextets(b0, b1, b2);
        }
        let ghost before = out@;
        let ghost rest = src@.subrange(s as int, 16);
        assert(rest.subrange(3, rest.len() as int) =~= src@.subrange(s + 3, 16));
        push_base64_symbol(&mut out, b0 >> 2);
        push_base64_symbol(&mut out, ((b0 & 0x03) << 4) | (b1 >> 4));
        push_base64_symbol(&mut out, ((b1 & 0x0F) << 2) | (b2 >> 6));
        push_base64_symbol(&mut out, b2 & 0x3F);
        assert(out@ + base64_encode(src@.subrange(s + 3, 16)) =~= before + base64_encode(rest));
        s = s + 3;
        group = group + 1;
    }
    let b0 = src[15];
    proof {
        lemma_sextets(b0, 0, 0);
    }
    let ghost before = out@;
    push_base64_symbol(&mut out, b0 >> 2);
    push_base64_symbol(&mut out, (b0 & 0x03) << 4);
    let pad = "==";
    proof {
        reveal_strlit("==");
    }
    out.append(pad);
    assert(out@ =~= before + base64_encode(src@.subrange(15, 16)));
    out
}

/// Law: the Base64 form of a 16-byte frame is 24 characters long and ends
/// with two padding characters.
pub proof fn lemma_base64_16_shape(b: Seq<u8>)
    requires
        b.len() == 16,
    ensures
        base64_encode(b).len() == 24,
        base64_encode(b)[22] == '=',
        base64_encode(b)[23] == '=',
{
    let s1 = b.subrange(3, 16);
    let s2 = s1.subrange(3, 13);
    let s3 = s2.subrange(3, 10);
    let s4 = s3.subrange(3, 7);
    let s5 = s4.subrange(3, 4);
    assert(s5.len() == 1);
    assert(base64_encode(s5).len() == 4);
    assert(base64_encode(s4).len() == 8);
    assert(base64_encode(s3).len() == 12);
    assert(base64_encode(s2).len() == 16);
    assert(base64_encode(s1).len() == 20);
    assert(base64_encode(b).len() == 24);
    assert(base64_encode(b)[22] == base64_encode(s1)[18]);
    assert(base64_encode(s1)[18] == base64_encode(s2)[14]);
    assert(base64_encode(s2)[14] == base64_encode(s3)[10]);
    assert(base64_encode(s3)[10] == base64_encode(s4)[6]);
    assert(base64_encode(s4)[6] == base64_encode(s5)[2]);
    assert(base64_encode(b)[23] == base64_encode(s5)[3]);
}

// ---------------------------------------------------------------------------
// Sensor index
// ---------------------------------------------------------------------------

/// The text after the last `-` of `s` (all of `s` when it holds no `-`): the
/// first item that `rsplit('-')` yields.
pub open spec fn last_segment(s: Seq<char>) -> Seq<char>
    decreases s.len(),
{
    if s.len() == 0 {
        s
    } else if s.last() == '-' {
        Seq::<char>::empty()
    } else {
        last_segment(s.drop_last()).push(s.last())
    }
}

/// The 4-bit sensor index of a device id: the number after its last `-`,
/// parsed as a `u8`, minus one (saturating at zero), keeping the low four
/// bits; 0 when that text is no `u8`.
pub open spec fn sensor_index(device_id: Seq<char>) -> u8 {
    match parse_unsigned(last_segment(device_id), 255) {
        Some(n) => ((if n >= 1 { (n - 1) as nat } else { 0nat }) % 16) as u8,
        None => 0u8,
    }
}

proof fn lemma_last_segment_from(s: Seq<char>, j: int)
    requires
        0 <= j <= s.len(),
        j == 0 || s[j - 1] == '-',
        forall|k: int| j <= k < s.len() ==> s[k] != '-',
    ensures
        last_segment(s) == s.subrange(j, s.len() as int),
    decreases s.len(),
{
    if s.len() == 0 {
        assert(s.subrange(j, 0) =~= s);
    } else if j == s.len() {
        assert(s.subrange(j, j) =~= Seq::<char>::empty());
    } else {
        let t = s.drop_last();
        assert(s.last() != '-');
        lemma_last_segment_from(t, j);
        assert(s.subrange(j, s.len() as int) =~= t.subrange(j, t.len() as int).push(s.last()));
    }
}

/// Maps a device id to its 4-bit sensor index (0..15), packed into the last
/// byte of the binary frame. The ids "sensor-esp32-01" to "sensor-esp32-08"
/// map to 0 to 7.
pub fn sensor_id_to_index(device_id: &str) -> (index: u8)
    ensures
        index == sensor_index(device_id@),
        index < 16,
{
    let len = device_id.unicode_len();
    let mut j = len;
    while j > 0 && device_id.get_char(j - 1) != '-'
        invariant
            len == device_id@.len(),
            j <= len,
            forall|k: int| j <= k < len ==> device_id@[k] != '-',
        decreases j,
    {
        j = j - 1;
    }
    proof {
        lemma_last_segment_from(device_id@, j as int);
    }
    match parse_unsigned_range(device_id, j, len, 255) {
        Some(num) => {
            let n = num as u8;
            let m = n.saturating_sub(1);
            assert(m & 0x0Fu8 == m % 16) by (bit_vector);
            m & 0x0F
        },
        None => 0,
    }
}

// ---------------------------------------------------------------------------
// Air quality index
// ---------------------------------------------------------------------------

/// Bit pattern of the binary32 value 5.0.
pub const PM25_BAND_2: u32 = 0x40A0_0000;
/// Bit pattern of the binary32 value 12.0.
pub const PM25_BAND_3: u32 = 0x4140_0000;
/// Bit pattern of the binary32 value 25.0.
pub const PM25_BAND_4: u32 = 0x41C8_0000;
/// Bit pattern of the binary32 value 50.0.
pub const PM25_BAND_5: u32 = 0x4248_0000;
/// Bit pattern of the binary32 value 65.0.
pub const TVOC_BAND_2: u32 = 0x4282_0000;
/// Bit pattern of the binary32 value 220.0.
pub const TVOC_BAND_3: u32 = 0x435C_0000;
/// Bit pattern of the binary32 value 660.0.
pub const TVOC_BAND_4: u32 = 0x4425_0000;
/// Bit pattern of the binary32 value 2200.0.
pub const TVOC_BAND_5: u32 = 0x4509_8000;

/// Whether the IEEE-754 binary32 value with bit pattern `bits` is a NaN:
/// all exponent bits set and a nonzero fraction.
pub open spec fn f32_is_nan(bits: u32) -> bool {
    (bits / 0x80_0000) % 256 == 255 && bits % 0x80_0000 != 0
}

/// IEEE-754 comparison `x < c` of the binary32 value with bit pattern `bits`
/// against a positive finite binary32 constant with bit pattern `c`: a NaN
/// is never below; every value with the sign bit set (negatives, negative
/// zero, negative infinity) is; for the others the order of the values is
/// the order of their bit patterns.
pub open spec fn f32_below(bits: u32, c: u32) -> bool {
    !f32_is_nan(bits) && (bits >= 0x8000_0000 || bits < c)
}

/// The CO2 sub-index: 1 below 600 ppm, 2 below 800, 3 below 1000, 4 below
/// 1500, otherwise 5.
pub open spec fn co2_band(co2_ppm: u32) -> u8 {
    if co2_ppm <= 599 {
        1
    } else if co2_ppm <= 799 {
        2
    } else if co2_ppm <= 999 {
        3
    } else if co2_ppm <= 1499 {
        4
    } else {
        5
    }
}

/// The sub-index of a binary32 reading against four increasing limits.
pub open spec fn reading_band(bits: u32, t2: u32, t3: u32, t4: u32, t5: u32) -> u8 {
    if f32_below(bits, t2) {
        1
    } else if f32_below(bits, t3) {
        2
    } else if f32_below(bits, t4) {
        3
    } else if f32_below(bits, t5) {
        4
    } else {
        5
    }
}

/// The larger of two sub-indices.
pub open spec fn band_max(a: u8, b: u8) -> u8 {
    if a >= b {
        a
    } else {
        b
    }
}

/// The AQI level (1..5): the worst of the CO2, PM2.5 (limits 5, 12, 25,
/// 50 µg/m³) and TVOC (limits 65, 220, 660, 2200 ppb) sub-indices.
pub open spec fn aqi_level(co2_ppm: u32, pm25_bits: u32, tvoc_bits: u32) -> u8 {
    band_max(
        band_max(
            co2_band(co2_ppm),
            reading_band(pm25_bits, PM25_BAND_2, PM25_BAND_3, PM25_BAND_4, PM25_BAND_5),
        ),
        reading_band(tvoc_bits, TVOC_BAND_2, TVOC_BAND_3, TVOC_BAND_4, TVOC_BAND_5),
    )
}

/// `x < c` for a binary32 bit pattern and a positive finite constant.
fn f32_bits_below(bits: u32, c: u32) -> (below: bool)
    ensures
        below == f32_below(bits, c),
{
    let nan = (bits / 0x80_0000) % 256 == 255 && bits % 0x80_0000 != 0;
    !nan && (bits >= 0x8000_0000 || bits < c)
}

fn band_of_reading(bits: u32, t2: u32, t3: u32, t4: u32, t5: u32) -> (band: u8)
    ensures
        band == reading_band(bits, t2, t3, t4, t5),
{
    if f32_bits_below(bits, t2) {
        1
    } else if f32_bits_below(bits, t3) {
        2
    } else if f32_bits_below(bits, t4) {
        3
    } else if f32_bits_below(bits, t5) {
        4
    } else {
        5
    }
}

/// Computes the normalized AQI level (1..5) using the worst-case limiting
/// factor. The PM2.5 and TVOC readings are given as binary32 bit patterns.
pub fn compute_aqi_level(co2_ppm: u32, pm25_ug_bits: u32, tvoc_ppb_bits: u32) -> (level: u8)
    ensures
        level == aqi_level(co2_ppm, pm25_ug_bits, tvoc_ppb_bits),
        1 <= level <= 5,
{
    let sub_co2: u8 = if co2_ppm <= 599 {
        1
    } else if co2_ppm <= 799 {
        2
    } else if co2_ppm <= 999 {
        3
    } else if co2_ppm <= 1499 {
        4
    } else {
        5
    };
    let sub_pm25 = band_of_reading(pm25_ug_bits, PM25_BAND_2, PM25_BAND_3, PM25_BAND_4, PM25_BAND_5);
    let sub_tvoc = band_of_reading(tvoc_ppb_bits, TVOC_BAND_2, TVOC_BAND_3, TVOC_BAND_4, TVOC_BAND_5);
    let worst = if sub_co2 >= sub_pm25 { sub_co2 } else { sub_pm25 };
    if worst >= sub_tvoc { worst } else { sub_tvoc }
}

/// Law: the AQI level never decreases when the CO2 concentration rises
/// and the other readings stay the same.
pub proof fn lemma_aqi_monotone_in_co2(co2_a: u32, co2_b: u32, pm25_bits: u32, tvoc_bits: u32)
    requires
        co2_a <= co2_b,
    ensures
        aqi_level(co2_a, pm25_bits, tvoc_bits) <= aqi_level(co2_b, pm25_bits, tvoc_bits),
{
}

/// Law: the AQI level is the worst sub-index: it is at least each of them
/// and equal to one of them.
pub proof fn lemma_aqi_is_worst_band(co2_ppm: u32, pm25_bits: u32, tvoc_bits: u32)
    ensures
        aqi_level(co2_ppm, pm25_bits, tvoc_bits) >= co2_band(co2_ppm),
        aqi_level(co2_ppm, pm25_bits, tvoc_bits) >= reading_band(
            pm25_bits,
            PM25_BAND_2,
            PM25_BAND_3,
            PM25_BAND_4,
            PM25_BAND_5,
        ),
        aqi_level(co2_ppm, pm25_bits, tvoc_bits) >= reading_band(
            tvoc_bits,
            TVOC_BAND_2,
            TVOC_BAND_3,
            TVOC_BAND_4,
            TVOC_BAND_5,
        ),
        1 <= aqi_level(co2_ppm, pm25_bits, tvoc_bits) <= 5,
{
}

// ---------------------------------------------------------------------------
// The 16-byte frame
// ---------------------------------------------------------------------------

/// The values a frame carries, before they are laid out in bytes.
pub struct FrameFields {
    pub timestamp_sec: int,
    pub co2_ppm: int,
    pub temperature_centi: int,
    pub humidity_centi: int,
    pub pm25_centi: int,
    pub battery_mv: int,
    pub rssi_dbm: int,
    pub aqi_level: int,
    pub sensor_index: int,
}

/// `v` limited to the range `lo..=hi`.
pub open spec fn clamp(v: int, lo: int, hi: int) -> int {
    if v < lo {
        lo
    } else if v > hi {
        hi
    } else {
        v
    }
}

/// The fields of the frame of a sample: seconds since the epoch truncated
/// to 32 bits, readings limited to the range of their wire types, the AQI
/// level and the sensor index.
pub open spec fn frame_fields(s: MetricSample) -> FrameFields {
    FrameFields {
        timestamp_sec: (s.timestamp_ns / 1_000_000_000) as int % 0x1_0000_0000,
        co2_ppm: clamp(s.co2_ppm as int, 0, 65535),
        temperature_centi: clamp(s.temperature_celsius.centi as int, -32768, 32767),
        humidity_centi: clamp(s.humidity_percent.centi as int, 0, 65535),
        pm25_centi: clamp(s.pm25_ug_m3.centi as int, 0, 65535),
        battery_mv: clamp(s.battery_millivolts as int, 0, 65535),
        rssi_dbm: clamp(s.rssi_dbm as int, -128, 127),
        aqi_level: aqi_level(s.co2_ppm, s.pm25_ug_m3.bits, s.tvoc_ppb.bits) as int,
        sensor_index: sensor_index(s.device_id@) as int,
    }
}

/// Two's complement of `v` on `modulus` values.
pub open spec fn twos(v: int, modulus: int) -> int {
    if v < 0 {
        v + modulus
    } else {
        v
    }
}

/// The byte layout of a frame: big-endian u32 timestamp, u16 CO2, i16
/// centi-degrees, u16 centi-percent humidity, u16 centi-µg/m³ PM2.5, u16
/// battery millivolts, i8 RSSI, then the AQI level in the high nibble and
/// the sensor index in the low nibble of the last byte.
pub open spec fn frame_bytes(f: FrameFields) -> Seq<u8> {
    let t = twos(f.temperature_centi, 0x1_0000);
    seq![
        (f.timestamp_sec / 0x100_0000) as u8,
        (f.timestamp_sec / 0x1_0000 % 256) as u8,
        (f.timestamp_sec / 256 % 256) as u8,
        (f.timestamp_sec % 256) as u8,
        (f.co2_ppm / 256) as u8,
        (f.co2_ppm % 256) as u8,
        (t / 256) as u8,
        (t % 256) as u8,
        (f.humidity_centi / 256) as u8,
        (f.humidity_centi % 256) as u8,
        (f.pm25_centi / 256) as u8,
        (f.pm25_centi % 256) as u8,
        (f.battery_mv / 256) as u8,
        (f.battery_mv % 256) as u8,
        twos(f.rssi_dbm, 256) as u8,
        (f.aqi_level * 16 + f.sensor_index) as u8,
    ]
}

fn clamp_i32(v: i32, lo: i32, hi: i32) -> (r: i32)
    requires
        lo <= hi,
    ensures
        r == clamp(v as int, lo as int, hi as int),
{
    if v < lo {
        lo
    } else if v > hi {
        hi
    } else {
        v
    }
}

/// Packs a sample into the 16-byte big-endian binary frame. Read back at
/// its fixed offsets, the frame gives the sample's timestamp in seconds
/// (32 bits), its CO2, temperature, humidity, PM2.5, battery and RSSI
/// limited to their wire ranges, the AQI level of its CO2, PM2.5 and TVOC
/// readings, and the index of its sensor.
pub fn pack_binary_frame(sample: &MetricSample) -> (frame: [u8; 16])
    ensures
        frame@ == frame_bytes(frame_fields(*sample)),
        frame@.len() == 16,
            be_unsigned(frame@, 0, 4) == (sample.timestamp_ns / 1_000_000_000) as int % 0x1_0000_0000,
            be_unsigned(frame@, 4, 2) == clamp(sample.co2_ppm as int, 0, 65535),
            signed_of(be_unsigned(frame@, 6, 2), 0x1_0000) == clamp(
                sample.temperature_celsius.centi as int,
                -32768,
                32767,
            ),
            be_unsigned(frame@, 8, 2) == clamp(sample.humidity_percent.centi as int, 0, 65535),
            be_unsigned(frame@, 10, 2) == clamp(sample.pm25_ug_m3.centi as int, 0, 65535),
            be_unsigned(frame@, 12, 2) == clamp(sample.battery_millivolts as int, 0, 65535),
            signed_of(frame@[14] as int, 256) == clamp(sample.rssi_dbm as int, -128, 127),
            frame@[15] as int / 16 == aqi_level(sample.co2_ppm, sample.pm25_ug_m3.bits, sample.tvoc_ppb.bits),
            frame@[15] as int % 16 == sensor_index(sample.device_id@),
{
    let secs = sample.timestamp_ns / 1_000_000_000;
    let ts: u32 = secs as u32;
    assert(ts == secs % 0x1_0000_0000) by (bit_vector)
        requires
            ts == secs as u32,
    ;
    let co2: u32 = if sample.co2_ppm > 65535 { 65535 } else { sample.co2_ppm };
    let temp: i32 = clamp_i32(sample.temperature_celsius.centi, -32768, 32767);
    let temp_bits: u32 = if temp < 0 { (temp + 65536) as u32 } else { temp as u32 };
    let hum: i32 = clamp_i32(sample.humidity_percent.centi, 0, 65535);
    let pm25: i32 = clamp_i32(sample.pm25_ug_m3.centi, 0, 65535);
    let bat: u32 = if sample.battery_millivolts > 65535 { 65535 } else { sample.battery_millivolts };
    let rssi: i32 = clamp_i32(sample.rssi_dbm, -128, 127);
    let rssi_byte: u8 = if rssi < 0 { (rssi + 256) as u8 } else { rssi as u8 };
    let aqi = compute_aqi_level(sample.co2_ppm, sample.pm25_ug_m3.bits, sample.tvoc_ppb.bits);
    let idx = sensor_id_to_index(sample.device_id.as_str());
    let combined: u8 = ((aqi & 0x0F) << 4) | (idx & 0x0F);
    assert(combined == aqi * 16 + idx) by (bit_vector)
        requires
            combined == ((aqi & 0x0Fu8) << 4u8) | (idx & 0x0Fu8),
            aqi <= 5,
            idx < 16,
    ;
    let frame: [u8; 16] = [
        (ts / 0x100_0000) as u8,
        (ts / 0x1_0000 % 256) as u8,
        (ts / 256 % 256) as u8,
        (ts % 256) as u8,
        (co2 / 256) as u8,
        (co2 % 256) as u8,
        (temp_bits / 256) as u8,
        (temp_bits % 256) as u8,
        (hum / 256) as u8,
        (hum % 256) as u8,
        (pm25 / 256) as u8,
        (pm25 % 256) as u8,
        (bat / 256) as u8,
        (bat % 256) as u8,
        rssi_byte,
        combined,
    ];
    assert(frame@ =~= frame_bytes(frame_fields(*sample)));
    proof {
        lemma_frame_decodes(*sample);
    }
    frame
}

/// Packs a sample into the 16-byte binary frame and Base64-encodes it:
/// decoding the text gives back a frame that reads as the sample's fields
/// (see [`pack_binary_frame`]).
pub fn pack_binary_frame_b64(sample: &MetricSample) -> (encoded: String)
    ensures
        encoded@ == base64_encode(frame_bytes(frame_fields(*sample))),
        base64_decode(encoded@).len() == 16,
            be_unsigned(base64_decode(encoded@), 0, 4) == (sample.timestamp_ns / 1_000_000_000) as int % 0x1_0000_0000,
            be_unsigned(base64_decode(encoded@), 4, 2) == clamp(sample.co2_ppm as int, 0, 65535),
            signed_of(be_unsigned(base64_decode(encoded@), 6, 2), 0x1_0000) == clamp(
                sample.temperature_celsius.centi as int,
                -32768,
                32767,
            ),
            be_unsigned(base64_decode(encoded@), 8, 2) == clamp(sample.humidity_percent.centi as int, 0, 65535),
            be_unsigned(base64_decode(encoded@), 10, 2) == clamp(sample.pm25_ug_m3.centi as int, 0, 65535),
            be_unsigned(base64_decode(encoded@), 12, 2) == clamp(sample.battery_millivolts as int, 0, 65535),
            signed_of(base64_decode(encoded@)[14] as int, 256) == clamp(sample.rssi_dbm as int, -128, 127),
            base64_decode(encoded@)[15] as int / 16 == aqi_level(sample.co2_ppm, sample.pm25_ug_m3.bits, sample.tvoc_ppb.bits),
            base64_decode(encoded@)[15] as int % 16 == sensor_index(sample.device_id@),
{
    let frame = pack_binary_frame(sample);
    proof {
        lemma_base64_roundtrip(frame@);
    }
    encode_base64_16(&frame)
}

/// Reads a big-endian unsigned integer of `n` bytes at `offset`.
pub open spec fn be_unsigned(b: Seq<u8>, offset: int, n: nat) -> int
    decreases n,
{
    if n == 0 {
        0
    } else {
        be_unsigned(b, offset, (n - 1) as nat) * 256 + b[offset + n - 1] as int
    }
}

/// Reads a two's complement signed integer from its unsigned form on
/// `modulus` values.
pub open spec fn signed_of(u: int, modulus: int) -> int {
    if u >= modulus / 2 {
        u - modulus
    } else {
        u
    }
}

/// Law: the frame of a sample does not depend on its PM10, pressure and
/// status readings, which the frame does not carry.
pub proof fn lemma_frame_ignores_uncarried_readings(s: MetricSample, pm10: Reading, pressure: Reading, status: i32)
    ensures
        frame_bytes(frame_fields(s)) == frame_bytes(
            frame_fields(MetricSample { pm10_ug_m3: pm10, pressure_hpa: pressure, status: status, ..s }),
        ),
{
}

/// Law: a frame decodes, field by field as a dashboard reads it (big-endian
/// unsigned and signed reads at fixed offsets, high and low nibble of the
/// last byte), back to the fields it was packed from, for every sample.
pub proof fn lemma_frame_decodes(s: MetricSample)
    ensures
        ({
            let f = frame_fields(s);
            let b = frame_bytes(f);
            &&& b.len() == 16
            &&& be_unsigned(b, 0, 4) == f.timestamp_sec
            &&& be_unsigned(b, 4, 2) == f.co2_ppm
            &&& signed_of(be_unsigned(b, 6, 2), 0x1_0000) == f.temperature_centi
            &&& be_unsigned(b, 8, 2) == f.humidity_centi
            &&& be_unsigned(b, 10, 2) == f.pm25_centi
            &&& be_unsigned(b, 12, 2) == f.battery_mv
            &&& signed_of(b[14] as int, 256) == f.rssi_dbm
            &&& b[15] / 16 == f.aqi_level
            &&& b[15] % 16 == f.sensor_index
        }),
{
    let f = frame_fields(s);
    let b = frame_bytes(f);
    reveal_with_fuel(be_unsigned, 5);
    lemma_aqi_is_worst_band(s.co2_ppm, s.pm25_ug_m3.bits, s.tvoc_ppb.bits);
    assert(0 <= f.sensor_index < 16);
    assert(0 <= f.timestamp_sec < 0x1_0000_0000);
}

} // verus!
