//! The normalized telemetry sample that flows from ingestion to the sinks.

use vstd::prelude::*;
use crate::frame::f32_is_nan;
use crate::text::{all_digits, is_digit, no_newline};

verus! {

/// One floating-point sensor reading, held as the plain values the library
/// works with: its IEEE-754 binary32 bit pattern (the value itself, without
/// loss), the reading multiplied by 100 in binary32 arithmetic, rounded half
/// away from zero and converted to `i32` with saturation, and its rendering
/// with exactly two decimals. [`Reading::wf`] states how the three agree.
pub struct Reading {
    pub bits: u32,
    pub centi: i32,
    pub fixed2: String,
}

/// Bit pattern of positive infinity.
pub const F32_INFINITY_BITS: u32 = 0x7F80_0000;

/// Bit pattern of negative infinity.
pub const F32_NEG_INFINITY_BITS: u32 = 0xFF80_0000;

/// Whether the sign bit of a binary32 bit pattern is set.
pub open spec fn f32_sign(bits: u32) -> bool {
    bits >= 0x8000_0000
}

/// Digits, a point and exactly two digits, after an optional minus sign.
pub open spec fn two_decimal_form(s: Seq<char>) -> bool {
    let body = if s.len() > 0 && s[0] == '-' { s.drop_first() } else { s };
    &&& body.len() >= 4
    &&& all_digits(body.subrange(0, body.len() - 3))
    &&& body[body.len() - 3] == '.'
    &&& is_digit(body[body.len() - 2])
    &&& is_digit(body[body.len() - 1])
}

/// The two-decimal rendering of a binary32 value, as far as its form goes:
/// `NaN`, `inf` and `-inf` for the special values; otherwise digits with two
/// decimals, with a minus sign exactly when the sign bit is set (negative
/// zero and negatives that round to zero included).
pub open spec fn fixed2_form(bits: u32, s: Seq<char>) -> bool {
    if f32_is_nan(bits) {
        s == "NaN"@
    } else if bits == F32_INFINITY_BITS {
        s == "inf"@
    } else if bits == F32_NEG_INFINITY_BITS {
        s == "-inf"@
    } else {
        two_decimal_form(s) && ((s[0] == '-') == f32_sign(bits))
    }
}

/// The hundredths of a binary32 value, as far as the bit pattern fixes
/// them: 0 for a NaN, the `i32` limits for the infinities, and otherwise
/// never of the opposite sign to the value.
pub open spec fn centi_form(bits: u32, centi: i32) -> bool {
    if f32_is_nan(bits) {
        centi == 0
    } else if bits == F32_INFINITY_BITS {
        centi == i32::MAX
    } else if bits == F32_NEG_INFINITY_BITS {
        centi == i32::MIN
    } else {
        (centi < 0 ==> f32_sign(bits)) && (centi > 0 ==> !f32_sign(bits))
    }
}

impl Reading {
    /// The three forms of the reading agree.
    pub open spec fn wf(&self) -> bool {
        fixed2_form(self.bits, self.fixed2@) && centi_form(self.bits, self.centi)
    }

    /// Checks that the three forms of the reading agree.
    pub fn well_formed(&self) -> (ok: bool)
        ensures
            ok == self.wf(),
    {
        let bits = self.bits;
        let nan = (bits / 0x80_0000) % 256 == 255 && bits % 0x80_0000 != 0;
        let text = self.fixed2.as_str();
        if nan {
            return self.centi == 0 && str_is(text, "NaN");
        }
        if bits == F32_INFINITY_BITS {
            return self.centi == i32::MAX && str_is(text, "inf");
        }
        if bits == F32_NEG_INFINITY_BITS {
            return self.centi == i32::MIN && str_is(text, "-inf");
        }
        let negative = bits >= 0x8000_0000;
        let centi_ok = (self.centi >= 0 || negative) && (self.centi <= 0 || !negative);
        let n = text.unicode_len();
        if n == 0 {
            return false;
        }
        let minus = text.get_char(0) == '-';
        centi_ok && minus == negative && has_two_decimal_form(text, n)
    }
}

/// Whether `s` is exactly `t`.
fn str_is(s: &str, t: &str) -> (eq: bool)
    ensures
        eq == (s@ == t@),
{
    let a = String::from_str(s);
    let b = String::from_str(t);
    a == b
}

fn has_two_decimal_form(s: &str, n: usize) -> (ok: bool)
    requires
        n == s@.len(),
        n > 0,
    ensures
        ok == two_decimal_form(s@),
{
    let start: usize = if s.get_char(0) == '-' { 1 } else { 0 };
    let ghost body = if s@[0] == '-' { s@.drop_first() } else { s@ };
    assert(body =~= s@.subrange(start as int, n as int));
    if n - start < 4 {
        return false;
    }
    let point = n - 3;
    let mut i = start;
    while i < point
        invariant
            start <= i <= point,
            point == n - 3,
            n == s@.len(),
            body =~= s@.subrange(start as int, n as int),
            body == (if s@[0] == '-' { s@.drop_first() } else { s@ }),
            n > 0,
            body.len() >= 4,
            all_digits(s@.subrange(start as int, i as int)),
        decreases point - i,
    {
        let c = s.get_char(i);
        if !('0' <= c && c <= '9') {
            assert(body.subrange(0, body.len() - 3)[i - start] == c);
            assert(!is_digit(body.subrange(0, body.len() - 3)[i - start]));
            return false;
        }
        assert forall|j: int| 0 <= j < i + 1 - start implies is_digit(
            #[trigger] s@.subrange(start as int, i + 1)[j],
        ) by {
            if j < i - start {
                assert(s@.subrange(start as int, i + 1)[j] == s@.subrange(start as int, i as int)[j]);
            }
        }
        i = i + 1;
    }
    assert(body.subrange(0, body.len() - 3) =~= s@.subrange(start as int, point as int));
    let p = s.get_char(point);
    let d1 = s.get_char(point + 1);
    let d2 = s.get_char(point + 2);
    p == '.' && '0' <= d1 && d1 <= '9' && '0' <= d2 && d2 <= '9'
}

/// A well-formed reading's two-decimal text holds no line feed.
pub proof fn lemma_fixed2_no_newline(r: Reading)
    requires
        r.wf(),
    ensures
        no_newline(r.fixed2@),
{
    reveal_strlit("NaN");
    reveal_strlit("inf");
    reveal_strlit("-inf");
    let s = r.fixed2@;
    if !f32_is_nan(r.bits) && r.bits != F32_INFINITY_BITS && r.bits != F32_NEG_INFINITY_BITS {
        let body = if s.len() > 0 && s[0] == '-' { s.drop_first() } else { s };
        let k = body.len() - 3;
        assert forall|i: int| 0 <= i < s.len() implies #[trigger] s[i] != '\n' by {
            let off = if s[0] == '-' { 1int } else { 0int };
            if i >= off {
                let j = i - off;
                assert(body[j] == s[i]);
                if j < k {
                    assert(body.subrange(0, k)[j] == body[j]);
                    assert(is_digit(body.subrange(0, k)[j]));
                }
            }
        }
    }
}

/// Normalized in-memory telemetry metric sample.
pub struct MetricSample {
    pub device_id: String,
    pub timestamp_ns: u64,
    pub co2_ppm: u32,
    pub temperature_celsius: Reading,
    pub humidity_percent: Reading,
    pub pm25_ug_m3: Reading,
    pub pm10_ug_m3: Reading,
    pub tvoc_ppb: Reading,
    pub pressure_hpa: Reading,
    pub battery_millivolts: u32,
    pub rssi_dbm: i32,
    pub status: i32,
}

impl MetricSample {
    /// Every reading of the sample is well formed.
    pub open spec fn wf(&self) -> bool {
        &&& self.temperature_celsius.wf()
        &&& self.humidity_percent.wf()
        &&& self.pm25_ug_m3.wf()
        &&& self.pm10_ug_m3.wf()
        &&& self.tvoc_ppb.wf()
        &&& self.pressure_hpa.wf()
    }

    /// Checks that every reading of the sample is well formed.
    pub fn well_formed(&self) -> (ok: bool)
        ensures
            ok == self.wf(),
    {
        self.temperature_celsius.well_formed() && self.humidity_percent.well_formed()
            && self.pm25_ug_m3.well_formed() && self.pm10_ug_m3.well_formed()
            && self.tvoc_ppb.well_formed() && self.pressure_hpa.well_formed()
    }
}

} // verus!
