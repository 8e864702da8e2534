use vstd::prelude::*;
use vstd::arithmetic::div_mod::{
    lemma_fundamental_div_mod,
    lemma_fundamental_div_mod_converse,
    lemma_div_is_ordered,
};
use crate::clock::{clock_text, hms_text, now_seconds};

verus! {

/// The five reporting granularities.
#[derive(Clone, Copy, Debug, PartialEq, Eq, Structural)]
pub enum Resolution {
    HalfHour,
    OneHour,
    OneAndHalfHours,
    TwoHours,
    ThreeHours,
}

pub const SECONDS_PER_DAY: i64 = 86400;

/// Width of a bucket, in seconds.
pub open spec fn width_of(r: Resolution) -> int {
    match r {
        Resolution::HalfHour => 1800,
        Resolution::OneHour => 3600,
        Resolution::OneAndHalfHours => 5400,
        Resolution::TwoHours => 7200,
        Resolution::ThreeHours => 10800,
    }
}

/// How far back a chart series of this resolution reaches, in seconds.
pub open spec fn lookback_of(r: Resolution) -> int {
    match r {
        Resolution::HalfHour => 28800,
        Resolution::OneHour => 43200,
        Resolution::OneAndHalfHours => 43200,
        Resolution::TwoHours => 57600,
        Resolution::ThreeHours => 86400,
    }
}

/// The bucket that instant `t` (seconds since the epoch) falls in:
/// `floor(t / width)`.
pub open spec fn bucket_spec(t: int, r: Resolution) -> int {
    t / width_of(r)
}

impl Resolution {
    pub fn width_secs(&self) -> (w: i64)
        ensures
            w == width_of(*self),
    {
        match self {
            Resolution::HalfHour => 1800,
            Resolution::OneHour => 3600,
            Resolution::OneAndHalfHours => 5400,
            Resolution::TwoHours => 7200,
            Resolution::ThreeHours => 10800,
        }
    }

    pub fn lookback_secs(&self) -> (l: i64)
        ensures
            l == lookback_of(*self),
    {
        match self {
            Resolution::HalfHour => 8 * 3600,
            Resolution::OneHour => 12 * 3600,
            Resolution::OneAndHalfHours => 12 * 3600,
            Resolution::TwoHours => 16 * 3600,
            Resolution::ThreeHours => 24 * 3600,
        }
    }
}

/// `floor(x / d)` for a positive divisor.
pub fn floor_div(x: i128, d: i128) -> (q: i128)
    requires
        d > 0,
    ensures
        q == x / d,
{
    if x >= 0 {
        x / d
    } else {
        let a = -(x + 1);
        let q0 = a / d;
        proof {
            lemma_fundamental_div_mod(a as int, d as int);
            let r = a % d;
            assert(x == (-q0 - 1) * d + (d - r - 1)) by (nonlinear_arith)
                requires
                    a == d * q0 + r,
                    x == -a - 1,
            ;
            lemma_fundamental_div_mod_converse(x as int, d as int, -q0 - 1, d - r - 1);
        }
        -q0 - 1
    }
}

/// The bucket of instant `t` at resolution `r`.
pub fn bucket_of(t: i64, r: Resolution) -> (b: i64)
    ensures
        b == bucket_spec(t as int, r),
{
    let w = r.width_secs();
    let q = floor_div(t as i128, w as i128);
    proof {
        lemma_div_is_ordered(i64::MIN as int, t as int, w as int);
        lemma_div_is_ordered(t as int, i64::MAX as int, w as int);
        assert(i64::MIN as int / w as int >= i64::MIN) by (nonlinear_arith)
            requires 1800 <= w <= 10800;
        assert(i64::MAX as int / w as int <= i64::MAX) by (nonlinear_arith)
            requires 1800 <= w <= 10800;
    }
    q as i64
}

/// The first bucket of the look-back window that ends at `now`: the bucket of
/// the instant `lookback` seconds before it.
pub fn lookback_bucket(now: i64, r: Resolution) -> (b: i64)
    ensures
        b == bucket_spec(now - lookback_of(r), r),
{
    let w = r.width_secs();
    let x: i128 = now as i128 - r.lookback_secs() as i128;
    let q = floor_div(x, w as i128);
    proof {
        lemma_div_is_ordered(i64::MIN - 86400, x as int, w as int);
        lemma_div_is_ordered(x as int, i64::MAX as int, w as int);
        assert((i64::MIN - 86400) / w as int >= i64::MIN) by (nonlinear_arith)
            requires 1800 <= w <= 10800;
        assert(i64::MAX as int / w as int <= i64::MAX) by (nonlinear_arith)
            requires 1800 <= w <= 10800;
    }
    q as i64
}

/// A bucket id never exceeds the bucket of the largest instant.
pub proof fn lemma_bucket_below_max(t: int, r: Resolution)
    requires
        t <= i64::MAX,
    ensures
        bucket_spec(t, r) < i64::MAX,
{
    let w = width_of(r);
    lemma_div_is_ordered(t, i64::MAX as int, w);
    assert(i64::MAX as int / w < i64::MAX) by (nonlinear_arith)
        requires 1800 <= w <= 10800;
}

/// The five bucket ids of one instant.
#[derive(Clone, Copy, Debug, PartialEq, Eq, Structural)]
pub struct Buckets {
    pub half_hour: i64,
    pub one_hour: i64,
    pub one_half_hour: i64,
    pub two_hour: i64,
    pub three_hour: i64,
}

impl Buckets {
    /// The bucket id kept for resolution `r`.
    pub open spec fn at(self, r: Resolution) -> int {
        match r {
            Resolution::HalfHour => self.half_hour as int,
            Resolution::OneHour => self.one_hour as int,
            Resolution::OneAndHalfHours => self.one_half_hour as int,
            Resolution::TwoHours => self.two_hour as int,
            Resolution::ThreeHours => self.three_hour as int,
        }
    }

    pub fn get(&self, r: Resolution) -> (b: i64)
        ensures
            b == self.at(r),
    {
        match r {
            Resolution::HalfHour => self.half_hour,
            Resolution::OneHour => self.one_hour,
            Resolution::OneAndHalfHours => self.one_half_hour,
            Resolution::TwoHours => self.two_hour,
            Resolution::ThreeHours => self.three_hour,
        }
    }
}

/// The bucket ids of instant `t`, one per resolution.
pub open spec fn buckets_spec(t: int) -> Buckets {
    Buckets {
        half_hour: bucket_spec(t, Resolution::HalfHour) as i64,
        one_hour: bucket_spec(t, Resolution::OneHour) as i64,
        one_half_hour: bucket_spec(t, Resolution::OneAndHalfHours) as i64,
        two_hour: bucket_spec(t, Resolution::TwoHours) as i64,
        three_hour: bucket_spec(t, Resolution::ThreeHours) as i64,
    }
}

/// Tags instant `t` with its bucket id at every resolution.
pub fn buckets(t: i64) -> (b: Buckets)
    ensures
        b == buckets_spec(t as int),
        forall|r: Resolution| #[trigger] b.at(r) == bucket_spec(t as int, r),
{
    Buckets {
        half_hour: bucket_of(t, Resolution::HalfHour),
        one_hour: bucket_of(t, Resolution::OneHour),
        one_half_hour: bucket_of(t, Resolution::OneAndHalfHours),
        two_hour: bucket_of(t, Resolution::TwoHours),
        three_hour: bucket_of(t, Resolution::ThreeHours),
    }
}

/// An instant together with its bucket ids.
#[derive(Clone, Copy, Debug, PartialEq, Eq, Structural)]
pub struct Stamps {
    pub now: i64,
    pub buckets: Buckets,
}

/// The current instant and its bucket ids.
pub fn six_timestamps() -> (s: Stamps)
    ensures
        s.now >= 0,
        s.buckets == buckets_spec(s.now as int),
{
    let now = now_seconds();
    Stamps { now, buckets: buckets(now) }
}

/// The second of the day (`0 <= s < 86400`) of instant `t` shifted by `offset`.
pub open spec fn day_second(t: int, offset: int) -> int {
    (t + offset) % (SECONDS_PER_DAY as int)
}

/// Wall-clock label (`HH:MM:SS`) of the start of bucket `b` at resolution `r`,
/// in a time zone `utc_offset` seconds east of UTC.
pub fn bucket_label(b: i64, r: Resolution, utc_offset: i64) -> (s: String)
    ensures
        s@ == hms_text(day_second(b * width_of(r), utc_offset as int)),
{
    let w = r.width_secs();
    let x: i128 = b as i128 * w as i128 + utc_offset as i128;
    let q = floor_div(x, SECONDS_PER_DAY as i128);
    proof {
        lemma_fundamental_div_mod(x as int, SECONDS_PER_DAY as int);
    }
    let sod = x - q * (SECONDS_PER_DAY as i128);
    clock_text(sod as u32)
}

/// Every instant of the window `[k * width, (k + 1) * width)` lies in bucket `k`,
/// so two such instants always share their bucket id.
pub proof fn lemma_same_window_same_bucket(t1: int, t2: int, k: int, r: Resolution)
    requires
        k * width_of(r) <= t1 < (k + 1) * width_of(r),
        k * width_of(r) <= t2 < (k + 1) * width_of(r),
    ensures
        bucket_spec(t1, r) == k,
        bucket_spec(t2, r) == k,
        buckets_spec(t1).at(r) == buckets_spec(t2).at(r),
{
    let w = width_of(r);
    assert((k + 1) * w == k * w + w) by (nonlinear_arith);
    lemma_fundamental_div_mod_converse(t1, w, k, t1 - k * w);
    lemma_fundamental_div_mod_converse(t2, w, k, t2 - k * w);
}

/// Bucket ids never decrease as time moves forward.
pub proof fn lemma_bucket_monotonic(t1: int, t2: int, r: Resolution)
    requires
        t1 <= t2,
    ensures
        bucket_spec(t1, r) <= bucket_spec(t2, r),
{
    lemma_div_is_ordered(t1, t2, width_of(r));
}

} // verus!
