use vstd::prelude::*;
use crate::decimal::MAX_READING;
use crate::bucket::floor_div;

verus! {

/// Catchment storage is counted in units of 1/28800 mm: the depth that the
/// constant baseflow loss (3·Δt/24/12/300 mm over Δt seconds) drains in one
/// second. One hundredth of a millimetre of rain is 288 such units.
pub const UNITS_PER_HUNDREDTH: i64 = 288;

/// The storage floor, −30 mm.
pub const STORAGE_FLOOR: i64 = -864000;

/// Elapsed seconds assumed when a device has no earlier state.
pub const DEFAULT_INTERVAL: i64 = 300;

/// Storage before the rain step, clamped to the floor:
/// `max(S₋₁ + rain − loss·Δt, −30 mm)`.
pub open spec fn storage_level(prev: int, rain: int, interval: int) -> int {
    let s = prev + UNITS_PER_HUNDREDTH * rain - interval;
    if s < STORAGE_FLOOR {
        STORAGE_FLOOR as int
    } else {
        s
    }
}

/// The excess released by a storage step: all of the level once it is positive.
pub open spec fn excess_spec(prev: int, rain: int, interval: int) -> int {
    let s = storage_level(prev, rain, interval);
    if s > 0 {
        s
    } else {
        0
    }
}

/// The storage kept after a storage step: empty once the level is positive.
pub open spec fn kept_spec(prev: int, rain: int, interval: int) -> int {
    let s = storage_level(prev, rain, interval);
    if s > 0 {
        0
    } else {
        s
    }
}

/// Outcome of one storage step, both in storage units.
#[derive(Clone, Copy, Debug, PartialEq, Eq, Structural)]
pub struct StorageStep {
    pub excess: i64,
    pub storage: i64,
}

/// One storage step: `prev` storage (units), `rain` increment (hundredths of
/// a millimetre) and `interval` seconds since the previous step.
pub fn cal_storage(prev: i64, rain: i64, interval: i64) -> (r: StorageStep)
    requires
        prev + UNITS_PER_HUNDREDTH * rain - interval <= i64::MAX,
    ensures
        r.excess == excess_spec(prev as int, rain as int, interval as int),
        r.storage == kept_spec(prev as int, rain as int, interval as int),
        STORAGE_FLOOR <= r.storage <= 0,
        r.excess >= 0,
{
    let r128 = rain as i128;
    assert(-2_700_000_000_000_000_000_000 <= 288 * r128 <= 2_700_000_000_000_000_000_000);
    let s: i128 = prev as i128 + 288 * r128 - interval as i128;
    let s: i64 = if s < STORAGE_FLOOR as i128 {
        STORAGE_FLOOR
    } else {
        s as i64
    };
    if s > 0 {
        StorageStep { excess: s, storage: 0 }
    } else {
        StorageStep { excess: 0, storage: s }
    }
}

/// The integer square root: the `r` with `r² <= n < (r + 1)²`.
pub open spec fn is_root(n: int, r: int) -> bool {
    0 <= r && r * r <= n < (r + 1) * (r + 1)
}

pub open spec fn int_sqrt(n: int) -> int {
    choose|r: int| is_root(n, r)
}

proof fn lemma_root_unique(n: int, a: int, b: int)
    requires
        is_root(n, a),
        is_root(n, b),
    ensures
        a == b,
{
    if a < b {
        assert((a + 1) * (a + 1) <= b * b) by (nonlinear_arith)
            requires
                0 <= a,
                a + 1 <= b,
        ;
    } else if b < a {
        assert((b + 1) * (b + 1) <= a * a) by (nonlinear_arith)
            requires
                0 <= b,
                b + 1 <= a,
        ;
    }
}

/// Integer square root by bisection.
pub fn isqrt(n: u128) -> (r: u64)
    ensures
        r == int_sqrt(n as int),
        is_root(n as int, r as int),
{
    let mut lo: u128 = 0;
    let mut hi: u128 = 0x1_0000_0000_0000_0000;
    assert(hi * hi > u128::MAX) by (nonlinear_arith)
        requires
            hi == 0x1_0000_0000_0000_0000u128,
    ;
    while hi - lo > 1
        invariant
            lo < hi <= 0x1_0000_0000_0000_0000u128,
            lo * lo <= n,
            n < hi * hi,
        decreases hi - lo,
    {
        let mid = lo + (hi - lo) / 2;
        assert(mid * mid <= u128::MAX) by (nonlinear_arith)
            requires
                mid < 0x1_0000_0000_0000_0000u128,
        ;
        if mid * mid <= n {
            lo = mid;
        } else {
            hi = mid;
        }
    }
    assert(hi == lo + 1);
    proof {
        lemma_root_unique(n as int, lo as int, int_sqrt(n as int));
    }
    lo as u64
}

/// Stage-discharge relation `Q = 1.5 · width · depth^1.5`, with width and
/// depth in hundredths of a metre and `Q` in hundredths, rounded down:
/// `⌊3 · W · √(D³ · 10⁴) / 200000⌋` with the square root taken in integers.
pub open spec fn flow_spec(width: int, depth: int) -> int {
    (3 * width * int_sqrt(depth * depth * depth * 10000)) / 200000
}

/// Discharge for a depth reading; a device without a stream width gets 0.
/// `None` for a negative depth, which has no discharge, and for values
/// beyond `MAX_READING`.
pub fn cal_flow_value(stream_width: Option<i64>, depth: i64) -> (r: Option<i64>)
    ensures
        r is Some <==> 0 <= depth <= MAX_READING && (stream_width matches Some(w) ==> -MAX_READING
            <= w <= MAX_READING),
        r matches Some(q) ==> q == flow_spec(
            match stream_width {
                Some(w) => w as int,
                None => 0,
            },
            depth as int,
        ),
{
    if depth < 0 || depth > MAX_READING {
        return None;
    }
    let w: i64 = match stream_width {
        Some(w) => w,
        None => 0,
    };
    if w < -MAX_READING || w > MAX_READING {
        return None;
    }
    let d = depth as u128;
    assert(d * d <= 10_000_000_000_000_000) by (nonlinear_arith)
        requires
            d <= 100_000_000,
    ;
    assert(d * d * d <= 1_000_000_000_000_000_000_000_000) by (nonlinear_arith)
        requires
            d <= 100_000_000,
            d * d <= 10_000_000_000_000_000,
    ;
    let root = isqrt(d * d * d * 10000);
    assert(root <= 100_000_000_000_000) by (nonlinear_arith)
        requires
            root * root <= 10_000_000_000_000_000_000_000_000_000,
            root >= 0,
    ;
    let wr = w as i128;
    let rr = root as i128;
    assert(-10_000_000_000_000_000_000_000 <= wr * rr <= 10_000_000_000_000_000_000_000) by (nonlinear_arith)
        requires
            -100_000_000 <= wr <= 100_000_000,
            0 <= rr <= 100_000_000_000_000,
    ;
    let num: i128 = 3 * (wr * rr);
    assert(num == 3 * w * root) by (nonlinear_arith)
        requires
            num == 3 * (wr * rr),
            wr == w,
            rr == root,
    ;
    let q = floor_div(num, 200000);
    Some(q as i64)
}

/// The state a device's previous step left: its storage (units) and when it
/// was captured (seconds since the epoch).
#[derive(Clone, Copy, Debug, PartialEq, Eq, Structural)]
pub struct PriorState {
    pub storage: i64,
    pub captured_at: i64,
}

/// Storage before the step: the predecessor's, or the floor without one.
pub open spec fn prior_storage(prior: Option<PriorState>) -> int {
    match prior {
        Some(p) => p.storage as int,
        None => STORAGE_FLOOR as int,
    }
}

/// Seconds since the predecessor, or `DEFAULT_INTERVAL` without one.
pub open spec fn interval_spec(prior: Option<PriorState>, now: int) -> int {
    match prior {
        Some(p) => now - p.captured_at,
        None => DEFAULT_INTERVAL as int,
    }
}

/// One step of the storage model and the interval it spanned.
#[derive(Clone, Copy, Debug, PartialEq, Eq, Structural)]
pub struct RainStep {
    pub interval: i64,
    pub step: StorageStep,
}

/// The storage step for a rain increment (hundredths) at instant `now`,
/// continuing from the device's most recent state, or from the defaults when
/// it has none. `None` only when the interval or the storage level does not
/// fit in 64 bits.
pub fn next_storage(prior: Option<PriorState>, now: i64, rain: i64) -> (r: Option<RainStep>)
    ensures
        r is Some <==> (i64::MIN <= interval_spec(prior, now as int) <= i64::MAX && prior_storage(
            prior,
        ) + UNITS_PER_HUNDREDTH * rain - interval_spec(prior, now as int) <= i64::MAX),
        r matches Some(s) ==> {
            &&& s.interval == interval_spec(prior, now as int)
            &&& s.step.excess == excess_spec(prior_storage(prior), rain as int, s.interval as int)
            &&& s.step.storage == kept_spec(prior_storage(prior), rain as int, s.interval as int)
        },
{
    let (prev, interval): (i64, i128) = match prior {
        Some(p) => (p.storage, now as i128 - p.captured_at as i128),
        None => (STORAGE_FLOOR, DEFAULT_INTERVAL as i128),
    };
    if interval < i64::MIN as i128 || interval > i64::MAX as i128 {
        return None;
    }
    let r128 = rain as i128;
    assert(-2_700_000_000_000_000_000_000 <= 288 * r128 <= 2_700_000_000_000_000_000_000);
    let level: i128 = prev as i128 + 288 * r128 - interval;
    if level > i64::MAX as i128 {
        return None;
    }
    let interval = interval as i64;
    Some(RainStep { interval, step: cal_storage(prev, rain, interval) })
}

} // verus!
