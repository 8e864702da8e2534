use vstd::prelude::*;
use crate::decimal::MAX_READING;
use crate::delta::{delta_spec, DeltaCache};
use crate::hydro::{
    cal_flow_value,
    excess_spec,
    flow_spec,
    interval_spec,
    kept_spec,
    next_storage,
    prior_storage,
    PriorState,
    RainStep,
    UNITS_PER_HUNDREDTH,
};

verus! {

/// What one rain-gauge reading produces: the rainfall increment to store
/// (hundredths of a millimetre) and the storage step it drives.
#[derive(Clone, Copy, Debug, PartialEq, Eq, Structural)]
pub struct RainfallRecord {
    pub increment: i64,
    pub rain: RainStep,
}

/// What one depth reading produces: the depth and, when it has one, the
/// discharge through the device's stream section (both in hundredths).
#[derive(Clone, Copy, Debug, PartialEq, Eq, Structural)]
pub struct DepthRecord {
    pub depth: i64,
    pub flow: Option<i64>,
}

/// Handles a cumulative rain-gauge reading `raw` received on `topic` at
/// instant `now`: the delta cache turns it into an increment, which drives
/// the storage step from the device's most recent state `prior`. The cache
/// remembers `raw` in every case; `None` only when the storage step does not
/// fit in 64 bits.
pub fn store_rainfall(
    cache: &mut DeltaCache,
    topic: &str,
    raw: i64,
    prior: Option<PriorState>,
    now: i64,
) -> (r: Option<RainfallRecord>)
    requires
        old(cache).wf(),
        -MAX_READING <= raw <= MAX_READING,
    ensures
        final(cache).wf(),
        final(cache)@ == old(cache)@.insert(topic@, raw),
        ({
            let inc = delta_spec(
                if old(cache)@.contains_key(topic@) {
                    Some(old(cache)@[topic@])
                } else {
                    None
                },
                raw as int,
            );
            let dt = interval_spec(prior, now as int);
            &&& r is Some <==> (i64::MIN <= dt <= i64::MAX && prior_storage(prior)
                + UNITS_PER_HUNDREDTH * inc - dt <= i64::MAX)
            &&& r matches Some(rec) ==> {
                &&& rec.increment == inc
                &&& rec.rain.interval == dt
                &&& rec.rain.step.excess == excess_spec(prior_storage(prior), inc, dt)
                &&& rec.rain.step.storage == kept_spec(prior_storage(prior), inc, dt)
            }
        }),
{
    let increment = cache.observe(topic, raw);
    match next_storage(prior, now, increment) {
        Some(rain) => Some(RainfallRecord { increment, rain }),
        None => None,
    }
}

/// Handles a water-depth reading (hundredths of a metre) for a device with
/// the given stream width: the depth is kept and its discharge computed
/// through the stage-discharge relation.
pub fn store_water_depth(depth: i64, stream_width: Option<i64>) -> (r: DepthRecord)
    ensures
        r.depth == depth,
        r.flow is Some <==> 0 <= depth <= MAX_READING && (stream_width matches Some(w)
            ==> -MAX_READING <= w <= MAX_READING),
        r.flow matches Some(q) ==> q == flow_spec(
            match stream_width {
                Some(w) => w as int,
                None => 0,
            },
            depth as int,
        ),
{
    DepthRecord { depth, flow: cal_flow_value(stream_width, depth) }
}

} // verus!
