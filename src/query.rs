use vstd::prelude::*;
use crate::bucket::{
    bucket_label,
    bucket_of,
    bucket_spec,
    day_second,
    lemma_bucket_below_max,
    lookback_bucket,
    lookback_of,
    width_of,
    Resolution,
};
use crate::clock::hms_text;

verus! {

/// Static configuration of a monitored device. Heights, design rainfalls,
/// stream width and catchment area are in hundredths of their unit.
#[derive(Debug)]
pub struct Device {
    pub id: i32,
    pub region: String,
    pub name: String,
    pub device_id: String,
    pub dike_height: i64,
    pub half_hour_design: i64,
    pub one_hour_design: i64,
    pub one_half_hour_design: i64,
    pub two_hour_design: i64,
    pub three_design: i64,
    pub stream_width: Option<i64>,
    pub rainfall_area: Option<i64>,
}

impl Device {
    pub fn height_def(&self) -> (r: i64)
        ensures
            r == self.dike_height,
    {
        self.dike_height
    }

    pub fn half_hour_def(&self) -> (r: i64)
        ensures
            r == self.half_hour_design,
    {
        self.half_hour_design
    }

    pub fn one_hour_def(&self) -> (r: i64)
        ensures
            r == self.one_hour_design,
    {
        self.one_hour_design
    }

    pub fn one_half_hour_def(&self) -> (r: i64)
        ensures
            r == self.one_half_hour_design,
    {
        self.one_half_hour_design
    }

    pub fn two_hour_def(&self) -> (r: i64)
        ensures
            r == self.two_hour_design,
    {
        self.two_hour_design
    }

    pub fn three_hour_def(&self) -> (r: i64)
        ensures
            r == self.three_design,
    {
        self.three_design
    }
}

/// The value reduced for device `id` in per-device aggregate rows: the
/// first row of that device; 0 when it has none or its value is absent.
pub open spec fn amount_for(rows: Seq<(i32, Option<i64>)>, id: i32) -> i64
    decreases rows.len(),
{
    if rows.len() == 0 {
        0
    } else if rows[0].0 == id {
        match rows[0].1 {
            Some(v) => v,
            None => 0,
        }
    } else {
        amount_for(rows.drop_first(), id)
    }
}

pub fn amount_of(rows: &Vec<(i32, Option<i64>)>, id: i32) -> (r: i64)
    ensures
        r == amount_for(rows@, id),
{
    let mut i: usize = 0;
    assert(rows@.skip(0) =~= rows@);
    while i < rows.len()
        invariant
            0 <= i <= rows@.len(),
            amount_for(rows@, id) == amount_for(rows@.skip(i as int), id),
        decreases rows@.len() - i,
    {
        assert(rows@.skip(i + 1) =~= rows@.skip(i as int).drop_first());
        if rows[i].0 == id {
            return match rows[i].1 {
                Some(v) => v,
                None => 0,
            };
        }
        i = i + 1;
    }
    0
}

/// Per-device aggregates of the current windows, as `(device id, value)`
/// rows: the latest depth, the rainfall sums over the current bucket of each
/// resolution, and the half-hour means of modelled and measured discharge.
pub struct SnapshotValues {
    pub depths: Vec<(i32, Option<i64>)>,
    pub half_rain: Vec<(i32, Option<i64>)>,
    pub one_rain: Vec<(i32, Option<i64>)>,
    pub one_half_rain: Vec<(i32, Option<i64>)>,
    pub two_rain: Vec<(i32, Option<i64>)>,
    pub three_rain: Vec<(i32, Option<i64>)>,
    pub quantity: Vec<(i32, Option<i64>)>,
    pub flow: Vec<(i32, Option<i64>)>,
}

/// One line of the dashboard snapshot: current values beside the device's
/// design thresholds, all in hundredths.
#[derive(Debug)]
pub struct MtRow {
    pub id: i32,
    pub name: String,
    pub region: String,
    pub depth: i64,
    pub depth_def: i64,
    pub half_rain: i64,
    pub half_rain_def: i64,
    pub one_rain: i64,
    pub one_rain_def: i64,
    pub one_half_rain: i64,
    pub one_half_rain_def: i64,
    pub two_rain: i64,
    pub two_rain_def: i64,
    pub three_rain: i64,
    pub three_rain_def: i64,
    pub quantity: i64,
    pub flow: i64,
}

pub open spec fn mt_row_spec(d: Device, v: SnapshotValues) -> MtRow {
    MtRow {
        id: d.id,
        name: d.name,
        region: d.region,
        depth: amount_for(v.depths@, d.id),
        depth_def: d.dike_height,
        half_rain: amount_for(v.half_rain@, d.id),
        half_rain_def: d.half_hour_design,
        one_rain: amount_for(v.one_rain@, d.id),
        one_rain_def: d.one_hour_design,
        one_half_rain: amount_for(v.one_half_rain@, d.id),
        one_half_rain_def: d.one_half_hour_design,
        two_rain: amount_for(v.two_rain@, d.id),
        two_rain_def: d.two_hour_design,
        three_rain: amount_for(v.three_rain@, d.id),
        three_rain_def: d.three_design,
        quantity: amount_for(v.quantity@, d.id),
        flow: amount_for(v.flow@, d.id),
    }
}

/// The dashboard snapshot: one row per device, in order, each value taken
/// from the aggregates of that device and 0 where it has none.
pub fn mt_rows(devices: &Vec<Device>, v: &SnapshotValues) -> (r: Vec<MtRow>)
    ensures
        r@.len() == devices@.len(),
        forall|i: int| 0 <= i < r@.len() ==> #[trigger] r@[i] == mt_row_spec(devices@[i], *v),
{
    let mut out: Vec<MtRow> = Vec::new();
    let mut i: usize = 0;
    while i < devices.len()
        invariant
            0 <= i <= devices@.len(),
            out@.len() == i,
            forall|j: int| 0 <= j < i ==> #[trigger] out@[j] == mt_row_spec(devices@[j], *v),
        decreases devices@.len() - i,
    {
        let d = &devices[i];
        let row = MtRow {
            id: d.id,
            name: d.name.clone(),
            region: d.region.clone(),
            depth: amount_of(&v.depths, d.id),
            depth_def: d.height_def(),
            half_rain: amount_of(&v.half_rain, d.id),
            half_rain_def: d.half_hour_def(),
            one_rain: amount_of(&v.one_rain, d.id),
            one_rain_def: d.one_hour_def(),
            one_half_rain: amount_of(&v.one_half_rain, d.id),
            one_half_rain_def: d.one_half_hour_def(),
            two_rain: amount_of(&v.two_rain, d.id),
            two_rain_def: d.two_hour_def(),
            three_rain: amount_of(&v.three_rain, d.id),
            three_rain_def: d.three_hour_def(),
            quantity: amount_of(&v.quantity, d.id),
            flow: amount_of(&v.flow, d.id),
        };
        out.push(row);
        i = i + 1;
    }
    out
}

/// Start of the current bucket at resolution `r`: the snapshot windows
/// begin there.
pub fn snapshot_since(now: i64, r: Resolution) -> (s: i64)
    requires
        i64::MIN + width_of(r) <= now,
    ensures
        s == bucket_spec(now as int, r) * width_of(r),
{
    let b = bucket_of(now, r);
    let w = r.width_secs();
    proof {
        vstd::arithmetic::div_mod::lemma_fundamental_div_mod(now as int, w as int);
        assert(b * w <= now);
        assert(b * w > now - w);
    }
    b * w
}

/// Earliest capture instant that a chart series at resolution `r` reads.
pub fn series_since(now: i64, r: Resolution) -> (s: i64)
    requires
        i64::MIN + lookback_of(r) <= now,
    ensures
        s == now - lookback_of(r),
{
    now - r.lookback_secs()
}

/// The reduced value of bucket `b` among `(bucket, value)` aggregate rows:
/// that of the first row for `b`, absent when there is none.
pub open spec fn value_at(rows: Seq<(i64, Option<i64>)>, b: int) -> Option<i64>
    decreases rows.len(),
{
    if rows.len() == 0 {
        None
    } else if rows[0].0 == b {
        rows[0].1
    } else {
        value_at(rows.drop_first(), b)
    }
}

fn value_of(rows: &Vec<(i64, Option<i64>)>, b: i64) -> (r: Option<i64>)
    ensures
        r == value_at(rows@, b as int),
{
    let mut i: usize = 0;
    assert(rows@.skip(0) =~= rows@);
    while i < rows.len()
        invariant
            0 <= i <= rows@.len(),
            value_at(rows@, b as int) == value_at(rows@.skip(i as int), b as int),
        decreases rows@.len() - i,
    {
        assert(rows@.skip(i + 1) =~= rows@.skip(i as int).drop_first());
        if rows[i].0 == b {
            return rows[i].1;
        }
        i = i + 1;
    }
    None
}

/// Bucket `b` lies in the look-back window of resolution `r` ending at `now`.
pub open spec fn in_window(b: int, now: int, r: Resolution) -> bool {
    bucket_spec(now - lookback_of(r), r) <= b <= bucket_spec(now, r)
}

/// Row `j` exists and its bucket lies in the window.
pub open spec fn row_in_window(rows: Seq<(i64, Option<i64>)>, j: int, now: int, r: Resolution) -> bool {
    0 <= j < rows.len() && in_window(rows[j].0 as int, now, r)
}

/// A chart series: consecutive bucket ids, the reduced value of each (absent
/// where no row holds one) and its wall-clock label.
#[derive(Debug)]
pub struct Series {
    pub buckets: Vec<i64>,
    pub values: Vec<Option<i64>>,
    pub times: Vec<String>,
}

/// Builds the chart series at resolution `r` from `(bucket, value)` rows of
/// the store. It runs over every bucket from the earliest to the latest that
/// a row holds inside the look-back window ending at `now`, gaps included;
/// without such rows it is empty. Labels are local time `utc_offset` seconds
/// east of UTC.
pub fn build_series(
    rows: &Vec<(i64, Option<i64>)>,
    now: i64,
    r: Resolution,
    utc_offset: i64,
) -> (s: Series)
    ensures
        s.values@.len() == s.buckets@.len(),
        s.times@.len() == s.buckets@.len(),
        s.buckets@.len() == 0 <==> forall|j: int| !row_in_window(rows@, j, now as int, r),
        s.buckets@.len() > 0 ==> {
            &&& exists|j: int| row_in_window(rows@, j, now as int, r) && rows@[j].0 == s.buckets@[0]
            &&& exists|j: int|
                row_in_window(rows@, j, now as int, r) && rows@[j].0 == s.buckets@.last()
            &&& forall|j: int|
                row_in_window(rows@, j, now as int, r) ==> s.buckets@[0] <= rows@[j].0
                    <= s.buckets@.last()
        },
        forall|i: int| 0 <= i < s.buckets@.len() ==> #[trigger] s.buckets@[i] == s.buckets@[0] + i,
        forall|i: int|
            0 <= i < s.buckets@.len() ==> #[trigger] s.values@[i] == value_at(
                rows@,
                s.buckets@[i] as int,
            ),
        forall|i: int|
            0 <= i < s.buckets@.len() ==> #[trigger] s.times@[i]@ == hms_text(
                day_second(s.buckets@[i] * width_of(r), utc_offset as int),
            ),
{
    let first = lookback_bucket(now, r);
    let last = bucket_of(now, r);
    let mut lo: i64 = 0;
    let mut hi: i64 = 0;
    let mut any = false;
    let mut j: usize = 0;
    while j < rows.len()
        invariant
            0 <= j <= rows@.len(),
            first == bucket_spec(now - lookback_of(r), r),
            last == bucket_spec(now as int, r),
            any <==> exists|x: int| 0 <= x < j && row_in_window(rows@, x, now as int, r),
            any ==> {
                &&& first <= lo <= hi <= last
                &&& exists|x: int| 0 <= x < j && row_in_window(rows@, x, now as int, r) && rows@[x].0 == lo
                &&& exists|x: int| 0 <= x < j && row_in_window(rows@, x, now as int, r) && rows@[x].0 == hi
                &&& forall|x: int| 0 <= x < j && row_in_window(rows@, x, now as int, r) ==> lo <= rows@[x].0 <= hi
            },
        decreases rows@.len() - j,
    {
        let b = rows[j].0;
        if first <= b && b <= last {
            if !any {
                lo = b;
                hi = b;
                any = true;
            } else {
                if b < lo {
                    lo = b;
                }
                if b > hi {
                    hi = b;
                }
            }
            assert(row_in_window(rows@, j as int, now as int, r));
        }
        j = j + 1;
    }
    let mut buckets: Vec<i64> = Vec::new();
    let mut values: Vec<Option<i64>> = Vec::new();
    let mut times: Vec<String> = Vec::new();
    if !any {
        return Series { buckets, values, times };
    }
    proof {
        lemma_bucket_below_max(now as int, r);
    }
    let mut k: i64 = lo;
    while k <= hi
        invariant
            lo <= k <= hi + 1,
            hi < i64::MAX,
            buckets@.len() == k - lo,
            values@.len() == k - lo,
            times@.len() == k - lo,
            forall|i: int| 0 <= i < buckets@.len() ==> #[trigger] buckets@[i] == lo + i,
            forall|i: int|
                0 <= i < buckets@.len() ==> #[trigger] values@[i] == value_at(rows@, buckets@[i] as int),
            forall|i: int|
                0 <= i < buckets@.len() ==> #[trigger] times@[i]@ == hms_text(
                    day_second(buckets@[i] * width_of(r), utc_offset as int),
                ),
        decreases hi + 1 - k,
    {
        buckets.push(k);
        values.push(value_of(rows, k));
        times.push(bucket_label(k, r, utc_offset));
        k = k + 1;
    }
    Series { buckets, values, times }
}

} // verus!
