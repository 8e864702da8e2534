use vstd::prelude::*;
use vstd::string::StrSliceExecFns;
use crate::decimal::{
    all_digits,
    digit_of,
    digits_value,
    is_digit,
    lemma_digits_nonneg,
    parse_hundredths,
    reading_hundredths,
};

verus! {

/// Point id of the cumulative rain gauge.
pub const RAINFALL_POINT: u32 = 44266;

/// Depth sensors use every fourth point id from this one ...
pub const FIRST_DEPTH_POINT: u32 = 44271;

/// ... up to this one.
pub const LAST_DEPTH_POINT: u32 = 44399;

/// The number a point id denotes: exactly five decimal digits.
pub open spec fn point_number(s: Seq<char>) -> Option<int> {
    if s.len() == 5 && all_digits(s) {
        Some(digits_value(s))
    } else {
        None
    }
}

pub open spec fn is_rainfall_id(s: Seq<char>) -> bool {
    point_number(s) == Some(RAINFALL_POINT as int)
}

pub open spec fn is_depth_id(s: Seq<char>) -> bool {
    point_number(s) matches Some(n) && FIRST_DEPTH_POINT <= n <= LAST_DEPTH_POINT && (n
        - FIRST_DEPTH_POINT) % 4 == 0
}

/// The number of a five-digit point id.
pub fn parse_point_id(s: &str) -> (r: Option<u32>)
    ensures
        r matches Some(n) ==> point_number(s@) == Some(n as int),
        r is None ==> point_number(s@) is None,
{
    if s.unicode_len() != 5 {
        return None;
    }
    let mut acc: u32 = 0;
    let mut i: usize = 0;
    while i < 5
        invariant
            0 <= i <= 5,
            s@.len() == 5,
            all_digits(s@.take(i as int)),
            acc == digits_value(s@.take(i as int)),
            acc < 100000,
            i == 0 ==> acc == 0,
            acc < pow10(i as int),
        decreases 5 - i,
    {
        match digit_of(s.get_char(i)) {
            None => {
                assert(!is_digit(s@[i as int]));
                return None;
            },
            Some(d) => {
                proof {
                    assert(s@.take(i + 1).drop_last() =~= s@.take(i as int));
                    assert(all_digits(s@.take(i + 1)));
                    lemma_digits_nonneg(s@.take(i as int));
                    assert(pow10(i + 1) == 10 * pow10(i as int));
                    lemma_pow10_small(i + 1);
                }
                acc = acc * 10 + d as u32;
                i = i + 1;
            },
        }
    }
    assert(s@.take(5) =~= s@);
    Some(acc)
}

spec fn pow10(i: int) -> int
    decreases i,
{
    if i <= 0 {
        1
    } else {
        10 * pow10(i - 1)
    }
}

proof fn lemma_pow10_small(i: int)
    requires
        0 <= i <= 5,
    ensures
        pow10(i) <= 100000,
{
    reveal_with_fuel(pow10, 6);
    assert(i == 0 || i == 1 || i == 2 || i == 3 || i == 4 || i == 5);
}

/// One measurement of a transport payload: which sensor point it comes from
/// and its value as the device sent it.
#[derive(Debug)]
pub struct DataPoint {
    pub point_id: String,
    pub value: String,
    pub slave_index: String,
    pub slave_addr: String,
}

impl DataPoint {
    /// The point is the cumulative rain gauge.
    pub fn is_rainfall(&self) -> (r: bool)
        ensures
            r == is_rainfall_id(self.point_id@),
    {
        match parse_point_id(self.point_id.as_str()) {
            Some(n) => n == RAINFALL_POINT,
            None => false,
        }
    }

    /// The point is one of the water-depth sensors.
    pub fn is_depth(&self) -> (r: bool)
        ensures
            r == is_depth_id(self.point_id@),
    {
        match parse_point_id(self.point_id.as_str()) {
            Some(n) => FIRST_DEPTH_POINT <= n && n <= LAST_DEPTH_POINT && (n - FIRST_DEPTH_POINT)
                % 4 == 0,
            None => false,
        }
    }

    /// The value in hundredths; `None` when it is no decimal reading.
    pub fn get_value(&self) -> (r: Option<i64>)
        ensures
            r matches Some(v) ==> reading_hundredths(self.value@) == Some(v as int),
            r is None ==> reading_hundredths(self.value@) is None,
    {
        parse_hundredths(self.value.as_str())
    }
}

/// A decoded transport message: the sending device and its measurements.
#[derive(Debug)]
pub struct PayloadData {
    pub data_points: Vec<DataPoint>,
    pub dev_name: String,
}

/// A measurement that the core acts on, with its value in hundredths.
#[derive(Clone, Copy, Debug, PartialEq, Eq, Structural)]
pub enum Reading {
    /// A cumulative rain-gauge counter reading (mm).
    Rainfall(i64),
    /// A water-depth reading (m).
    Depth(i64),
}

/// What a point contributes: a reading when it comes from a known sensor and
/// its value parses, else nothing.
pub open spec fn point_reading(p: DataPoint) -> Option<Reading> {
    match reading_hundredths(p.value@) {
        Some(v) => if is_rainfall_id(p.point_id@) {
            Some(Reading::Rainfall(v as i64))
        } else if is_depth_id(p.point_id@) {
            Some(Reading::Depth(v as i64))
        } else {
            None
        },
        None => None,
    }
}

/// The readings of a sequence of points, in order.
pub open spec fn readings_spec(ps: Seq<DataPoint>) -> Seq<Reading>
    decreases ps.len(),
{
    if ps.len() == 0 {
        Seq::empty()
    } else {
        let init = readings_spec(ps.drop_last());
        match point_reading(ps.last()) {
            Some(r) => init.push(r),
            None => init,
        }
    }
}

impl PayloadData {
    /// The rain-gauge and depth readings of the message, in order; points of
    /// other sensors and values that do not parse are left out.
    pub fn readings(&self) -> (r: Vec<Reading>)
        ensures
            r@ == readings_spec(self.data_points@),
    {
        let mut out: Vec<Reading> = Vec::new();
        let mut i: usize = 0;
        while i < self.data_points.len()
            invariant
                0 <= i <= self.data_points@.len(),
                out@ == readings_spec(self.data_points@.take(i as int)),
            decreases self.data_points@.len() - i,
        {
            let p = &self.data_points[i];
            proof {
                assert(self.data_points@.take(i + 1).drop_last() =~= self.data_points@.take(
                    i as int,
                ));
            }
            match p.get_value() {
                Some(v) => {
                    if p.is_rainfall() {
                        out.push(Reading::Rainfall(v));
                    } else if p.is_depth() {
                        out.push(Reading::Depth(v));
                    }
                },
                None => {},
            }
            i = i + 1;
        }
        assert(self.data_points@.take(i as int) =~= self.data_points@);
        out
    }
}

} // verus!
