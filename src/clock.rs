use vstd::prelude::*;

verus! {

/// The character of a decimal digit `0 <= d < 10`.
pub open spec fn digit_char(d: int) -> char {
    ('0' as int + d) as char
}

/// `n < 100` written with exactly two digits.
pub open spec fn two_digits(n: int) -> Seq<char> {
    seq![digit_char(n / 10), digit_char(n % 10)]
}

/// `HH:MM:SS` for a second of the day.
pub open spec fn hms_text(secs_of_day: int) -> Seq<char> {
    two_digits(secs_of_day / 3600) + seq![':'] + two_digits((secs_of_day / 60) % 60) + seq![':']
        + two_digits(secs_of_day % 60)
}

/// Relies on chrono's `Utc::now` and `DateTime::timestamp`: the seconds since
/// the Unix epoch. `Utc::now` takes them from `SystemTime::duration_since`
/// and panics on a clock set before the epoch, so a returned value is never
/// negative.
#[verifier::external_body]
pub(crate) fn now_seconds() -> (r: i64)
    ensures
        r >= 0,
{
    chrono::Utc::now().timestamp()
}

/// Relies on chrono's `NaiveTime::from_num_seconds_from_midnight_opt`, which
/// accepts every second below 86400, and on the `Display` of `NaiveTime`,
/// which writes hours, minutes and seconds with two digits each and no
/// fraction when the nanoseconds are zero.
#[verifier::external_body]
pub(crate) fn clock_text(secs_of_day: u32) -> (r: String)
    requires
        secs_of_day < 86400,
    ensures
        r@ == hms_text(secs_of_day as int),
{
    match chrono::NaiveTime::from_num_seconds_from_midnight_opt(secs_of_day, 0) {
        Some(t) => t.to_string(),
        None => String::new(),
    }
}

} // verus!
