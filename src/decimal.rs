use vstd::prelude::*;
use vstd::string::StrSliceExecFns;

verus! {

/// Largest magnitude, in hundredths, that a reading may have (one million
/// units of the measured quantity).
pub const MAX_READING: i64 = 100_000_000;

/// One past the largest whole part that a reading may have.
const WHOLE_CAP: i64 = 1_000_001;

pub open spec fn is_digit(c: char) -> bool {
    '0' <= c && c <= '9'
}

pub open spec fn digit_value(c: char) -> int {
    c as int - '0' as int
}

pub open spec fn all_digits(s: Seq<char>) -> bool {
    forall|i: int| 0 <= i < s.len() ==> is_digit(#[trigger] s[i])
}

/// The number that a string of decimal digits denotes.
pub open spec fn digits_value(s: Seq<char>) -> int
    decreases s.len(),
{
    if s.len() == 0 {
        0
    } else {
        digits_value(s.drop_last()) * 10 + digit_value(s.last())
    }
}

/// The first two digits after the decimal point, as hundredths; further
/// digits are dropped.
pub open spec fn fraction_hundredths(f: Seq<char>) -> int {
    (if f.len() >= 1 {
        digit_value(f[0]) * 10
    } else {
        0
    }) + (if f.len() >= 2 {
        digit_value(f[1])
    } else {
        0
    })
}

/// `s` splits at position `i` into a whole part and a fraction part around a dot.
pub open spec fn dot_split(s: Seq<char>, i: int) -> bool {
    &&& 0 <= i < s.len()
    &&& s[i] == '.'
    &&& all_digits(s.take(i))
    &&& all_digits(s.skip(i + 1))
}

/// An unsigned decimal numeral (`12`, `12.5`, `.5`, `12.`), truncated to
/// hundredths; `None` when `s` is no such numeral.
pub open spec fn unsigned_hundredths(s: Seq<char>) -> Option<int> {
    if s.len() > 0 && all_digits(s) {
        Some(digits_value(s) * 100)
    } else if s.len() > 1 && exists|i: int| dot_split(s, i) {
        let i = choose|i: int| dot_split(s, i);
        Some(digits_value(s.take(i)) * 100 + fraction_hundredths(s.skip(i + 1)))
    } else {
        None
    }
}

/// A decimal numeral with an optional leading sign, truncated toward zero to
/// hundredths.
pub open spec fn decimal_hundredths(s: Seq<char>) -> Option<int> {
    if s.len() > 0 && s[0] == '-' {
        match unsigned_hundredths(s.skip(1)) {
            Some(v) => Some(-v),
            None => None,
        }
    } else if s.len() > 0 && s[0] == '+' {
        unsigned_hundredths(s.skip(1))
    } else {
        unsigned_hundredths(s)
    }
}

/// The reading that a value string denotes, in hundredths, when it is a
/// numeral within `MAX_READING`.
pub open spec fn reading_hundredths(s: Seq<char>) -> Option<int> {
    match decimal_hundredths(s) {
        Some(v) => if -MAX_READING <= v <= MAX_READING {
            Some(v)
        } else {
            None
        },
        None => None,
    }
}

pub(crate) proof fn lemma_digits_nonneg(s: Seq<char>)
    requires
        all_digits(s),
    ensures
        digits_value(s) >= 0,
    decreases s.len(),
{
    if s.len() > 0 {
        assert(all_digits(s.drop_last()));
        lemma_digits_nonneg(s.drop_last());
        assert(is_digit(s[s.len() - 1]));
    }
}

proof fn lemma_digits_grow(s: Seq<char>, k: int)
    requires
        all_digits(s),
        0 <= k <= s.len(),
    ensures
        digits_value(s.take(k)) <= digits_value(s),
    decreases s.len() - k,
{
    if k < s.len() {
        lemma_digits_grow(s, k + 1);
        assert(s.take(k + 1).drop_last() =~= s.take(k));
        assert(is_digit(s[k]));
        assert(all_digits(s.take(k)));
        lemma_digits_nonneg(s.take(k));
    } else {
        assert(s.take(k) =~= s);
    }
}

/// The digit that `c` stands for, when it is one.
pub(crate) fn digit_of(c: char) -> (r: Option<i64>)
    ensures
        r is Some <==> is_digit(c),
        r is Some ==> r->0 == digit_value(c),
{
    if c >= '0' && c <= '9' {
        Some((c as u32 - '0' as u32) as i64)
    } else {
        None
    }
}

spec fn with_sign(neg: bool, v: Option<int>) -> Option<int> {
    match v {
        Some(x) => Some(if neg { -x } else { x }),
        None => None,
    }
}

/// Parses a decimal reading such as `12.5` or `-0.75` into hundredths.
/// Digits past the second decimal are dropped; anything but an optional sign,
/// digits and one dot, or a value beyond `MAX_READING`, gives `None`.
pub fn parse_hundredths(s: &str) -> (r: Option<i64>)
    ensures
        r matches Some(v) ==> reading_hundredths(s@) == Some(v as int),
        r is None ==> reading_hundredths(s@) is None,
{
    let n = s.unicode_len();
    let mut start: usize = 0;
    let mut neg = false;
    if n > 0 {
        let c = s.get_char(0);
        if c == '-' {
            neg = true;
            start = 1;
        } else if c == '+' {
            start = 1;
        }
    }
    let ghost u = s@.skip(start as int);
    assert(s@.skip(0) =~= s@);
    assert(decimal_hundredths(s@) == with_sign(neg, unsigned_hundredths(u)));
    let mut i: usize = start;
    let mut whole: i64 = 0;
    let mut stopped = false;
    while i < n && !stopped
        invariant
            start <= i <= n,
            stopped ==> i < n && !is_digit(s@[i as int]),
            decimal_hundredths(s@) == with_sign(neg, unsigned_hundredths(u)),
            0 <= whole <= WHOLE_CAP,
            n == s@.len(),
            u == s@.skip(start as int),
            all_digits(u.take(i - start)),
            whole == if digits_value(u.take(i - start)) < WHOLE_CAP {
                digits_value(u.take(i - start))
            } else {
                WHOLE_CAP as int
            },
        decreases n - i + (if stopped { 0int } else { 1int }),
    {
        let c = s.get_char(i);
        let d = digit_of(c);
        match d {
            None => {
                stopped = true;
            },
            Some(dv) => {
                let ghost k = i - start;
                proof {
                    assert(u.take(k + 1).drop_last() =~= u.take(k));
                    assert(u[k] == s@[i as int]);
                    lemma_digits_nonneg(u.take(k));
                    assert(all_digits(u.take(k + 1)));
                }
                if whole >= WHOLE_CAP {
                    whole = WHOLE_CAP;
                } else {
                    let w = whole * 10 + dv;
                    whole = if w > WHOLE_CAP { WHOLE_CAP } else { w };
                }
                i = i + 1;
            },
        }
    }
    let ghost k = i - start;
    assert(all_digits(u.take(k)));
    if i == n {
        // whole number, no dot
        assert(u.take(k) =~= u);
        if i == start {
            assert(!(exists|j: int| dot_split(u, j)));
            return None;
        }
        if whole >= WHOLE_CAP {
            return None;
        }
        let v = whole * 100;
        if v > MAX_READING {
            return None;
        }
        return Some(if neg { -v } else { v });
    }
    let c = s.get_char(i);
    assert(c == u[k]);
    assert(!is_digit(c));
    if c != '.' {
        assert forall|j: int| !dot_split(u, j) by {
            if 0 <= j < u.len() && u[j] == '.' {
                if j < k {
                    assert(u.take(k)[j] == u[j]);
                } else if j > k {
                    assert(u.take(j)[k] == u[k]);
                }
            }
        }
        return None;
    }
    // the fraction part
    let fstart = i + 1;
    let ghost f = u.skip(k + 1);
    let mut frac: i64 = 0;
    let mut j: usize = fstart;
    while j < n
        invariant
            fstart <= j <= n,
            n == s@.len(),
            fstart == start + k + 1,
            start <= i < n,
            k == i - start,
            u[k] == '.',
            decimal_hundredths(s@) == with_sign(neg, unsigned_hundredths(u)),
            all_digits(u.take(k)),
            u == s@.skip(start as int),
            f == u.skip(k + 1),
            all_digits(f.take(j - fstart)),
            0 <= whole < WHOLE_CAP || whole == WHOLE_CAP,
            0 <= frac <= 99,
            frac == fraction_hundredths(f.take(j - fstart)),
        decreases n - j,
    {
        let c = s.get_char(j);
        let ghost m = j - fstart;
        assert(f[m] == s@[j as int]);
        match digit_of(c) {
            None => {
                assert forall|x: int| !dot_split(u, x) by {
                    if 0 <= x < u.len() && u[x] == '.' {
                        if x < k {
                            assert(u.take(k)[x] == u[x]);
                        } else if x > k {
                            assert(u.take(x)[k] == u[k]);
                        } else {
                            assert(u.skip(x + 1)[m] == f[m]);
                        }
                    }
                }
                assert(!all_digits(u)) by {
                    assert(!is_digit(u[k]));
                }
                return None;
            },
            Some(dv) => {
                proof {
                    assert(all_digits(f.take(m + 1)));
                }
                if j == fstart {
                    frac = dv * 10;
                } else if j == fstart + 1 {
                    frac = frac + dv;
                }
                j = j + 1;
            },
        }
    }
    let ghost m = j - fstart;
    assert(f.take(m) =~= f);
    assert(u.take(k) =~= s@.subrange(start as int, i as int));
    if i == start && j == fstart {
        // a lone dot
        assert(u.len() == 1);
        return None;
    }
    assert(dot_split(u, k as int));
    assert(!all_digits(u)) by {
        assert(!is_digit(u[k]));
    }
    assert forall|x: int| dot_split(u, x) implies x == k by {
        if x < k {
            assert(u.take(k)[x] == u[x]);
        } else if x > k {
            assert(u.take(x)[k] == u[k]);
        }
    }
    if whole >= WHOLE_CAP {
        proof {
            lemma_digits_grow(u.take(k), k as int);
            assert(u.take(k).take(k as int) =~= u.take(k));
        }
        return None;
    }
    let v = whole * 100 + frac;
    if v > MAX_READING {
        return None;
    }
    Some(if neg { -v } else { v })
}

} // verus!
