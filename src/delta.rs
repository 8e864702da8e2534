use vstd::prelude::*;
use vstd::string::StringExecFns;
use crate::decimal::MAX_READING;

verus! {

/// The last value stored under key `k` in an association list; the first
/// entry with that key counts.
pub open spec fn lookup(s: Seq<(String, i64)>, k: Seq<char>) -> Option<i64>
    decreases s.len(),
{
    if s.len() == 0 {
        None
    } else if s[0].0@ == k {
        Some(s[0].1)
    } else {
        lookup(s.drop_first(), k)
    }
}

/// The increment that a new cumulative reading `raw` stands for, given the
/// reading last seen on the same topic: `raw - prev`, or 0 when the counter
/// went back (a reset) or when nothing was seen before.
pub open spec fn delta_spec(prev: Option<i64>, raw: int) -> int {
    let p = match prev {
        Some(v) => v as int,
        None => raw,
    };
    if raw - p > 0 {
        raw - p
    } else {
        0
    }
}

/// What successive `observe` calls on one topic return for the readings
/// `rs`, when the cache held `prev` for that topic before the first.
pub open spec fn delta_run(prev: Option<i64>, rs: Seq<i64>) -> Seq<int>
    decreases rs.len(),
{
    if rs.len() == 0 {
        Seq::empty()
    } else {
        seq![delta_spec(prev, rs[0] as int)] + delta_run(Some(rs[0]), rs.drop_first())
    }
}

proof fn lemma_lookup_at(s: Seq<(String, i64)>, k: Seq<char>, i: int)
    requires
        0 <= i < s.len(),
        s[i].0@ == k,
        forall|j: int| 0 <= j < i ==> s[j].0@ != k,
    ensures
        lookup(s, k) == Some(s[i].1),
    decreases i,
{
    if i > 0 {
        lemma_lookup_at(s.drop_first(), k, i - 1);
    }
}

proof fn lemma_lookup_absent(s: Seq<(String, i64)>, k: Seq<char>)
    requires
        forall|j: int| 0 <= j < s.len() ==> s[j].0@ != k,
    ensures
        lookup(s, k) is None,
    decreases s.len(),
{
    if s.len() > 0 {
        lemma_lookup_absent(s.drop_first(), k);
    }
}

proof fn lemma_lookup_update(s: Seq<(String, i64)>, i: int, e: (String, i64), k: Seq<char>)
    requires
        0 <= i < s.len(),
        e.0@ == s[i].0@,
        k != e.0@,
    ensures
        lookup(s.update(i, e), k) == lookup(s, k),
    decreases s.len(),
{
    let t = s.update(i, e);
    if i > 0 {
        assert(t[0] == s[0]);
        assert(t.drop_first() =~= s.drop_first().update(i - 1, e));
        lemma_lookup_update(s.drop_first(), i - 1, e, k);
    } else {
        assert(t[0] == e);
        assert(t.drop_first() =~= s.drop_first());
    }
    assert(lookup(t, k) == lookup(t.drop_first(), k) || t[0].0@ == k);
}

proof fn lemma_lookup_push(s: Seq<(String, i64)>, e: (String, i64), k: Seq<char>)
    requires
        k != e.0@,
    ensures
        lookup(s.push(e), k) == lookup(s, k),
    decreases s.len(),
{
    if s.len() > 0 {
        assert(s.push(e)[0] == s[0]);
        assert(s.push(e).drop_first() =~= s.drop_first().push(e));
        lemma_lookup_push(s.drop_first(), e, k);
    } else {
        assert(s.push(e)[0] == e);
        assert(s.push(e).drop_first() =~= Seq::<(String, i64)>::empty());
        assert(lookup(s.push(e).drop_first(), k) is None);
    }
}

proof fn lemma_lookup_bounded(s: Seq<(String, i64)>, k: Seq<char>)
    requires
        forall|j: int| 0 <= j < s.len() ==> -MAX_READING <= #[trigger] s[j].1 <= MAX_READING,
    ensures
        lookup(s, k) matches Some(v) ==> -MAX_READING <= v <= MAX_READING,
    decreases s.len(),
{
    if s.len() > 0 {
        assert(-MAX_READING <= s[0].1 <= MAX_READING);
        lemma_lookup_bounded(s.drop_first(), k);
    }
}

/// Last cumulative reading seen per transport topic, used to turn counters
/// into increments.
pub struct DeltaCache {
    entries: Vec<(String, i64)>,
}

impl View for DeltaCache {
    type V = Map<Seq<char>, i64>;

    closed spec fn view(&self) -> Map<Seq<char>, i64> {
        Map::new(
            |k: Seq<char>| lookup(self.entries@, k) is Some,
            |k: Seq<char>| lookup(self.entries@, k)->0,
        )
    }
}

impl DeltaCache {
    /// Every remembered reading lies within `MAX_READING`.
    pub closed spec fn wf(&self) -> bool {
        forall|j: int|
            0 <= j < self.entries@.len() ==> -MAX_READING <= #[trigger] self.entries@[j].1
                <= MAX_READING
    }

    pub fn new() -> (c: DeltaCache)
        ensures
            c.wf(),
            c@ == Map::<Seq<char>, i64>::empty(),
    {
        let c = DeltaCache { entries: Vec::new() };
        assert(c@ =~= Map::<Seq<char>, i64>::empty());
        c
    }

    /// The reading last seen on `topic`.
    pub fn last(&self, topic: &str) -> (r: Option<i64>)
        ensures
            r == (if self@.contains_key(topic@) {
                Some(self@[topic@])
            } else {
                None
            }),
    {
        let key = String::from_str(topic);
        let mut i: usize = 0;
        while i < self.entries.len()
            invariant
                0 <= i <= self.entries@.len(),
                key@ == topic@,
                forall|j: int| 0 <= j < i ==> self.entries@[j].0@ != topic@,
            decreases self.entries@.len() - i,
        {
            if self.entries[i].0 == key {
                proof {
                    lemma_lookup_at(self.entries@, topic@, i as int);
                }
                return Some(self.entries[i].1);
            }
            i = i + 1;
        }
        proof {
            lemma_lookup_absent(self.entries@, topic@);
        }
        None
    }

    /// Records the cumulative reading `raw` for `topic` and returns the
    /// increment it stands for: 0 on the first reading of a topic and after a
    /// counter reset, else the rise since the last reading.
    pub fn observe(&mut self, topic: &str, raw: i64) -> (d: i64)
        requires
            old(self).wf(),
            -MAX_READING <= raw <= MAX_READING,
        ensures
            final(self).wf(),
            d == delta_spec(
                if old(self)@.contains_key(topic@) {
                    Some(old(self)@[topic@])
                } else {
                    None
                },
                raw as int,
            ),
            final(self)@ == old(self)@.insert(topic@, raw),
    {
        let key = String::from_str(topic);
        let ghost old_entries = self.entries@;
        let mut i: usize = 0;
        let mut found = false;
        while i < self.entries.len() && !found
            invariant
                0 <= i <= self.entries@.len(),
                self.entries@ == old_entries,
                key@ == topic@,
                found ==> i < self.entries@.len() && self.entries@[i as int].0@ == topic@,
                forall|j: int| 0 <= j < i ==> self.entries@[j].0@ != topic@,
            decreases self.entries@.len() - i + (if found { 0int } else { 1int }),
        {
            if self.entries[i].0 == key {
                found = true;
            } else {
                i = i + 1;
            }
        }
        proof {
            lemma_lookup_bounded(old_entries, topic@);
        }
        if found {
            let prev = self.entries[i].1;
            proof {
                lemma_lookup_at(old_entries, topic@, i as int);
            }
            self.entries.set(i, (key, raw));
            proof {
                assert forall|k: Seq<char>| k != topic@ implies lookup(self.entries@, k) == lookup(
                    old_entries,
                    k,
                ) by {
                    lemma_lookup_update(old_entries, i as int, (key, raw), k);
                }
                lemma_lookup_at(self.entries@, topic@, i as int);
                assert(self@ =~= old(self)@.insert(topic@, raw));
            }
            if raw > prev {
                raw - prev
            } else {
                0
            }
        } else {
            proof {
                lemma_lookup_absent(old_entries, topic@);
            }
            self.entries.push((key, raw));
            proof {
                assert forall|k: Seq<char>| k != topic@ implies lookup(self.entries@, k) == lookup(
                    old_entries,
                    k,
                ) by {
                    lemma_lookup_push(old_entries, (key, raw), k);
                }
                lemma_lookup_at(self.entries@, topic@, old_entries.len() as int);
                assert(self@ =~= old(self)@.insert(topic@, raw));
            }
            0
        }
    }
}

/// A counter that never goes back yields, from its first reading on, 0 and
/// then exactly the rise between consecutive readings.
pub proof fn lemma_monotone_counter_deltas(rs: Seq<i64>)
    requires
        forall|i: int, j: int| 0 <= i <= j < rs.len() ==> rs[i] <= rs[j],
    ensures
        delta_run(None, rs).len() == rs.len(),
        rs.len() > 0 ==> delta_run(None, rs)[0] == 0,
        forall|i: int| 0 < i < rs.len() ==> #[trigger] delta_run(None, rs)[i] == rs[i] - rs[i - 1],
{
    lemma_run_len(None, rs);
    if rs.len() > 0 {
        lemma_run_follows(rs[0], rs.drop_first());
        assert forall|i: int| 0 < i < rs.len() implies #[trigger] delta_run(None, rs)[i] == rs[i]
            - rs[i - 1] by {
            assert(delta_run(None, rs)[i] == delta_run(Some(rs[0]), rs.drop_first())[i - 1]);
            if i > 1 {
                assert(rs.drop_first()[i - 2] == rs[i - 1]);
            }
        }
    }
}

proof fn lemma_run_len(prev: Option<i64>, rs: Seq<i64>)
    ensures
        delta_run(prev, rs).len() == rs.len(),
    decreases rs.len(),
{
    if rs.len() > 0 {
        lemma_run_len(Some(rs[0]), rs.drop_first());
    }
}

proof fn lemma_run_follows(first: i64, rs: Seq<i64>)
    requires
        forall|i: int, j: int| 0 <= i <= j < rs.len() ==> rs[i] <= rs[j],
        rs.len() > 0 ==> first <= rs[0],
    ensures
        delta_run(Some(first), rs).len() == rs.len(),
        forall|i: int|
            0 <= i < rs.len() ==> #[trigger] delta_run(Some(first), rs)[i] == rs[i] - (if i == 0 {
                first
            } else {
                rs[i - 1]
            }),
    decreases rs.len(),
{
    lemma_run_len(Some(first), rs);
    if rs.len() > 0 {
        let tail = rs.drop_first();
        lemma_run_follows(rs[0], tail);
        assert forall|i: int| 0 <= i < rs.len() implies #[trigger] delta_run(Some(first), rs)[i]
            == rs[i] - (if i == 0 {
            first
        } else {
            rs[i - 1]
        }) by {
            if i > 0 {
                assert(delta_run(Some(first), rs)[i] == delta_run(Some(rs[0]), tail)[i - 1]);
                assert(tail[i - 1] == rs[i]);
                if i > 1 {
                    assert(tail[i - 2] == rs[i - 1]);
                }
            }
        }
    }
}

/// A reading below the previous one (a counter reset) yields exactly 0, and
/// no reading ever yields a negative increment.
pub proof fn lemma_reset_yields_zero(prev: Option<i64>, raw: i64)
    ensures
        delta_spec(prev, raw as int) >= 0,
        prev matches Some(p) && raw < p ==> delta_spec(prev, raw as int) == 0,
{
}

} // verus!
