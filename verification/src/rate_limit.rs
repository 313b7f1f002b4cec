use vstd::prelude::*;

verus! {

/// How many requests one key may make within one window.
pub const MAX_REQUESTS: u32 = 5;

/// The length of a rate-limit window, in nanoseconds (five minutes).
pub const WINDOW_NANOS: u64 = 300_000_000_000;

/// The requests counted for one key in its current window. Times are
/// nanoseconds on the limiter's monotonic clock.
#[derive(Clone, Copy, Debug, PartialEq, Eq, Structural)]
pub struct RateLimitEntry {
    pub count: u32,
    pub window_start: u64,
}

/// The time from `start` to `now`, zero when `now` is earlier.
pub open spec fn elapsed(now: u64, start: u64) -> int {
    if now >= start {
        now - start
    } else {
        0
    }
}

/// One request for a key whose entry is `entry`, made at `now`: whether it
/// is allowed, and the key's entry afterwards.
///
/// A key without an entry starts a window at `now`; a window older than
/// `WINDOW_NANOS` is restarted at `now`; the request is allowed when fewer
/// than `MAX_REQUESTS` were counted in the window, and then it is counted.
pub open spec fn rate_step(entry: Option<RateLimitEntry>, now: u64) -> (bool, RateLimitEntry) {
    let current = match entry {
        Some(e) => if elapsed(now, e.window_start) > WINDOW_NANOS {
            RateLimitEntry { count: 0, window_start: now }
        } else {
            e
        },
        None => RateLimitEntry { count: 0, window_start: now },
    };
    if current.count >= MAX_REQUESTS {
        (false, current)
    } else {
        (true, RateLimitEntry { count: (current.count + 1) as u32, window_start: current.window_start })
    }
}

/// The answers to requests for one key made at the times `times`, in order,
/// starting from the entry `entry`.
pub open spec fn rate_answers(entry: Option<RateLimitEntry>, times: Seq<u64>) -> Seq<bool>
    decreases times.len(),
{
    if times.len() == 0 {
        Seq::empty()
    } else {
        let (allowed, next) = rate_step(entry, times[0]);
        seq![allowed] + rate_answers(Some(next), times.drop_first())
    }
}

/// Within one window a key gets at most `MAX_REQUESTS` requests through: of
/// requests made by a new key, all no later than `WINDOW_NANOS` after the
/// first, exactly the first `MAX_REQUESTS` are allowed.
pub proof fn law_window_admits_first_max(times: Seq<u64>)
    requires
        times.len() > 0,
        forall|i: int| 0 <= i < times.len() ==> elapsed(#[trigger] times[i], times[0]) <= WINDOW_NANOS,
    ensures
        forall|i: int| 0 <= i < times.len() ==> #[trigger] rate_answers(None, times)[i] == (i < MAX_REQUESTS),
{
    let first = RateLimitEntry { count: 1, window_start: times[0] };
    lemma_answers_in_window(first, times.drop_first());
    assert forall|i: int| 0 <= i < times.len() implies #[trigger] rate_answers(None, times)[i] == (i < MAX_REQUESTS) by {
        if i > 0 {
            assert(times.drop_first()[i - 1] == times[i]);
        }
    }
}

proof fn lemma_answers_in_window(e: RateLimitEntry, times: Seq<u64>)
    requires
        e.count <= MAX_REQUESTS,
        forall|i: int| 0 <= i < times.len() ==> elapsed(#[trigger] times[i], e.window_start) <= WINDOW_NANOS,
    ensures
        rate_answers(Some(e), times).len() == times.len(),
        forall|i: int| 0 <= i < times.len() ==> #[trigger] rate_answers(Some(e), times)[i] == (e.count + i < MAX_REQUESTS),
    decreases times.len(),
{
    if times.len() > 0 {
        let (allowed, next) = rate_step(Some(e), times[0]);
        let rest = times.drop_first();
        assert forall|i: int| 0 <= i < rest.len() implies elapsed(#[trigger] rest[i], next.window_start) <= WINDOW_NANOS by {
            assert(rest[i] == times[i + 1]);
        }
        lemma_answers_in_window(next, rest);
        assert forall|i: int| 0 <= i < times.len() implies #[trigger] rate_answers(Some(e), times)[i] == (e.count + i < MAX_REQUESTS) by {
            if i > 0 {
                assert(rate_answers(Some(e), times)[i] == rate_answers(Some(next), rest)[i - 1]);
            }
        }
    }
}

/// Once a key's window is older than `WINDOW_NANOS`, its next request is
/// allowed and starts a new window in which it is the only request counted.
pub proof fn law_expired_window_reopens(e: RateLimitEntry, now: u64)
    requires
        elapsed(now, e.window_start) > WINDOW_NANOS,
    ensures
        rate_step(Some(e), now) == (true, RateLimitEntry { count: 1, window_start: now }),
{
}

/// A refused request is not counted: the key's entry stays as it was.
pub proof fn law_refusal_changes_nothing(e: RateLimitEntry, now: u64)
    requires
        !rate_step(Some(e), now).0,
    ensures
        rate_step(Some(e), now).1 == e,
{
}

/// The entry of a key after requests at the times `times`, in order,
/// starting from the entry `entry`.
pub open spec fn rate_entry_after(entry: Option<RateLimitEntry>, times: Seq<u64>) -> Option<RateLimitEntry>
    decreases times.len(),
{
    if times.len() == 0 {
        entry
    } else {
        rate_entry_after(Some(rate_step(entry, times[0]).1), times.drop_first())
    }
}

/// One request keeps a key's entry in range: its count between 1 and
/// `MAX_REQUESTS`, its window starting no later than the request.
pub proof fn law_step_keeps_entry_in_range(entry: Option<RateLimitEntry>, now: u64)
    requires
        entry matches Some(e) ==> 1 <= e.count <= MAX_REQUESTS && e.window_start <= now,
    ensures
        1 <= rate_step(entry, now).1.count <= MAX_REQUESTS,
        rate_step(entry, now).1.window_start <= now,
{
}

/// Over any run of requests for a key, at times that do not go back, its
/// entry stays in range after each of them: the count between 1 and
/// `MAX_REQUESTS`, the window starting no later than the last request.
pub proof fn law_entries_stay_in_range(entry: Option<RateLimitEntry>, times: Seq<u64>)
    requires
        times.len() > 0,
        forall|i: int, j: int| 0 <= i <= j < times.len() ==> times[i] <= times[j],
        entry matches Some(e) ==> 1 <= e.count <= MAX_REQUESTS && e.window_start <= times[0],
    ensures
        rate_entry_after(entry, times) is Some,
        1 <= rate_entry_after(entry, times)->0.count <= MAX_REQUESTS,
        rate_entry_after(entry, times)->0.window_start <= times.last(),
    decreases times.len(),
{
    law_step_keeps_entry_in_range(entry, times[0]);
    let rest = times.drop_first();
    if rest.len() > 0 {
        assert(rest[0] == times[1]);
        assert forall|i: int, j: int| 0 <= i <= j < rest.len() implies rest[i] <= rest[j] by {
            assert(rest[i] == times[i + 1] && rest[j] == times[j + 1]);
        }
        law_entries_stay_in_range(Some(rate_step(entry, times[0]).1), rest);
        assert(rest.last() == times.last());
    }
}

/// A table of entries by key, as the limiter holds them.
pub open spec fn lookup(t: Map<Seq<char>, RateLimitEntry>, k: Seq<char>) -> Option<RateLimitEntry> {
    if t.dom().contains(k) {
        Some(t[k])
    } else {
        None
    }
}

/// The table after one request for `key` at `now`: only the entry of `key`
/// changes, as `rate_step` says.
pub open spec fn table_step(t: Map<Seq<char>, RateLimitEntry>, key: Seq<char>, now: u64) -> Map<Seq<char>, RateLimitEntry> {
    t.insert(key, rate_step(lookup(t, key), now).1)
}

/// The table after the requests `reqs` (each a key and a time), in order.
pub open spec fn table_after(t: Map<Seq<char>, RateLimitEntry>, reqs: Seq<(Seq<char>, u64)>) -> Map<Seq<char>, RateLimitEntry>
    decreases reqs.len(),
{
    if reqs.len() == 0 {
        t
    } else {
        table_after(table_step(t, reqs[0].0, reqs[0].1), reqs.drop_first())
    }
}

/// Every entry of `t` counts between 1 and `MAX_REQUESTS` requests, in a
/// window that starts no later than `now`.
pub open spec fn table_in_range(t: Map<Seq<char>, RateLimitEntry>, now: u64) -> bool {
    forall|k: Seq<char>| #[trigger] t.dom().contains(k) ==> 1 <= t[k].count <= MAX_REQUESTS && t[k].window_start <= now
}

/// One request at `now` keeps a table in range, if it was in range at an
/// earlier time: every entry, the requested key's included, then counts
/// between 1 and `MAX_REQUESTS` in a window starting no later than `now`.
pub proof fn law_step_keeps_table_in_range(t: Map<Seq<char>, RateLimitEntry>, key: Seq<char>, earlier: u64, now: u64)
    requires
        table_in_range(t, earlier),
        earlier <= now,
    ensures
        table_in_range(table_step(t, key, now), now),
{
    law_step_keeps_entry_in_range(lookup(t, key), now);
    let t2 = table_step(t, key, now);
    assert forall|k: Seq<char>| #[trigger] t2.dom().contains(k) implies 1 <= t2[k].count <= MAX_REQUESTS && t2[k].window_start <= now by {
        if k != key {
            assert(t.dom().contains(k));
        }
    }
}

/// Starting from the empty table, over any run of requests at times that do
/// not go back, every entry after the last request counts between 1 and
/// `MAX_REQUESTS` requests, in a window starting no later than that request.
/// (Each prefix of a run is a run, so this holds after every request.)
pub proof fn law_table_stays_in_range(reqs: Seq<(Seq<char>, u64)>)
    requires
        reqs.len() > 0,
        forall|i: int, j: int| 0 <= i <= j < reqs.len() ==> reqs[i].1 <= reqs[j].1,
    ensures
        table_in_range(table_after(Map::empty(), reqs), reqs.last().1),
{
    lemma_run_keeps_table_in_range(Map::empty(), reqs[0].1, reqs);
}

proof fn lemma_run_keeps_table_in_range(t: Map<Seq<char>, RateLimitEntry>, earlier: u64, reqs: Seq<(Seq<char>, u64)>)
    requires
        reqs.len() > 0,
        forall|i: int, j: int| 0 <= i <= j < reqs.len() ==> reqs[i].1 <= reqs[j].1,
        table_in_range(t, earlier),
        earlier <= reqs[0].1,
    ensures
        table_in_range(table_after(t, reqs), reqs.last().1),
    decreases reqs.len(),
{
    law_step_keeps_table_in_range(t, reqs[0].0, earlier, reqs[0].1);
    let t2 = table_step(t, reqs[0].0, reqs[0].1);
    let rest = reqs.drop_first();
    if rest.len() > 0 {
        assert(rest[0] == reqs[1]);
        assert forall|i: int, j: int| 0 <= i <= j < rest.len() implies rest[i].1 <= rest[j].1 by {
            assert(rest[i] == reqs[i + 1] && rest[j] == reqs[j + 1]);
        }
        lemma_run_keeps_table_in_range(t2, reqs[0].1, rest);
        assert(rest.last() == reqs.last());
    } else {
        assert(table_after(t2, rest) == t2);
    }
}

/// Per-key request counters, kept as a vector of entries in which no key
/// occurs twice (vstd models hash maps only for integer and boolean keys,
/// and these keys are strings).
pub struct RateLimiter {
    entries: Vec<(String, RateLimitEntry)>,
}

impl RateLimiter {
    #[verifier::type_invariant]
    closed spec fn keys_distinct(self) -> bool {
        &&& forall|i: int, j: int|
            0 <= i < self.entries@.len() && 0 <= j < self.entries@.len() && i != j
                ==> #[trigger] self.entries@[i].0@ != #[trigger] self.entries@[j].0@
        &&& forall|i: int| 0 <= i < self.entries@.len() ==> 1 <= #[trigger] self.entries@[i].1.count <= MAX_REQUESTS
    }

    /// The entry recorded for key `k`, if any.
    pub closed spec fn entry(&self, k: Seq<char>) -> Option<RateLimitEntry> {
        if exists|i: int| 0 <= i < self.entries@.len() && #[trigger] self.entries@[i].0@ == k {
            let i = choose|i: int| 0 <= i < self.entries@.len() && #[trigger] self.entries@[i].0@ == k;
            Some(self.entries@[i].1)
        } else {
            None
        }
    }

    /// The whole table: each key with an entry, mapped to it.
    pub open spec fn table(&self) -> Map<Seq<char>, RateLimitEntry> {
        Map::new(|k: Seq<char>| self.entry(k) is Some, |k: Seq<char>| self.entry(k)->0)
    }

    /// A limiter that has seen no request.
    pub fn new() -> (r: RateLimiter)
        ensures
            forall|k: Seq<char>| #[trigger] r.entry(k) is None,
            r.table() == Map::<Seq<char>, RateLimitEntry>::empty(),
    {
        let r = RateLimiter { entries: Vec::new() };
        assert(r.table() =~= Map::<Seq<char>, RateLimitEntry>::empty());
        r
    }

    /// The position of key `k`, if it has an entry.
    fn position(&self, key: &String) -> (r: Option<usize>)
        ensures
            match r {
                Some(i) => i < self.entries@.len() && self.entries@[i as int].0@ == key@,
                None => forall|i: int| 0 <= i < self.entries@.len() ==> #[trigger] self.entries@[i].0@ != key@,
            },
    {
        let mut i: usize = 0;
        while i < self.entries.len()
            invariant
                i <= self.entries@.len(),
                forall|j: int| 0 <= j < i ==> #[trigger] self.entries@[j].0@ != key@,
            decreases self.entries.len() - i,
        {
            if self.entries[i].0 == *key {
                return Some(i);
            }
            i = i + 1;
        }
        None
    }

    /// Counts one request for `key` made at `now` (nanoseconds on the
    /// limiter's clock) and says whether it is within the limit. Only the
    /// entry of `key` changes.
    pub fn check_at(&mut self, key: &str, now: u64) -> (allowed: bool)
        ensures
            allowed == rate_step(old(self).entry(key@), now).0,
            final(self).entry(key@) == Some(rate_step(old(self).entry(key@), now).1),
            forall|k: Seq<char>| k != key@ ==> #[trigger] final(self).entry(k) == old(self).entry(k),
            forall|k: Seq<char>| #[trigger] final(self).entry(k) matches Some(e) ==> 1 <= e.count <= MAX_REQUESTS,
            final(self).table() == table_step(old(self).table(), key@, now),
    {
        proof {
            use_type_invariant(&*self);
        }
        let key_string = key.to_owned();
        let ghost before = self.entries@;
        let pos = self.position(&key_string);
        let current = match pos {
            Some(i) => {
                let e = self.entries[i].1;
                if now >= e.window_start && now - e.window_start > WINDOW_NANOS {
                    RateLimitEntry { count: 0, window_start: now }
                } else {
                    e
                }
            },
            None => RateLimitEntry { count: 0, window_start: now },
        };
        proof {
            match pos {
                Some(i) => {
                    assert(before[i as int].0@ == key@);
                    assert(old(self).entry(key@) == Some(before[i as int].1));
                },
                None => {
                    assert(old(self).entry(key@) is None);
                },
            }
        }
        let allowed = current.count < MAX_REQUESTS;
        let next = if allowed {
            RateLimitEntry { count: current.count + 1, window_start: current.window_start }
        } else {
            current
        };
        let mut entries: Vec<(String, RateLimitEntry)> = Vec::new();
        std::mem::swap(&mut entries, &mut self.entries);
        assert(entries@ == before);
        match pos {
            Some(i) => {
                entries.set(i, (key_string, next));
            },
            None => {
                entries.push((key_string, next));
            },
        }
        proof {
            let after = entries@;
            let n: int = after.len() - 1;
            let idx: int = match pos {
                Some(i) => i as int,
                None => n,
            };
            assert forall|i: int, j: int|
                0 <= i < after.len() && 0 <= j < after.len() && i != j
                    implies #[trigger] after[i].0@ != #[trigger] after[j].0@ by {
                if i != idx && j != idx {
                    assert(before[i].0@ != before[j].0@);
                }
            }
            assert forall|i: int| 0 <= i < after.len() implies 1 <= #[trigger] after[i].1.count <= MAX_REQUESTS by {
                if i != idx {
                    assert(after[i] == before[i]);
                }
            }
        }
        self.entries = entries;
        proof {
            let after = self.entries@;
            let n: int = after.len() - 1;
            let idx: int = match pos {
                Some(i) => i as int,
                None => n,
            };
            assert(after[idx].0@ == key@);
            assert(final(self).entry(key@) == Some(next));
            assert forall|k: Seq<char>| #[trigger] final(self).entry(k) is Some implies 1 <= final(self).entry(k)->0.count <= MAX_REQUESTS by {
                if exists|i: int| 0 <= i < after.len() && #[trigger] after[i].0@ == k {
                    let i = choose|i: int| 0 <= i < after.len() && #[trigger] after[i].0@ == k;
                    assert(1 <= after[i].1.count <= MAX_REQUESTS);
                }
            }
            assert forall|k: Seq<char>| k != key@ implies #[trigger] final(self).entry(k) == old(self).entry(k) by {
                if exists|i: int| 0 <= i < before.len() && #[trigger] before[i].0@ == k {
                    let i = choose|i: int| 0 <= i < before.len() && #[trigger] before[i].0@ == k;
                    assert(after[i].0@ == k);
                } else {
                    if exists|i: int| 0 <= i < after.len() && #[trigger] after[i].0@ == k {
                        let i = choose|i: int| 0 <= i < after.len() && #[trigger] after[i].0@ == k;
                        assert(i != idx);
                        assert(before[i].0@ == k);
                    }
                }
            }
            assert(lookup(old(self).table(), key@) == old(self).entry(key@));
            assert(final(self).table() =~= table_step(old(self).table(), key@, now));
        }
        allowed
    }
}

/// Counts one contact-form request from `key` at `now` and says whether it
/// is within the limit of `MAX_REQUESTS` per window.
pub fn check_contact_rate_limit(limits: &mut RateLimiter, key: &str, now: u64) -> (allowed: bool)
    ensures
        allowed == rate_step(old(limits).entry(key@), now).0,
        final(limits).entry(key@) == Some(rate_step(old(limits).entry(key@), now).1),
        forall|k: Seq<char>| k != key@ ==> #[trigger] final(limits).entry(k) == old(limits).entry(k),
        forall|k: Seq<char>| #[trigger] final(limits).entry(k) matches Some(e) ==> 1 <= e.count <= MAX_REQUESTS,
        final(limits).table() == table_step(old(limits).table(), key@, now),
        table_in_range(old(limits).table(), now) ==> table_in_range(final(limits).table(), now),
{
    proof {
        if table_in_range(old(limits).table(), now) {
            law_step_keeps_table_in_range(old(limits).table(), key@, now, now);
        }
    }
    limits.check_at(key, now)
}

} // verus!
