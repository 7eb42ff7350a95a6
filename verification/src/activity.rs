//! Turns raw activity samples into per-day aggregates (time per application and window,
//! first and last activity, time per hour) for the dashboard and the text digests.

use vstd::prelude::*;
use crate::clock::{day_number, day_of, hour_of, in_chrono_range, seconds_of_day, stamp_ok};
use crate::models::{opt_view, ActivityBlock, AppMinutes, DayActivity, TrackedDay};
use crate::clock::{chrono_stamp, format_hhmm, hhmm, parse_stamp};
use crate::text::{chars_of, dec, idec, pad2, push_idec, push_pad2, push_str, string_of};
use crate::order::{descending_by, is_permutation, occurs, order_desc};
use crate::tracker::MAX_GAP_SECS;

verus! {

/// One observation of which application and window had focus at a moment.
#[derive(Debug, Clone)]
pub struct Sample {
    /// Local timestamp: seconds since 1970-01-01T00:00:00 on the local clock.
    pub at: i64,
    pub app: String,
    pub title: String,
    pub idle: bool,
}

/// Every timestamp lies inside chrono's date range.
pub open spec fn samples_ok(s: Seq<Sample>) -> bool {
    forall|i: int| 0 <= i < s.len() ==> in_chrono_range(#[trigger] s[i].at as int)
}

/// An optional "now" lies inside chrono's date range.
pub open spec fn now_ok(now: Option<i64>) -> bool {
    now matches Some(n) ==> in_chrono_range(n as int)
}

/// A gap in seconds, capped to 0..=MAX_GAP_SECS so that sleep or shutdown does not count.
pub open spec fn cap_gap(x: int) -> int {
    if x < 0 {
        0
    } else if x > MAX_GAP_SECS {
        MAX_GAP_SECS as int
    } else {
        x
    }
}

/// Seconds attributed to sample `i`: the time until the next sample; for the last sample,
/// the time until `now` when `now` falls on the same day, otherwise one poll interval;
/// always capped.
pub open spec fn sample_secs(s: Seq<Sample>, now: Option<i64>, i: int) -> int {
    cap_gap(
        if i + 1 < s.len() {
            s[i + 1].at - s[i].at
        } else {
            match now {
                Some(n) => if day_of(n as int) == day_of(s[i].at as int) {
                    n - s[i].at
                } else {
                    2
                },
                None => 2,
            }
        },
    )
}

/// Duration in seconds attributed to each sample.
pub fn sample_durations(samples: &Vec<Sample>, now: Option<i64>) -> (d: Vec<i64>)
    requires
        samples_ok(samples@),
        now_ok(now),
    ensures
        d@.len() == samples@.len(),
        forall|i: int| 0 <= i < d@.len() ==> #[trigger] d@[i] == sample_secs(samples@, now, i),
{
    let n = samples.len();
    let mut d: Vec<i64> = Vec::with_capacity(n);
    for i in 0..n
        invariant
            n == samples@.len(),
            samples_ok(samples@),
            now_ok(now),
            d@.len() == i,
            forall|k: int| 0 <= k < i ==> #[trigger] d@[k] == sample_secs(samples@, now, k),
    {
        let at = samples[i].at;
        assert(in_chrono_range(samples@[i as int].at as int));
        let raw: i64 = if i + 1 < n {
            assert(in_chrono_range(samples@[i + 1].at as int));
            samples[i + 1].at - at
        } else {
            match now {
                Some(t) => if day_number(t) == day_number(at) {
                    t - at
                } else {
                    2
                },
                None => 2,
            }
        };
        let secs = if raw < 0 {
            0
        } else if raw > MAX_GAP_SECS {
            MAX_GAP_SECS
        } else {
            raw
        };
        d.push(secs);
    }
    d
}

/// Durations as `sample_durations` gives them.
pub open spec fn durations_of(s: Seq<Sample>, now: Option<i64>, d: Seq<i64>) -> bool {
    &&& d.len() == s.len()
    &&& forall|i: int| 0 <= i < d.len() ==> #[trigger] d[i] == sample_secs(s, now, i)
}

/// Seconds of the first `n` samples whose idle flag is `idle`.
pub open spec fn idle_total(s: Seq<Sample>, now: Option<i64>, n: int, idle: bool) -> int
    decreases n,
{
    if n <= 0 {
        0
    } else {
        idle_total(s, now, n - 1, idle) + if s[n - 1].idle == idle {
            sample_secs(s, now, n - 1)
        } else {
            0
        }
    }
}

/// Active seconds of the first `n` samples taken in hour `h` of their day.
pub open spec fn hour_total(s: Seq<Sample>, now: Option<i64>, n: int, h: int) -> int
    decreases n,
{
    if n <= 0 {
        0
    } else {
        hour_total(s, now, n - 1, h) + if !s[n - 1].idle && hour_of(s[n - 1].at as int) == h {
            sample_secs(s, now, n - 1)
        } else {
            0
        }
    }
}

/// An active sample in application `a` with window title `t`.
pub open spec fn active_in(x: Sample, a: Seq<char>, t: Seq<char>) -> bool {
    !x.idle && x.app@ == a && x.title@ == t
}

/// Active seconds of the first `n` samples spent in application `a`, window `t`.
pub open spec fn key_total(s: Seq<Sample>, now: Option<i64>, n: int, a: Seq<char>, t: Seq<char>) -> int
    decreases n,
{
    if n <= 0 {
        0
    } else {
        key_total(s, now, n - 1, a, t) + if active_in(s[n - 1], a, t) {
            sample_secs(s, now, n - 1)
        } else {
            0
        }
    }
}

/// Some active sample among the first `n` was spent in application `a`, window `t`.
pub open spec fn key_seen(s: Seq<Sample>, n: int, a: Seq<char>, t: Seq<char>) -> bool {
    exists|i: int| 0 <= i < n && #[trigger] active_in(s[i], a, t)
}

pub proof fn lemma_secs_bounds(s: Seq<Sample>, now: Option<i64>, i: int)
    ensures
        0 <= sample_secs(s, now, i) <= MAX_GAP_SECS,
{
}

pub proof fn lemma_idle_total_bounds(s: Seq<Sample>, now: Option<i64>, n: int, idle: bool)
    requires
        0 <= n,
    ensures
        0 <= idle_total(s, now, n, idle) <= MAX_GAP_SECS * n,
    decreases n,
{
    if n > 0 {
        lemma_idle_total_bounds(s, now, n - 1, idle);
        lemma_secs_bounds(s, now, n - 1);
    }
}

pub proof fn lemma_hour_total_bounds(s: Seq<Sample>, now: Option<i64>, n: int, h: int)
    requires
        0 <= n,
    ensures
        0 <= hour_total(s, now, n, h) <= MAX_GAP_SECS * n,
    decreases n,
{
    if n > 0 {
        lemma_hour_total_bounds(s, now, n - 1, h);
        lemma_secs_bounds(s, now, n - 1);
    }
}

pub proof fn lemma_key_total_bounds(s: Seq<Sample>, now: Option<i64>, n: int, a: Seq<char>, t: Seq<char>)
    requires
        0 <= n,
    ensures
        0 <= key_total(s, now, n, a, t) <= MAX_GAP_SECS * n,
    decreases n,
{
    if n > 0 {
        lemma_key_total_bounds(s, now, n - 1, a, t);
        lemma_secs_bounds(s, now, n - 1);
    }
}

/// The capped seconds of `n` samples fit an `i64` sum.
pub open spec fn sums_fit(n: int) -> bool {
    n * MAX_GAP_SECS <= i64::MAX
}

/// Sums the active and the idle seconds.
fn split_totals(samples: &Vec<Sample>, now: Option<i64>, durs: &Vec<i64>) -> (r: (i64, i64))
    requires
        durations_of(samples@, now, durs@),
        sums_fit(samples@.len() as int),
    ensures
        r.0 == idle_total(samples@, now, samples@.len() as int, false),
        r.1 == idle_total(samples@, now, samples@.len() as int, true),
{
    let n = samples.len();
    let mut active: i64 = 0;
    let mut idle: i64 = 0;
    for i in 0..n
        invariant
            n == samples@.len(),
            sums_fit(n as int),
            durations_of(samples@, now, durs@),
            active == idle_total(samples@, now, i as int, false),
            idle == idle_total(samples@, now, i as int, true),
    {
        proof {
            lemma_idle_total_bounds(samples@, now, i as int, false);
            lemma_idle_total_bounds(samples@, now, i as int, true);
            lemma_secs_bounds(samples@, now, i as int);
        }
        if samples[i].idle {
            idle = idle + durs[i];
        } else {
            active = active + durs[i];
        }
    }
    (active, idle)
}

/// Sums the active seconds of each hour of the day.
fn hour_totals(samples: &Vec<Sample>, now: Option<i64>, durs: &Vec<i64>) -> (per: Vec<i64>)
    requires
        durations_of(samples@, now, durs@),
        samples_ok(samples@),
        sums_fit(samples@.len() as int),
    ensures
        per@.len() == 24,
        forall|h: int| 0 <= h < 24 ==> #[trigger] per@[h] == hour_total(samples@, now, samples@.len() as int, h),
{
    let n = samples.len();
    let mut per: Vec<i64> = Vec::new();
    for h in 0..24usize
        invariant
            per@.len() == h,
            forall|k: int| 0 <= k < h ==> #[trigger] per@[k] == 0,
    {
        per.push(0);
    }
    for i in 0..n
        invariant
            n == samples@.len(),
            sums_fit(n as int),
            samples_ok(samples@),
            durations_of(samples@, now, durs@),
            per@.len() == 24,
            forall|h: int| 0 <= h < 24 ==> #[trigger] per@[h] == hour_total(samples@, now, i as int, h),
    {
        assert(in_chrono_range(samples@[i as int].at as int));
        if !samples[i].idle {
            let h = (seconds_of_day(samples[i].at) / 3600) as usize;
            proof {
                lemma_hour_total_bounds(samples@, now, i as int, h as int);
                lemma_secs_bounds(samples@, now, i as int);
            }
            let v = per[h] + durs[i];
            per.set(h, v);
        }
        assert forall|k: int| 0 <= k < 24 implies #[trigger] per@[k] == hour_total(samples@, now, i + 1, k) by {
        }
    }
    per
}

/// Timestamp of the first active sample among the first `n`.
pub open spec fn first_active_at(s: Seq<Sample>, n: int) -> Option<i64>
    decreases n,
{
    if n <= 0 {
        None
    } else {
        match first_active_at(s, n - 1) {
            Some(t) => Some(t),
            None => if !s[n - 1].idle {
                Some(s[n - 1].at)
            } else {
                None
            },
        }
    }
}

/// End of the last active sample among the first `n`: its timestamp plus its seconds.
pub open spec fn last_active_end(s: Seq<Sample>, now: Option<i64>, n: int) -> Option<int>
    decreases n,
{
    if n <= 0 {
        None
    } else if !s[n - 1].idle {
        Some(s[n - 1].at + sample_secs(s, now, n - 1))
    } else {
        last_active_end(s, now, n - 1)
    }
}

fn first_last(samples: &Vec<Sample>, now: Option<i64>, durs: &Vec<i64>) -> (r: (Option<i64>, Option<i64>))
    requires
        durations_of(samples@, now, durs@),
        samples_ok(samples@),
    ensures
        r.0 == first_active_at(samples@, samples@.len() as int),
        match last_active_end(samples@, now, samples@.len() as int) {
            Some(e) => r.1 == Some(e as i64) && e == r.1->0,
            None => r.1 is None,
        },
{
    let n = samples.len();
    let mut first: Option<i64> = None;
    let mut last: Option<i64> = None;
    for i in 0..n
        invariant
            n == samples@.len(),
            samples_ok(samples@),
            durations_of(samples@, now, durs@),
            first == first_active_at(samples@, i as int),
            match last_active_end(samples@, now, i as int) {
                Some(e) => last == Some(e as i64) && e == last->0,
                None => last is None,
            },
    {
        if !samples[i].idle {
            if first.is_none() {
                first = Some(samples[i].at);
            }
            assert(in_chrono_range(samples@[i as int].at as int));
            proof {
                lemma_secs_bounds(samples@, now, i as int);
            }
            last = Some(samples[i].at + durs[i]);
        }
    }
    (first, last)
}

/// Application, title and seconds lists hold distinct keys, each with its active total
/// over the first `n` samples and a sample index `wit` that shows it, and every active
/// key among the first `n` samples.
pub open spec fn groups_ok(
    s: Seq<Sample>,
    now: Option<i64>,
    n: int,
    apps: Seq<String>,
    titles: Seq<String>,
    secs: Seq<i64>,
    wit: Seq<int>,
) -> bool {
    &&& apps.len() == titles.len() == secs.len() == wit.len()
    &&& forall|j: int|
        0 <= j < secs.len() ==> 0 <= #[trigger] wit[j] < n && active_in(s[wit[j]], apps[j]@, titles[j]@)
    &&& forall|j: int|
        0 <= j < secs.len() ==> #[trigger] secs[j] == key_total(s, now, n, apps[j]@, titles[j]@)
    &&& forall|j1: int, j2: int|
        0 <= j1 < j2 < secs.len() ==> !(#[trigger] apps[j1]@ == #[trigger] apps[j2]@ && titles[j1]@
            == titles[j2]@)
    &&& forall|i: int| 0 <= i < n && !s[i].idle ==> #[trigger] has_group(apps, titles, s[i].app@, s[i].title@)
}

/// Some index of the lists carries application `a` and title `t`.
pub open spec fn has_group(apps: Seq<String>, titles: Seq<String>, a: Seq<char>, t: Seq<char>) -> bool {
    exists|j: int| 0 <= j < apps.len() && #[trigger] apps[j]@ == a && titles[j]@ == t
}

fn group_by_window(samples: &Vec<Sample>, now: Option<i64>, durs: &Vec<i64>) -> (r: (
    Vec<String>,
    Vec<String>,
    Vec<i64>,
    Ghost<Seq<int>>,
))
    requires
        durations_of(samples@, now, durs@),
        sums_fit(samples@.len() as int),
    ensures
        groups_ok(samples@, now, samples@.len() as int, r.0@, r.1@, r.2@, r.3@),
{
    let n = samples.len();
    let mut apps: Vec<String> = Vec::new();
    let mut titles: Vec<String> = Vec::new();
    let mut secs: Vec<i64> = Vec::new();
    let ghost mut wit: Seq<int> = Seq::empty();
    for i in 0..n
        invariant
            n == samples@.len(),
            sums_fit(n as int),
            durations_of(samples@, now, durs@),
            groups_ok(samples@, now, i as int, apps@, titles@, secs@, wit),
    {
        let ghost s = samples@;
        let ghost a0 = apps@;
        let ghost t0 = titles@;
        let ghost v0 = secs@;
        let ghost w0 = wit;
        if !samples[i].idle {
            let m = apps.len();
            let mut j: usize = 0;
            while j < m && !(apps[j] == samples[i].app && titles[j] == samples[i].title)
                invariant
                    m == apps@.len() == titles@.len(),
                    j <= m,
                    i < n,
                    n == samples@.len(),
                    forall|q: int| 0 <= q < j ==> !(#[trigger] apps@[q]@ == samples@[i as int].app@ && titles@[q]@
                        == samples@[i as int].title@),
                decreases m - j,
            {
                j = j + 1;
            }
            let ghost a = s[i as int].app@;
            let ghost t = s[i as int].title@;
            proof {
                lemma_secs_bounds(s, now, i as int);
                assert(active_in(s[i as int], a, t));
            }
            if j < m {
                proof {
                    lemma_key_total_bounds(s, now, i as int, a, t);
                }
                let v = secs[j] + durs[i];
                secs.set(j, v);
                assert forall|k: int| 0 <= k < secs@.len() implies #[trigger] secs@[k] == key_total(
                    s,
                    now,
                    i + 1,
                    apps@[k]@,
                    titles@[k]@,
                ) by {
                    assert(v0[k] == key_total(s, now, i as int, a0[k]@, t0[k]@));
                }
                assert forall|q: int| 0 <= q < i + 1 && !s[q].idle implies #[trigger] has_group(
                    apps@,
                    titles@,
                    s[q].app@,
                    s[q].title@,
                ) by {
                    if q == i {
                        assert(apps@[j as int]@ == a && titles@[j as int]@ == t);
                    }
                }
            } else {
                proof {
                    assert(!key_seen(s, i as int, a, t)) by {
                        if key_seen(s, i as int, a, t) {
                            let q = choose|q: int| 0 <= q < i && #[trigger] active_in(s[q], a, t);
                            assert(has_group(a0, t0, s[q].app@, s[q].title@));
                            let w = choose|w: int| 0 <= w < a0.len() && #[trigger] a0[w]@ == a && t0[w]@ == t;
                            assert(!(apps@[w]@ == a && titles@[w]@ == t));
                        }
                    }
                    lemma_unseen_key_total(s, now, i as int, a, t);
                }
                apps.push(samples[i].app.clone());
                titles.push(samples[i].title.clone());
                secs.push(durs[i]);
                proof {
                    wit = w0.push(i as int);
                }
                assert forall|k: int| 0 <= k < secs@.len() implies #[trigger] secs@[k] == key_total(
                    s,
                    now,
                    i + 1,
                    apps@[k]@,
                    titles@[k]@,
                ) by {
                    if k < m {
                        assert(apps@[k] == a0[k]);
                        assert(titles@[k] == t0[k]);
                        assert(v0[k] == key_total(s, now, i as int, a0[k]@, t0[k]@));
                        assert(!(a0[k]@ == a && t0[k]@ == t));
                    }
                }
                assert forall|k: int| 0 <= k < secs@.len() implies 0 <= #[trigger] wit[k] < i + 1
                    && active_in(s[wit[k]], apps@[k]@, titles@[k]@) by {
                    if k < m {
                        assert(apps@[k] == a0[k]);
                        assert(titles@[k] == t0[k]);
                        assert(wit[k] == w0[k]);
                    }
                }
                assert forall|j1: int, j2: int|
                    0 <= j1 < j2 < secs@.len() implies !(#[trigger] apps@[j1]@ == #[trigger] apps@[j2]@
                    && titles@[j1]@ == titles@[j2]@) by {
                    if j2 < m {
                        assert(apps@[j1] == a0[j1] && apps@[j2] == a0[j2]);
                        assert(titles@[j1] == t0[j1] && titles@[j2] == t0[j2]);
                    } else {
                        assert(apps@[j1] == a0[j1] && titles@[j1] == t0[j1]);
                    }
                }
                assert forall|q: int| 0 <= q < i + 1 && !s[q].idle implies #[trigger] has_group(
                    apps@,
                    titles@,
                    s[q].app@,
                    s[q].title@,
                ) by {
                    if q == i {
                        assert(apps@[m as int]@ == a && titles@[m as int]@ == t);
                    } else {
                        assert(has_group(a0, t0, s[q].app@, s[q].title@));
                        let w = choose|w: int| 0 <= w < a0.len() && #[trigger] a0[w]@ == s[q].app@ && t0[w]@ == s[q].title@;
                        assert(apps@[w] == a0[w] && titles@[w] == t0[w]);
                    }
                }
            }
        } else {
            assert forall|k: int| 0 <= k < secs@.len() implies #[trigger] secs@[k] == key_total(
                s,
                now,
                i + 1,
                apps@[k]@,
                titles@[k]@,
            ) by {
                assert(v0[k] == key_total(s, now, i as int, a0[k]@, t0[k]@));
            }
            assert forall|q: int| 0 <= q < i + 1 && !s[q].idle implies #[trigger] has_group(
                apps@,
                titles@,
                s[q].app@,
                s[q].title@,
            ) by {
                assert(q < i);
            }
        }
    }
    (apps, titles, secs, Ghost(wit))
}

/// A key that no active sample among the first `n` carries has no seconds.
pub proof fn lemma_unseen_key_total(s: Seq<Sample>, now: Option<i64>, n: int, a: Seq<char>, t: Seq<char>)
    requires
        !key_seen(s, n, a, t),
    ensures
        key_total(s, now, n, a, t) == 0,
    decreases n,
{
    if n > 0 {
        assert(!active_in(s[n - 1], a, t));
        assert(!key_seen(s, n - 1, a, t)) by {
            if key_seen(s, n - 1, a, t) {
                let i = choose|i: int| 0 <= i < n - 1 && #[trigger] active_in(s[i], a, t);
                assert(0 <= i < n);
            }
        }
        lemma_unseen_key_total(s, now, n - 1, a, t);
    }
}

/// The window blocks of a day: distinct (application, title) keys, each the key of an
/// active sample and carrying that key's active seconds; every active key present; most
/// seconds first.
pub open spec fn blocks_ok(s: Seq<Sample>, now: Option<i64>, b: Seq<(String, String, i64)>) -> bool {
    &&& forall|j: int|
        0 <= j < b.len() ==> key_seen(s, s.len() as int, (#[trigger] b[j]).0@, b[j].1@) && b[j].2
            == key_total(s, now, s.len() as int, b[j].0@, b[j].1@)
    &&& forall|j1: int, j2: int|
        0 <= j1 < j2 < b.len() ==> !((#[trigger] b[j1]).0@ == (#[trigger] b[j2]).0@ && b[j1].1@ == b[j2].1@)
    &&& forall|i: int| 0 <= i < s.len() && !s[i].idle ==> #[trigger] has_block(b, s[i].app@, s[i].title@)
    &&& forall|j1: int, j2: int| 0 <= j1 < j2 < b.len() ==> (#[trigger] b[j1]).2 >= (#[trigger] b[j2]).2
}

/// Some block carries application `a` and title `t`.
pub open spec fn has_block(b: Seq<(String, String, i64)>, a: Seq<char>, t: Seq<char>) -> bool {
    exists|j: int| 0 <= j < b.len() && (#[trigger] b[j]).0@ == a && b[j].1@ == t
}

/// What the tracker observed over one day's samples.
pub struct Aggregate {
    pub active_secs: i64,
    pub idle_secs: i64,
    pub first_active: Option<i64>,
    pub last_active: Option<i64>,
    /// (app, title) -> active seconds, sorted descending
    pub blocks: Vec<(String, String, i64)>,
    /// Active seconds per hour of day (0..24)
    pub per_hour: Vec<i64>,
}

/// The aggregate of a day's samples, as `aggregate` computes it.
pub open spec fn aggregate_of(s: Seq<Sample>, now: Option<i64>, a: Aggregate) -> bool {
    let n = s.len() as int;
    &&& a.active_secs == idle_total(s, now, n, false)
    &&& a.idle_secs == idle_total(s, now, n, true)
    &&& a.first_active == first_active_at(s, n)
    &&& match last_active_end(s, now, n) {
        Some(e) => a.last_active matches Some(l) && l == e,
        None => a.last_active is None,
    }
    &&& blocks_ok(s, now, a.blocks@)
    &&& a.per_hour@.len() == 24
    &&& forall|h: int| 0 <= h < 24 ==> #[trigger] a.per_hour@[h] == hour_total(s, now, n, h)
}

/// Aggregates a day's samples: active and idle seconds, first active moment, end of the
/// last active sample, active seconds per (application, window) most first, and active
/// seconds per hour.
pub fn aggregate(samples: &Vec<Sample>, now: Option<i64>) -> (a: Aggregate)
    requires
        samples_ok(samples@),
        now_ok(now),
        sums_fit(samples@.len() as int),
    ensures
        aggregate_of(samples@, now, a),
{
    let durs = sample_durations(samples, now);
    let (active, idle) = split_totals(samples, now, &durs);
    let (first, last) = first_last(samples, now, &durs);
    let per_hour = hour_totals(samples, now, &durs);
    let (apps, titles, secs, Ghost(wit)) = group_by_window(samples, now, &durs);
    let perm = order_desc(&secs);
    let ghost s = samples@;
    let ghost n = samples@.len() as int;
    let m = perm.len();
    let mut blocks: Vec<(String, String, i64)> = Vec::new();
    for k in 0..m
        invariant
            m == perm@.len() == secs@.len(),
            is_permutation(perm@, secs@.len()),
            descending_by(secs@, perm@),
            groups_ok(s, now, n, apps@, titles@, secs@, wit),
            blocks@.len() == k,
            forall|q: int|
                0 <= q < k ==> (#[trigger] blocks@[q]).0 == apps@[perm@[q] as int] && blocks@[q].1
                    == titles@[perm@[q] as int] && blocks@[q].2 == secs@[perm@[q] as int],
    {
        let j = perm[k];
        blocks.push((apps[j].clone(), titles[j].clone(), secs[j]));
    }
    let ghost b = blocks@;
    assert forall|q: int| 0 <= q < b.len() implies key_seen(s, n, (#[trigger] b[q]).0@, b[q].1@) && b[q].2
        == key_total(s, now, n, b[q].0@, b[q].1@) by {
        let j = perm@[q] as int;
        assert(0 <= wit[j] < n && active_in(s[wit[j]], apps@[j]@, titles@[j]@));
    }
    assert forall|j1: int, j2: int| 0 <= j1 < j2 < b.len() implies !((#[trigger] b[j1]).0@ == (
    #[trigger] b[j2]).0@ && b[j1].1@ == b[j2].1@) by {
        let p1 = perm@[j1] as int;
        let p2 = perm@[j2] as int;
        assert(p1 != p2);
        if p1 < p2 {
            assert(!(apps@[p1]@ == apps@[p2]@ && titles@[p1]@ == titles@[p2]@));
        } else {
            assert(!(apps@[p2]@ == apps@[p1]@ && titles@[p2]@ == titles@[p1]@));
        }
    }
    assert forall|i: int| 0 <= i < n && !s[i].idle implies #[trigger] has_block(b, s[i].app@, s[i].title@) by {
        assert(has_group(apps@, titles@, s[i].app@, s[i].title@));
        let j = choose|j: int| 0 <= j < apps@.len() && #[trigger] apps@[j]@ == s[i].app@ && titles@[j]@ == s[i].title@;
        assert(occurs(perm@, j));
        let q = choose|q: int| 0 <= q < perm@.len() && #[trigger] perm@[q] == j;
        assert(b[q].0 == apps@[j]);
    }
    assert forall|j1: int, j2: int| 0 <= j1 < j2 < b.len() implies (#[trigger] b[j1]).2 >= (#[trigger] b[j2]).2 by {
        assert(secs@[perm@[j1] as int] >= secs@[perm@[j2] as int]);
    }
    Aggregate {
        active_secs: active,
        idle_secs: idle,
        first_active: first,
        last_active: last,
        blocks,
        per_hour,
    }
}

/// Seconds of the first `n` blocks that belong to application `a`.
pub open spec fn app_secs(b: Seq<(String, String, i64)>, n: int, a: Seq<char>) -> int
    decreases n,
{
    if n <= 0 {
        0
    } else {
        app_secs(b, n - 1, a) + if b[n - 1].0@ == a {
            b[n - 1].2 as int
        } else {
            0
        }
    }
}

/// Whole minutes of `secs` seconds, as an `i32` the way `(secs / 60) as i32` gives them.
pub open spec fn minutes_i32(secs: int) -> i32 {
    (secs / 60) as i32
}

/// Some block among the first `n` belongs to application `a`.
pub open spec fn app_seen(b: Seq<(String, String, i64)>, n: int, a: Seq<char>) -> bool {
    exists|j: int| 0 <= j < n && (#[trigger] b[j]).0@ == a
}

/// The per-application list of a day: distinct applications of the blocks, each with the
/// whole minutes of its blocks' seconds, those with a positive count and only those, most
/// first.
pub open spec fn apps_ok(b: Seq<(String, String, i64)>, apps: Seq<AppMinutes>) -> bool {
    let n = b.len() as int;
    &&& forall|j: int|
        0 <= j < apps.len() ==> app_seen(b, n, (#[trigger] apps[j]).app@) && apps[j].minutes
            == minutes_i32(app_secs(b, n, apps[j].app@)) && apps[j].minutes > 0
    &&& forall|j1: int, j2: int|
        0 <= j1 < j2 < apps.len() ==> (#[trigger] apps[j1]).app@ != (#[trigger] apps[j2]).app@
    &&& forall|j: int|
        0 <= j < n && minutes_i32(app_secs(b, n, (#[trigger] b[j]).0@)) > 0 ==> has_app(apps, b[j].0@)
    &&& forall|j1: int, j2: int|
        0 <= j1 < j2 < apps.len() ==> (#[trigger] apps[j1]).minutes >= (#[trigger] apps[j2]).minutes
}

/// Some entry of the list is application `a`.
pub open spec fn has_app(apps: Seq<AppMinutes>, a: Seq<char>) -> bool {
    exists|j: int| 0 <= j < apps.len() && (#[trigger] apps[j]).app@ == a
}

/// Every block carries a non-negative number of seconds.
pub open spec fn blocks_nonneg(b: Seq<(String, String, i64)>) -> bool {
    forall|j: int| 0 <= j < b.len() ==> (#[trigger] b[j]).2 >= 0
}

pub proof fn lemma_app_secs_bounds(b: Seq<(String, String, i64)>, n: int, a: Seq<char>)
    requires
        0 <= n <= b.len(),
        blocks_nonneg(b),
    ensures
        0 <= app_secs(b, n, a) <= n * 0x7fff_ffff_ffff_ffff,
    decreases n,
{
    if n > 0 {
        lemma_app_secs_bounds(b, n - 1, a);
    }
}

pub proof fn lemma_unseen_app_secs(b: Seq<(String, String, i64)>, n: int, a: Seq<char>)
    requires
        0 <= n <= b.len(),
        !app_seen(b, n, a),
    ensures
        app_secs(b, n, a) == 0,
    decreases n,
{
    if n > 0 {
        assert(b[n - 1].0@ != a);
        assert(!app_seen(b, n - 1, a)) by {
            if app_seen(b, n - 1, a) {
                let j = choose|j: int| 0 <= j < n - 1 && (#[trigger] b[j]).0@ == a;
                assert(0 <= j < n);
            }
        }
        lemma_unseen_app_secs(b, n - 1, a);
    }
}

/// Sums the blocks' seconds per application (distinct names, first-seen order).
fn group_by_app(b: &Vec<(String, String, i64)>) -> (r: (Vec<String>, Vec<i128>))
    requires
        b@.len() < 0x1_0000_0000_0000_0000,
        blocks_nonneg(b@),
    ensures
        r.0@.len() == r.1@.len(),
        forall|j: int|
            0 <= j < r.0@.len() ==> app_seen(b@, b@.len() as int, (#[trigger] r.0@[j])@) && r.1@[j]
                == app_secs(b@, b@.len() as int, r.0@[j]@),
        forall|j1: int, j2: int| 0 <= j1 < j2 < r.0@.len() ==> (#[trigger] r.0@[j1])@ != (#[trigger] r.0@[j2])@,
        forall|j: int| 0 <= j < b@.len() ==> #[trigger] has_name(r.0@, b@[j].0@),
{
    let n = b.len();
    let mut names: Vec<String> = Vec::new();
    let mut sums: Vec<i128> = Vec::new();
    for i in 0..n
        invariant
            n == b@.len(),
            n < 0x1_0000_0000_0000_0000,
            blocks_nonneg(b@),
            names@.len() == sums@.len(),
            forall|j: int|
                0 <= j < names@.len() ==> app_seen(b@, i as int, (#[trigger] names@[j])@) && sums@[j]
                    == app_secs(b@, i as int, names@[j]@),
            forall|j1: int, j2: int|
                0 <= j1 < j2 < names@.len() ==> (#[trigger] names@[j1])@ != (#[trigger] names@[j2])@,
            forall|j: int| 0 <= j < i ==> #[trigger] has_name(names@, b@[j].0@),
    {
        let ghost n0 = names@;
        let ghost s0 = sums@;
        let m = names.len();
        let mut j: usize = 0;
        while j < m && !(names[j] == b[i].0)
            invariant
                m == names@.len(),
                j <= m,
                i < n,
                n == b@.len(),
                forall|q: int| 0 <= q < j ==> (#[trigger] names@[q])@ != b@[i as int].0@,
            decreases m - j,
        {
            j = j + 1;
        }
        let ghost a = b@[i as int].0@;
        if j < m {
            proof {
                lemma_app_secs_bounds(b@, i as int, a);
            }
            let v = sums[j] + b[i].2 as i128;
            sums.set(j, v);
            assert forall|k: int| 0 <= k < names@.len() implies app_seen(b@, i + 1, (#[trigger] names@[k])@)
                && sums@[k] == app_secs(b@, i + 1, names@[k]@) by {
                assert(app_seen(b@, i as int, n0[k]@));
                let w = choose|w: int| 0 <= w < i && (#[trigger] b@[w]).0@ == n0[k]@;
                assert(0 <= w < i + 1);
            }
            assert forall|q: int| 0 <= q < i + 1 implies #[trigger] has_name(names@, b@[q].0@) by {
                if q == i {
                    assert(names@[j as int]@ == a);
                }
            }
        } else {
            proof {
                assert(!app_seen(b@, i as int, a)) by {
                    if app_seen(b@, i as int, a) {
                        let q = choose|q: int| 0 <= q < i && (#[trigger] b@[q]).0@ == a;
                        assert(has_name(n0, b@[q].0@));
                        let w = choose|w: int| 0 <= w < n0.len() && (#[trigger] n0[w])@ == a;
                        assert(names@[w]@ != a);
                    }
                }
                lemma_unseen_app_secs(b@, i as int, a);
            }
            names.push(b[i].0.clone());
            sums.push(b[i].2 as i128);
            assert forall|k: int| 0 <= k < names@.len() implies app_seen(b@, i + 1, (#[trigger] names@[k])@)
                && sums@[k] == app_secs(b@, i + 1, names@[k]@) by {
                if k < m {
                    assert(names@[k] == n0[k]);
                    assert(app_seen(b@, i as int, n0[k]@));
                    let w = choose|w: int| 0 <= w < i && (#[trigger] b@[w]).0@ == n0[k]@;
                    assert(0 <= w < i + 1);
                    assert(n0[k]@ != a);
                } else {
                    assert(b@[i as int].0@ == names@[k]@);
                }
            }
            assert forall|q: int| 0 <= q < i + 1 implies #[trigger] has_name(names@, b@[q].0@) by {
                if q == i {
                    assert(names@[m as int]@ == a);
                } else {
                    assert(has_name(n0, b@[q].0@));
                    let w = choose|w: int| 0 <= w < n0.len() && (#[trigger] n0[w])@ == b@[q].0@;
                    assert(names@[w] == n0[w]);
                }
            }
        }
    }
    (names, sums)
}

/// Some name of the list equals `a`.
pub open spec fn has_name(names: Seq<String>, a: Seq<char>) -> bool {
    exists|j: int| 0 <= j < names.len() && (#[trigger] names[j])@ == a
}

/// Whole minutes of a sum of seconds, truncated to `i32` as `as` does.
fn whole_minutes(secs: i128) -> (m: i32)
    requires
        secs >= 0,
    ensures
        m == minutes_i32(secs as int),
{
    let q: i128 = secs / 60;
    #[verifier::truncate]
    (q as i32)
}

/// Active minutes per application, most first, dropping applications under a minute.
fn apps_minutes(b: &Vec<(String, String, i64)>) -> (apps: Vec<AppMinutes>)
    requires
        b@.len() < 0x1_0000_0000_0000_0000,
        blocks_nonneg(b@),
    ensures
        apps_ok(b@, apps@),
{
    let ghost n = b@.len() as int;
    let (names, sums) = group_by_app(b);
    let mut kept: Vec<AppMinutes> = Vec::new();
    let mut keys: Vec<i64> = Vec::new();
    let ghost mut src: Seq<int> = Seq::empty();
    for k in 0..names.len()
        invariant
            names@.len() == sums@.len(),
            blocks_nonneg(b@),
            n == b@.len(),
            forall|j: int|
                0 <= j < names@.len() ==> app_seen(b@, n, (#[trigger] names@[j])@) && sums@[j]
                    == app_secs(b@, n, names@[j]@),
            forall|j1: int, j2: int|
                0 <= j1 < j2 < names@.len() ==> (#[trigger] names@[j1])@ != (#[trigger] names@[j2])@,
            kept@.len() == keys@.len() == src.len(),
            forall|q: int|
                0 <= q < kept@.len() ==> 0 <= #[trigger] src[q] < k && kept@[q].app == names@[src[q]]
                    && kept@[q].minutes == minutes_i32(sums@[src[q]] as int) && kept@[q].minutes > 0
                    && keys@[q] == kept@[q].minutes as i64,
            forall|q1: int, q2: int| 0 <= q1 < q2 < src.len() ==> #[trigger] src[q1] < #[trigger] src[q2],
            forall|j: int|
                0 <= j < k && minutes_i32(sums@[j] as int) > 0 ==> #[trigger] has_app(kept@, names@[j]@),
    {
        proof {
            lemma_app_secs_bounds(b@, n, names@[k as int]@);
        }
        let minutes = whole_minutes(sums[k]);
        if minutes > 0 {
            let ghost k0 = kept@;
            kept.push(AppMinutes { app: names[k].clone(), minutes });
            keys.push(minutes as i64);
            proof {
                src = src.push(k as int);
            }
            assert forall|j: int| 0 <= j < k + 1 && minutes_i32(sums@[j] as int) > 0 implies #[trigger] has_app(
                kept@,
                names@[j]@,
            ) by {
                if j == k {
                    assert(kept@[k0.len() as int].app@ == names@[j]@);
                } else {
                    assert(has_app(k0, names@[j]@));
                    let w = choose|w: int| 0 <= w < k0.len() && (#[trigger] k0[w]).app@ == names@[j]@;
                    assert(kept@[w] == k0[w]);
                }
            }
        }
    }
    let perm = order_desc(&keys);
    let mut apps: Vec<AppMinutes> = Vec::new();
    for q in 0..perm.len()
        invariant
            perm@.len() == keys@.len() == kept@.len(),
            is_permutation(perm@, keys@.len()),
            apps@.len() == q,
            forall|r: int| 0 <= r < q ==> #[trigger] apps@[r] == kept@[perm@[r] as int],
    {
        let p = perm[q];
        apps.push(AppMinutes { app: kept[p].app.clone(), minutes: kept[p].minutes });
    }
    let ghost out = apps@;
    assert forall|j: int| 0 <= j < out.len() implies app_seen(b@, n, (#[trigger] out[j]).app@)
        && out[j].minutes == minutes_i32(app_secs(b@, n, out[j].app@)) && out[j].minutes > 0 by {
        let p = perm@[j] as int;
        let t = src[p];
        assert(kept@[p].app == names@[t]);
    }
    assert forall|j1: int, j2: int| 0 <= j1 < j2 < out.len() implies (#[trigger] out[j1]).app@
        != (#[trigger] out[j2]).app@ by {
        let p1 = perm@[j1] as int;
        let p2 = perm@[j2] as int;
        assert(p1 != p2);
        let t1 = src[p1];
        let t2 = src[p2];
        if p1 < p2 {
            assert(t1 < t2);
        } else {
            assert(t2 < t1);
        }
    }
    assert forall|j: int|
        0 <= j < n && minutes_i32(app_secs(b@, n, (#[trigger] b@[j]).0@)) > 0 implies has_app(
        out,
        b@[j].0@,
    ) by {
        assert(has_name(names@, b@[j].0@));
        let w = choose|w: int| 0 <= w < names@.len() && (#[trigger] names@[w])@ == b@[j].0@;
        assert(has_app(kept@, names@[w]@));
        let c = choose|c: int| 0 <= c < kept@.len() && (#[trigger] kept@[c]).app@ == names@[w]@;
        assert(occurs(perm@, c));
        let r = choose|r: int| 0 <= r < perm@.len() && #[trigger] perm@[r] == c;
        assert(out[r] == kept@[c]);
    }
    assert forall|j1: int, j2: int| 0 <= j1 < j2 < out.len() implies (#[trigger] out[j1]).minutes
        >= (#[trigger] out[j2]).minutes by {
        let p1 = perm@[j1] as int;
        let p2 = perm@[j2] as int;
        assert(0 <= src[p1] && 0 <= src[p2]);
        assert(keys@[p1] >= keys@[p2]);
    }
    apps
}

pub proof fn lemma_first_active_range(s: Seq<Sample>, n: int)
    requires
        samples_ok(s),
        n <= s.len(),
    ensures
        first_active_at(s, n) matches Some(t) ==> in_chrono_range(t as int),
    decreases n,
{
    if n > 0 {
        lemma_first_active_range(s, n - 1);
        assert(in_chrono_range(s[n - 1].at as int));
    }
}

pub proof fn lemma_last_active_range(s: Seq<Sample>, now: Option<i64>, n: int)
    requires
        samples_ok(s),
        n <= s.len(),
    ensures
        last_active_end(s, now, n) matches Some(e) ==> -8400000000000 <= e <= 8400000000150,
    decreases n,
{
    if n > 0 {
        lemma_last_active_range(s, now, n - 1);
        assert(in_chrono_range(s[n - 1].at as int));
        lemma_secs_bounds(s, now, n - 1);
    }
}

/// "HH:MM" of an optional timestamp.
pub open spec fn opt_hhmm(t: Option<int>) -> Option<Seq<char>> {
    match t {
        Some(x) => Some(hhmm(x)),
        None => None,
    }
}

pub open spec fn opt_int(t: Option<i64>) -> Option<int> {
    match t {
        Some(x) => Some(x as int),
        None => None,
    }
}

/// Most windows listed in a day overview.
pub const TOP_BLOCKS: usize = 80;

/// A day overview's window list: the first blocks, at most `TOP_BLOCKS`, in minutes.
pub open spec fn top_blocks_of(b: Seq<(String, String, i64)>, top: Seq<ActivityBlock>) -> bool {
    &&& top.len() == if b.len() < TOP_BLOCKS {
        b.len()
    } else {
        TOP_BLOCKS as nat
    }
    &&& forall|j: int|
        0 <= j < top.len() ==> (#[trigger] top[j]).app@ == b[j].0@ && top[j].title@ == b[j].1@
            && top[j].minutes == minutes_i32(b[j].2 as int)
}

/// The overview of a day, as `day_activity` builds it from the day's samples.
pub open spec fn day_activity_of(day: Seq<char>, s: Seq<Sample>, now: Option<i64>, d: DayActivity) -> bool {
    let n = s.len() as int;
    &&& d.day@ == day
    &&& d.active_minutes == minutes_i32(idle_total(s, now, n, false))
    &&& d.idle_minutes == minutes_i32(idle_total(s, now, n, true))
    &&& opt_view(d.first_active) == opt_hhmm(opt_int(first_active_at(s, n)))
    &&& opt_view(d.last_active) == opt_hhmm(last_active_end(s, now, n))
    &&& d.sample_count == s.len() as i32
    &&& d.per_hour@.len() == 24
    &&& forall|h: int| 0 <= h < 24 ==> #[trigger] d.per_hour@[h] == minutes_i32(hour_total(s, now, n, h))
    &&& exists|b: Seq<(String, String, i64)>|
        blocks_ok(s, now, b) && top_blocks_of(b, d.top_blocks@) && #[trigger] apps_ok(b, d.apps@)
}

fn minutes_of(secs: i64) -> (m: i32)
    requires
        secs >= 0,
    ensures
        m == minutes_i32(secs as int),
{
    #[verifier::truncate]
    ((secs / 60) as i32)
}

fn opt_time_text(t: Option<i64>) -> (r: Option<String>)
    requires
        t matches Some(x) ==> -8400000000000 <= x <= 8400000000150,
    ensures
        opt_view(r) == opt_hhmm(opt_int(t)),
{
    match t {
        Some(x) => Some(format_hhmm(x)),
        None => None,
    }
}

/// The overview of one day: active and idle minutes, first and last activity as "HH:MM",
/// the number of samples, the windows with most time (at most `TOP_BLOCKS`), the minutes
/// per application (those with a positive count, most first) and the minutes per hour.
pub fn day_activity(day: &str, samples: &Vec<Sample>, now: Option<i64>) -> (d: DayActivity)
    requires
        samples_ok(samples@),
        now_ok(now),
        sums_fit(samples@.len() as int),
    ensures
        day_activity_of(day@, samples@, now, d),
{
    let ghost s = samples@;
    let ghost n = samples@.len() as int;
    let agg = aggregate(samples, now);
    proof {
        lemma_first_active_range(s, n);
        lemma_last_active_range(s, now, n);
        lemma_idle_total_bounds(s, now, n, false);
        lemma_idle_total_bounds(s, now, n, true);
    }
    let ghost b = agg.blocks@;
    assert forall|j: int| 0 <= j < b.len() implies (#[trigger] b[j]).2 >= 0 by {
        lemma_key_total_bounds(s, now, n, b[j].0@, b[j].1@);
    }
    let mut top: Vec<ActivityBlock> = Vec::new();
    let limit = if agg.blocks.len() < TOP_BLOCKS {
        agg.blocks.len()
    } else {
        TOP_BLOCKS
    };
    for j in 0..limit
        invariant
            limit <= agg.blocks@.len(),
            b == agg.blocks@,
            blocks_nonneg(b),
            top@.len() == j,
            forall|q: int|
                0 <= q < j ==> (#[trigger] top@[q]).app@ == b[q].0@ && top@[q].title@ == b[q].1@
                    && top@[q].minutes == minutes_i32(b[q].2 as int),
    {
        let blk = &agg.blocks[j];
        assert(b[j as int].2 >= 0);
        top.push(ActivityBlock { app: blk.0.clone(), title: blk.1.clone(), minutes: minutes_of(blk.2) });
    }
    let apps = apps_minutes(&agg.blocks);
    let mut per_hour: Vec<i32> = Vec::new();
    for h in 0..24usize
        invariant
            agg.per_hour@.len() == 24,
            forall|k: int| 0 <= k < 24 ==> #[trigger] agg.per_hour@[k] == hour_total(s, now, n, k),
            per_hour@.len() == h,
            forall|k: int| 0 <= k < h ==> #[trigger] per_hour@[k] == minutes_i32(hour_total(s, now, n, k)),
            n == s.len(),
    {
        proof {
            lemma_hour_total_bounds(s, now, n, h as int);
        }
        per_hour.push(minutes_of(agg.per_hour[h]));
    }
    let d = DayActivity {
        day: String::from_str(day),
        active_minutes: minutes_of(agg.active_secs),
        idle_minutes: minutes_of(agg.idle_secs),
        first_active: opt_time_text(agg.first_active),
        last_active: opt_time_text(agg.last_active),
        sample_count: samples.len() as i32,
        top_blocks: top,
        apps,
        per_hour,
    };
    assert(apps_ok(b, d.apps@));
    d
}

/// The active minutes of a day that has samples, with whether a summary exists for it.
pub fn tracked_day(day: String, samples: &Vec<Sample>, now: Option<i64>, has_summary: bool) -> (t: TrackedDay)
    requires
        samples_ok(samples@),
        now_ok(now),
        sums_fit(samples@.len() as int),
    ensures
        t.day == day,
        t.has_summary == has_summary,
        t.active_minutes == minutes_i32(idle_total(samples@, now, samples@.len() as int, false)),
{
    let agg = aggregate(samples, now);
    proof {
        lemma_idle_total_bounds(samples@, now, samples@.len() as int, false);
    }
    TrackedDay { has_summary, day, active_minutes: minutes_of(agg.active_secs) }
}

/// One stored sample row: the timestamp text, application, title and idle flag.
pub struct SampleRow {
    pub at: String,
    pub app: String,
    pub title: String,
    pub idle: i64,
}

/// The samples read from the first `n` rows, given the timestamp each row's text reads
/// as (`None` for a row whose text is not a timestamp, which is skipped); a non-zero idle
/// column marks an idle sample.
pub open spec fn samples_of(rows: Seq<SampleRow>, stamps: Seq<Option<i64>>, n: int) -> Seq<(i64, Seq<char>, Seq<char>, bool)>
    decreases n,
{
    if n <= 0 {
        Seq::empty()
    } else {
        let prev = samples_of(rows, stamps, n - 1);
        let r = rows[n - 1];
        match stamps[n - 1] {
            Some(t) => prev.push((t, r.app@, r.title@, r.idle != 0)),
            None => prev,
        }
    }
}

/// What chrono reads from each row's timestamp text.
pub open spec fn row_stamps(rows: Seq<SampleRow>) -> Seq<Option<i64>> {
    Seq::new(rows.len(), |i: int| chrono_stamp(rows[i].at@))
}

/// The samples read from the first `n` rows: rows whose timestamp chrono cannot parse
/// are skipped; a non-zero idle column marks an idle sample.
pub open spec fn samples_from(rows: Seq<SampleRow>, n: int) -> Seq<(i64, Seq<char>, Seq<char>, bool)> {
    samples_of(rows, row_stamps(rows), n)
}

/// The plain values of a sample.
pub open spec fn sample_values(x: Sample) -> (i64, Seq<char>, Seq<char>, bool) {
    (x.at, x.app@, x.title@, x.idle)
}

/// Turns rows into samples, given the timestamp each row reads as (one per row, each
/// inside chrono's date range): rows without a timestamp are skipped.
pub fn samples_from_stamps(rows: &Vec<SampleRow>, stamps: &Vec<Option<i64>>) -> (out: Vec<Sample>)
    requires
        stamps@.len() == rows@.len(),
        forall|i: int| 0 <= i < stamps@.len() ==> (#[trigger] stamps@[i] matches Some(t) ==> in_chrono_range(t as int)),
    ensures
        out@.len() == samples_of(rows@, stamps@, rows@.len() as int).len(),
        forall|i: int|
            0 <= i < out@.len() ==> sample_values(#[trigger] out@[i]) == samples_of(rows@, stamps@, rows@.len() as int)[i],
        samples_ok(out@),
{
    let mut out: Vec<Sample> = Vec::new();
    for k in 0..rows.len()
        invariant
            stamps@.len() == rows@.len(),
            forall|i: int| 0 <= i < stamps@.len() ==> (#[trigger] stamps@[i] matches Some(t) ==> in_chrono_range(t as int)),
            out@.len() == samples_of(rows@, stamps@, k as int).len(),
            forall|i: int| 0 <= i < out@.len() ==> sample_values(#[trigger] out@[i]) == samples_of(rows@, stamps@, k as int)[i],
            samples_ok(out@),
    {
        let r = &rows[k];
        match stamps[k] {
            Some(t) => {
                out.push(Sample { at: t, app: r.app.clone(), title: r.title.clone(), idle: r.idle != 0 });
            },
            None => {},
        }
    }
    out
}

/// Turns stored rows (already in timestamp order) into samples, reading each row's
/// timestamp with chrono as YYYY-MM-DDTHH:MM:SS.
pub fn load_samples(rows: &Vec<SampleRow>) -> (out: Vec<Sample>)
    ensures
        out@.len() == samples_from(rows@, rows@.len() as int).len(),
        forall|i: int|
            0 <= i < out@.len() ==> sample_values(#[trigger] out@[i]) == samples_from(rows@, rows@.len() as int)[i],
        samples_ok(out@),
{
    let mut stamps: Vec<Option<i64>> = Vec::new();
    for k in 0..rows.len()
        invariant
            stamps@.len() == k,
            forall|i: int| 0 <= i < k ==> #[trigger] stamps@[i] == chrono_stamp(rows@[i].at@),
            forall|i: int| 0 <= i < k ==> (#[trigger] stamps@[i] matches Some(t) ==> in_chrono_range(t as int)),
    {
        stamps.push(parse_stamp(rows[k].at.as_str()));
    }
    assert(stamps@ =~= row_stamps(rows@));
    samples_from_stamps(rows, &stamps)
}

/// `x / 60` rounded toward zero, as integer division does.
pub open spec fn tdiv60(x: int) -> int {
    if x >= 0 {
        x / 60
    } else {
        -((-x) / 60)
    }
}

fn push_minutes(out: &mut Vec<char>, secs: i64)
    ensures
        final(out)@ == old(out)@ + idec(tdiv60(secs as int)),
{
    let wide = secs as i128;
    let q: i128 = if wide >= 0 {
        wide / 60
    } else {
        -((-wide) / 60)
    };
    push_idec(out, q as i64);
}

/// `s` right-aligned in a field of four characters (`{:>4}`).
pub open spec fn right4(s: Seq<char>) -> Seq<char> {
    if s.len() < 4 {
        Seq::new((4 - s.len()) as nat, |i: int| ' ') + s
    } else {
        s
    }
}

/// The per-hour part of the digest for hours `0..h`.
pub open spec fn hour_text(per: Seq<i64>, h: int) -> Seq<char>
    decreases h,
{
    if h <= 0 {
        Seq::empty()
    } else {
        hour_text(per, h - 1) + if per[h - 1] > 0 {
            pad2((h - 1) as nat) + "h="@ + idec(tdiv60(per[h - 1] as int)) + " "@
        } else {
            Seq::empty()
        }
    }
}

/// Most windows listed in the digest.
pub const DIGEST_WINDOWS: usize = 120;

/// Most characters of a window title in the digest.
pub const DIGEST_TITLE_CHARS: usize = 140;

/// The first `n` characters of `s`, or all of `s` when it is shorter.
pub open spec fn prefix_upto(s: Seq<char>, n: int) -> Seq<char> {
    if s.len() < n {
        s
    } else {
        s.take(n)
    }
}

/// One window line of the digest.
pub open spec fn window_line(blk: (String, String, i64)) -> Seq<char> {
    right4(idec(tdiv60(blk.2 as int))) + "m  "@ + blk.0@ + "  —  "@ + prefix_upto(
        blk.1@,
        DIGEST_TITLE_CHARS as int,
    ) + "\n"@
}

/// The window lines for the first `n` blocks.
pub open spec fn window_text(b: Seq<(String, String, i64)>, n: int) -> Seq<char>
    decreases n,
{
    if n <= 0 {
        Seq::empty()
    } else {
        window_text(b, n - 1) + window_line(b[n - 1])
    }
}

/// How many blocks the digest lists: up to `DIGEST_WINDOWS`, stopping at the first with
/// under 30 seconds.
pub open spec fn listed_from(b: Seq<(String, String, i64)>, i: int) -> int
    decreases b.len() - i,
{
    let lim = if b.len() < DIGEST_WINDOWS { b.len() as int } else { DIGEST_WINDOWS as int };
    if i < 0 || i >= lim {
        lim
    } else if b[i].2 < 30 {
        i
    } else {
        listed_from(b, i + 1)
    }
}

/// The plain-text digest of a day for the language model.
pub open spec fn digest_text(day: Seq<char>, a: Aggregate) -> Seq<char> {
    "Date: "@ + day + "\n"@ + "Total active time: "@ + idec(tdiv60(a.active_secs as int)) + " minutes (idle: "@
        + idec(tdiv60(a.idle_secs as int)) + " minutes)\n"@ + match (a.first_active, a.last_active) {
        (Some(f), Some(l)) => "First activity: "@ + hhmm(f as int) + "  Last activity: "@ + hhmm(l as int)
            + "\n"@,
        _ => Seq::empty(),
    } + "Active minutes per hour: "@ + hour_text(a.per_hour@, 24)
        + "\n\nFocused windows (minutes, app, window title), most time first:\n"@ + window_text(
        a.blocks@,
        listed_from(a.blocks@, 0),
    )
}

fn push_right4(out: &mut Vec<char>, v: &Vec<char>)
    ensures
        final(out)@ == old(out)@ + right4(v@),
{
    let ghost start = out@;
    let mut k = v.len();
    while k < 4
        invariant
            v@.len() <= k <= 4 || v@.len() == k,
            k >= v@.len(),
            out@ == start + Seq::new((k - v@.len()) as nat, |i: int| ' '),
        decreases 4 - k,
    {
        out.push(' ');
        k = k + 1;
        assert(out@ =~= start + Seq::new((k - v@.len()) as nat, |i: int| ' '));
    }
    let ghost mid = out@;
    for i in 0..v.len()
        invariant
            out@ == mid + v@.take(i as int),
    {
        out.push(v[i]);
        assert(out@ =~= mid + v@.take(i + 1));
    }
    assert(v@.take(v@.len() as int) =~= v@);
    proof {
        if v@.len() < 4 {
            assert(mid =~= start + Seq::new((4 - v@.len()) as nat, |i: int| ' '));
        } else {
            assert(mid =~= start);
        }
    }
}

fn push_chars_upto(out: &mut Vec<char>, v: &Vec<char>, limit: usize)
    ensures
        final(out)@ == old(out)@ + prefix_upto(v@, limit as int),
{
    let ghost start = out@;
    let lim = if v.len() < limit { v.len() } else { limit };
    for i in 0..lim
        invariant
            lim <= v@.len(),
            out@ == start + v@.take(i as int),
    {
        out.push(v[i]);
        assert(out@ =~= start + v@.take(i + 1));
    }
    assert(v@.take(v@.len() as int) =~= v@);
}

/// Plain-text digest of a day for the language model: the date, active and idle minutes,
/// first and last activity when both are known, the active minutes of each hour with any,
/// and the windows with most time (at most `DIGEST_WINDOWS`, none under 30 seconds), titles
/// cut to `DIGEST_TITLE_CHARS` characters.
pub fn describe_for_llm(day: &str, agg: &Aggregate) -> (text: String)
    requires
        agg.per_hour@.len() == 24,
        agg.first_active matches Some(f) ==> stamp_ok(f as int),
        agg.last_active matches Some(l) ==> stamp_ok(l as int),
    ensures
        text@ == digest_text(day@, *agg),
{
    let mut v: Vec<char> = Vec::new();
    push_str(&mut v, "Date: ");
    push_str(&mut v, day);
    push_str(&mut v, "\n");
    push_str(&mut v, "Total active time: ");
    push_minutes(&mut v, agg.active_secs);
    push_str(&mut v, " minutes (idle: ");
    push_minutes(&mut v, agg.idle_secs);
    push_str(&mut v, " minutes)\n");
    let ghost after_totals = v@;
    match (agg.first_active, agg.last_active) {
        (Some(f), Some(l)) => {
            push_str(&mut v, "First activity: ");
            let ft = format_hhmm(f);
            push_str(&mut v, ft.as_str());
            push_str(&mut v, "  Last activity: ");
            let lt = format_hhmm(l);
            push_str(&mut v, lt.as_str());
            push_str(&mut v, "\n");
        },
        _ => {},
    }
    push_str(&mut v, "Active minutes per hour: ");
    let ghost before_hours = v@;
    for h in 0..24usize
        invariant
            agg.per_hour@.len() == 24,
            v@ == before_hours + hour_text(agg.per_hour@, h as int),
    {
        let secs = agg.per_hour[h];
        if secs > 0 {
            push_pad2(&mut v, h as u64);
            push_str(&mut v, "h=");
            push_minutes(&mut v, secs);
            push_str(&mut v, " ");
        }
        assert(v@ =~= before_hours + hour_text(agg.per_hour@, h + 1));
    }
    push_str(&mut v, "\n\nFocused windows (minutes, app, window title), most time first:\n");
    let ghost before_windows = v@;
    let ghost b = agg.blocks@;
    let lim = if agg.blocks.len() < DIGEST_WINDOWS {
        agg.blocks.len()
    } else {
        DIGEST_WINDOWS
    };
    let mut i: usize = 0;
    while i < lim
        invariant
            b == agg.blocks@,
            lim == (if b.len() < DIGEST_WINDOWS { b.len() as int } else { DIGEST_WINDOWS as int }),
            i <= lim,
            listed_from(b, i as int) == listed_from(b, 0),
            v@ == before_windows + window_text(b, i as int),
        ensures
            i == listed_from(b, 0),
            v@ == before_windows + window_text(b, i as int),
        decreases lim - i,
    {
        let blk = &agg.blocks[i];
        if blk.2 < 30 {
            break;
        }
        let mut num: Vec<char> = Vec::new();
        push_minutes(&mut num, blk.2);
        push_right4(&mut v, &num);
        push_str(&mut v, "m  ");
        push_str(&mut v, blk.0.as_str());
        push_str(&mut v, "  —  ");
        let tchars = chars_of(blk.1.as_str());
        push_chars_upto(&mut v, &tchars, DIGEST_TITLE_CHARS);
        push_str(&mut v, "\n");
        assert(v@ =~= before_windows + window_text(b, i + 1));
        i = i + 1;
    }
    let text = string_of(&v);
    assert(text@ =~= digest_text(day@, *agg));
    text
}

/// Seconds of all of the first `n` samples.
pub open spec fn all_total(s: Seq<Sample>, now: Option<i64>, n: int) -> int
    decreases n,
{
    if n <= 0 {
        0
    } else {
        all_total(s, now, n - 1) + sample_secs(s, now, n - 1)
    }
}

/// Every attributed second is either active or idle.
pub proof fn law_active_idle_partition(s: Seq<Sample>, now: Option<i64>, n: int)
    requires
        0 <= n,
    ensures
        idle_total(s, now, n, false) + idle_total(s, now, n, true) == all_total(s, now, n),
    decreases n,
{
    if n > 0 {
        law_active_idle_partition(s, now, n - 1);
    }
}

/// Active seconds of the first `n` samples over the hours `0..k`.
pub open spec fn hours_sum(s: Seq<Sample>, now: Option<i64>, n: int, k: int) -> int
    decreases k,
{
    if k <= 0 {
        0
    } else {
        hours_sum(s, now, n, k - 1) + hour_total(s, now, n, k - 1)
    }
}

proof fn lemma_hours_sum_step(s: Seq<Sample>, now: Option<i64>, n: int, k: int)
    requires
        0 < n,
        0 <= k,
    ensures
        hours_sum(s, now, n, k) == hours_sum(s, now, n - 1, k) + if !s[n - 1].idle && 0 <= hour_of(
            s[n - 1].at as int,
        ) < k {
            sample_secs(s, now, n - 1)
        } else {
            0
        },
    decreases k,
{
    if k > 0 {
        lemma_hours_sum_step(s, now, n, k - 1);
    }
}

proof fn lemma_hours_sum_empty(s: Seq<Sample>, now: Option<i64>, k: int)
    ensures
        hours_sum(s, now, 0, k) == 0,
    decreases k,
{
    if k > 0 {
        lemma_hours_sum_empty(s, now, k - 1);
    }
}

/// The active seconds per hour add up to the active seconds.
pub proof fn law_hours_partition(s: Seq<Sample>, now: Option<i64>, n: int)
    requires
        0 <= n,
    ensures
        hours_sum(s, now, n, 24) == idle_total(s, now, n, false),
    decreases n,
{
    if n == 0 {
        lemma_hours_sum_empty(s, now, 24);
    } else {
        law_hours_partition(s, now, n - 1);
        lemma_hours_sum_step(s, now, n, 24);
        let t = s[n - 1].at as int;
        assert(0 <= t % 86400 < 86400);
        assert(0 <= hour_of(t) < 24);
    }
}

/// Seconds over the first `k` blocks.
pub open spec fn blocks_sum(b: Seq<(String, String, i64)>, k: int) -> int
    decreases k,
{
    if k <= 0 {
        0
    } else {
        blocks_sum(b, k - 1) + b[k - 1].2
    }
}

/// Key totals of the first `n` samples over the first `k` keys.
pub open spec fn keys_sum(s: Seq<Sample>, now: Option<i64>, n: int, keys: Seq<(Seq<char>, Seq<char>)>, k: int) -> int
    decreases k,
{
    if k <= 0 {
        0
    } else {
        keys_sum(s, now, n, keys, k - 1) + key_total(s, now, n, keys[k - 1].0, keys[k - 1].1)
    }
}

/// The keys are distinct.
pub open spec fn keys_distinct(keys: Seq<(Seq<char>, Seq<char>)>) -> bool {
    forall|j1: int, j2: int| 0 <= j1 < j2 < keys.len() ==> #[trigger] keys[j1] != #[trigger] keys[j2]
}

proof fn lemma_keys_sum_step(s: Seq<Sample>, now: Option<i64>, n: int, keys: Seq<(Seq<char>, Seq<char>)>, k: int)
    requires
        0 < n,
        0 <= k <= keys.len(),
        keys_distinct(keys),
    ensures
        keys_sum(s, now, n, keys, k) == keys_sum(s, now, n - 1, keys, k) + if exists|j: int|
            0 <= j < k && active_in(s[n - 1], #[trigger] keys[j].0, keys[j].1) {
            sample_secs(s, now, n - 1)
        } else {
            0
        },
    decreases k,
{
    if k > 0 {
        lemma_keys_sum_step(s, now, n, keys, k - 1);
        if active_in(s[n - 1], keys[k - 1].0, keys[k - 1].1) {
            assert forall|j: int| 0 <= j < k - 1 implies !active_in(s[n - 1], #[trigger] keys[j].0, keys[j].1) by {
                assert(keys[j] != keys[k - 1]);
            }
        } else {
            if exists|j: int| 0 <= j < k && active_in(s[n - 1], #[trigger] keys[j].0, keys[j].1) {
                let j = choose|j: int| 0 <= j < k && active_in(s[n - 1], #[trigger] keys[j].0, keys[j].1);
                assert(j < k - 1);
            }
        }
    }
}

proof fn lemma_keys_sum_empty(s: Seq<Sample>, now: Option<i64>, keys: Seq<(Seq<char>, Seq<char>)>, k: int)
    ensures
        keys_sum(s, now, 0, keys, k) == 0,
    decreases k,
{
    if k > 0 {
        lemma_keys_sum_empty(s, now, keys, k - 1);
    }
}

/// Over distinct keys that include every active sample's key, the key totals add up to
/// the active seconds.
pub proof fn lemma_keys_partition(s: Seq<Sample>, now: Option<i64>, n: int, keys: Seq<(Seq<char>, Seq<char>)>)
    requires
        0 <= n <= s.len(),
        keys_distinct(keys),
        forall|i: int| 0 <= i < n && !s[i].idle ==> exists|j: int| 0 <= j < keys.len() && #[trigger] keys[j] == (s[i].app@, s[i].title@),
    ensures
        keys_sum(s, now, n, keys, keys.len() as int) == idle_total(s, now, n, false),
    decreases n,
{
    if n == 0 {
        lemma_keys_sum_empty(s, now, keys, keys.len() as int);
    } else {
        lemma_keys_partition(s, now, n - 1, keys);
        lemma_keys_sum_step(s, now, n, keys, keys.len() as int);
        if !s[n - 1].idle {
            let j = choose|j: int| 0 <= j < keys.len() && #[trigger] keys[j] == (s[n - 1].app@, s[n - 1].title@);
            assert(active_in(s[n - 1], keys[j].0, keys[j].1));
        }
    }
}

/// The keys of the first `k` blocks.
pub open spec fn block_keys(b: Seq<(String, String, i64)>) -> Seq<(Seq<char>, Seq<char>)> {
    Seq::new(b.len(), |j: int| (b[j].0@, b[j].1@))
}

proof fn lemma_blocks_sum_keys(s: Seq<Sample>, now: Option<i64>, b: Seq<(String, String, i64)>, k: int)
    requires
        0 <= k <= b.len(),
        forall|j: int|
            0 <= j < b.len() ==> (#[trigger] b[j]).2 == key_total(s, now, s.len() as int, b[j].0@, b[j].1@),
    ensures
        blocks_sum(b, k) == keys_sum(s, now, s.len() as int, block_keys(b), k),
    decreases k,
{
    if k > 0 {
        lemma_blocks_sum_keys(s, now, b, k - 1);
        assert(b[k - 1].2 == key_total(s, now, s.len() as int, b[k - 1].0@, b[k - 1].1@));
    }
}

/// The seconds of a day's window blocks add up to its active seconds.
pub proof fn law_blocks_partition(s: Seq<Sample>, now: Option<i64>, b: Seq<(String, String, i64)>)
    requires
        blocks_ok(s, now, b),
    ensures
        blocks_sum(b, b.len() as int) == idle_total(s, now, s.len() as int, false),
{
    let keys = block_keys(b);
    assert forall|j1: int, j2: int| 0 <= j1 < j2 < keys.len() implies #[trigger] keys[j1] != #[trigger] keys[j2] by {
        assert(!((b[j1]).0@ == (b[j2]).0@ && b[j1].1@ == b[j2].1@));
    }
    assert forall|i: int| 0 <= i < s.len() && !s[i].idle implies exists|j: int|
        0 <= j < keys.len() && #[trigger] keys[j] == (s[i].app@, s[i].title@) by {
        assert(has_block(b, s[i].app@, s[i].title@));
        let j = choose|j: int| 0 <= j < b.len() && (#[trigger] b[j]).0@ == s[i].app@ && b[j].1@ == s[i].title@;
        assert(keys[j] == (s[i].app@, s[i].title@));
    }
    lemma_keys_partition(s, now, s.len() as int, keys);
    lemma_blocks_sum_keys(s, now, b, b.len() as int);
}

/// Every sample is attributed between zero and `MAX_GAP_SECS` seconds.
pub proof fn law_sample_secs_capped(s: Seq<Sample>, now: Option<i64>, i: int)
    ensures
        0 <= sample_secs(s, now, i) <= MAX_GAP_SECS,
{
}

proof fn lemma_first_active_at(s: Seq<Sample>, n: int)
    requires
        0 <= n <= s.len(),
    ensures
        first_active_at(s, n) matches Some(t) ==> exists|i: int|
            0 <= i < n && !s[i].idle && (#[trigger] s[i]).at == t && forall|k: int| 0 <= k < i ==> (#[trigger] s[k]).idle,
        first_active_at(s, n) is None <==> forall|i: int| 0 <= i < n ==> (#[trigger] s[i]).idle,
    decreases n,
{
    if n > 0 {
        lemma_first_active_at(s, n - 1);
        if first_active_at(s, n - 1) is None && !s[n - 1].idle {
            assert(s[n - 1].at == first_active_at(s, n)->0);
        }
    }
}

/// A day's first activity is the moment of its first active sample: when there is one,
/// it is the timestamp of an active sample before which every sample is idle, and there is
/// none exactly when every sample is idle.
pub proof fn law_first_active_is_first_active_sample(s: Seq<Sample>, now: Option<i64>, a: Aggregate)
    requires
        aggregate_of(s, now, a),
    ensures
        a.first_active matches Some(t) ==> exists|i: int|
            0 <= i < s.len() && !s[i].idle && (#[trigger] s[i]).at == t && forall|k: int| 0 <= k < i ==> (#[trigger] s[k]).idle,
        a.first_active is None <==> forall|i: int| 0 <= i < s.len() ==> (#[trigger] s[i]).idle,
{
    lemma_first_active_at(s, s.len() as int);
}

/// Each window listed in a day overview shows the whole minutes of that window's active
/// seconds (while the day's seconds fit an `i32` count of minutes).
pub proof fn law_top_block_minutes(day: Seq<char>, s: Seq<Sample>, now: Option<i64>, d: DayActivity)
    requires
        day_activity_of(day, s, now, d),
        MAX_GAP_SECS * s.len() < 60 * 0x8000_0000,
    ensures
        forall|j: int|
            0 <= j < d.top_blocks@.len() ==> 60 * (#[trigger] d.top_blocks@[j]).minutes <= key_total(
                s,
                now,
                s.len() as int,
                d.top_blocks@[j].app@,
                d.top_blocks@[j].title@,
            ) < 60 * (d.top_blocks@[j].minutes + 1),
{
    let b = choose|b: Seq<(String, String, i64)>|
        blocks_ok(s, now, b) && top_blocks_of(b, d.top_blocks@) && #[trigger] apps_ok(b, d.apps@);
    assert forall|j: int| 0 <= j < d.top_blocks@.len() implies 60 * (#[trigger] d.top_blocks@[j]).minutes <= key_total(
        s,
        now,
        s.len() as int,
        d.top_blocks@[j].app@,
        d.top_blocks@[j].title@,
    ) < 60 * (d.top_blocks@[j].minutes + 1) by {
        let secs = key_total(s, now, s.len() as int, b[j].0@, b[j].1@);
        lemma_key_total_bounds(s, now, s.len() as int, b[j].0@, b[j].1@);
        assert(b[j].2 == secs);
        assert(0 <= secs / 60 < 0x8000_0000);
        assert(d.top_blocks@[j].minutes == secs / 60);
    }
}

/// The digest for the language model opens with the date and the day's active and idle
/// time, each the whole minutes of its seconds.
pub proof fn law_digest_totals(day: Seq<char>, a: Aggregate)
    ensures
        a.active_secs >= 0 && a.idle_secs >= 0 ==> ("Date: "@ + day + "\n"@ + "Total active time: "@ + dec(
            (a.active_secs / 60) as nat,
        ) + " minutes (idle: "@ + dec((a.idle_secs / 60) as nat) + " minutes)\n"@).is_prefix_of(digest_text(day, a)),
{
    if a.active_secs >= 0 && a.idle_secs >= 0 {
        let p = "Date: "@ + day + "\n"@ + "Total active time: "@ + dec((a.active_secs / 60) as nat) + " minutes (idle: "@
            + dec((a.idle_secs / 60) as nat) + " minutes)\n"@;
        assert(idec(tdiv60(a.active_secs as int)) == dec((a.active_secs / 60) as nat));
        assert(idec(tdiv60(a.idle_secs as int)) == dec((a.idle_secs / 60) as nat));
        let rest = match (a.first_active, a.last_active) {
            (Some(f), Some(l)) => "First activity: "@ + hhmm(f as int) + "  Last activity: "@ + hhmm(l as int) + "\n"@,
            _ => Seq::empty(),
        } + "Active minutes per hour: "@ + hour_text(a.per_hour@, 24)
            + "\n\nFocused windows (minutes, app, window title), most time first:\n"@ + window_text(
            a.blocks@,
            listed_from(a.blocks@, 0),
        );
        assert(digest_text(day, a) =~= p + rest);
        assert((p + rest).subrange(0, p.len() as int) =~= p);
    }
}

proof fn lemma_last_active_end(s: Seq<Sample>, now: Option<i64>, n: int)
    requires
        0 <= n <= s.len(),
    ensures
        last_active_end(s, now, n) matches Some(e) ==> exists|i: int|
            0 <= i < n && !s[i].idle && e == (#[trigger] s[i]).at + sample_secs(s, now, i) && forall|k: int|
                i < k < n ==> (#[trigger] s[k]).idle,
        last_active_end(s, now, n) is None <==> forall|i: int| 0 <= i < n ==> (#[trigger] s[i]).idle,
    decreases n,
{
    if n > 0 {
        lemma_last_active_end(s, now, n - 1);
        if !s[n - 1].idle {
            assert(last_active_end(s, now, n)->0 == s[n - 1].at + sample_secs(s, now, n - 1));
        } else if last_active_end(s, now, n - 1) is Some {
            let e = last_active_end(s, now, n - 1)->0;
            let i = choose|i: int|
                0 <= i < n - 1 && !s[i].idle && e == (#[trigger] s[i]).at + sample_secs(s, now, i) && forall|k: int|
                    i < k < n - 1 ==> (#[trigger] s[k]).idle;
            assert forall|k: int| i < k < n implies (#[trigger] s[k]).idle by {
                if k < n - 1 {
                    assert(s[k].idle);
                }
            }
        }
    }
}

/// A day's last activity is the end of its last active sample: when there is one, it is
/// the timestamp plus the attributed seconds of an active sample after which every sample
/// is idle, and there is none exactly when every sample is idle.
pub proof fn law_last_active_is_end_of_last_active_sample(s: Seq<Sample>, now: Option<i64>, a: Aggregate)
    requires
        aggregate_of(s, now, a),
    ensures
        a.last_active matches Some(l) ==> exists|i: int|
            0 <= i < s.len() && !s[i].idle && l == (#[trigger] s[i]).at + sample_secs(s, now, i) && forall|k: int|
                i < k < s.len() ==> (#[trigger] s[k]).idle,
        a.last_active is None <==> forall|i: int| 0 <= i < s.len() ==> (#[trigger] s[i]).idle,
{
    lemma_last_active_end(s, now, s.len() as int);
}

/// A day overview counts whole minutes: its active and idle minutes, and its minutes in
/// each hour, are the whole minutes of the corresponding seconds (while the day's seconds
/// fit an `i32` count of minutes).
pub proof fn law_day_minutes(day: Seq<char>, s: Seq<Sample>, now: Option<i64>, d: DayActivity)
    requires
        day_activity_of(day, s, now, d),
        MAX_GAP_SECS * s.len() < 60 * 0x8000_0000,
    ensures
        60 * d.active_minutes <= idle_total(s, now, s.len() as int, false) < 60 * (d.active_minutes + 1),
        60 * d.idle_minutes <= idle_total(s, now, s.len() as int, true) < 60 * (d.idle_minutes + 1),
        forall|h: int|
            0 <= h < 24 ==> 60 * #[trigger] d.per_hour@[h] <= hour_total(s, now, s.len() as int, h) < 60 * (
            d.per_hour@[h] + 1),
{
    let n = s.len() as int;
    lemma_idle_total_bounds(s, now, n, false);
    lemma_idle_total_bounds(s, now, n, true);
    assert forall|h: int| 0 <= h < 24 implies 60 * #[trigger] d.per_hour@[h] <= hour_total(s, now, n, h) < 60 * (
    d.per_hour@[h] + 1) by {
        lemma_hour_total_bounds(s, now, n, h);
        assert(0 <= hour_total(s, now, n, h) / 60 < 0x8000_0000);
    }
}

} // verus!
