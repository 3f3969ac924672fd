//! Sliding-window admission policy.
//!
//! A window of capture times (milliseconds) of past admitted actions is
//! shared across the whole run.  One admission prunes entries older than the
//! window span, pops entries down to the allowance and computes from the
//! last popped entry how long the caller must still be held back, then
//! records the new capture time.  The capture time is recorded before the
//! caller is suspended, exactly as the window is meant to meter: the wait
//! itself happens outside the exclusive region, in the caller's runtime.
//! Recording before the wait under-counts the true separation of completed
//! actions under sustained load — a later back-to-back call's residual
//! delay can shrink toward zero — so the spacing law below measures from a
//! recorded capture to a later call's release, where the guarantee is
//! exact.

use vstd::prelude::*;

verus! {

use std::collections::VecDeque;

/// The mutable state that admission control works on: capture times of past
/// admitted actions, oldest first.
pub struct Data {
    pub last_requests_time: VecDeque<u64>,
}

/// Entries never decrease: each admission appends a capture time at least
/// as late as every recorded one.
pub open spec fn sorted(s: Seq<u64>) -> bool {
    forall|i: int, j: int| 0 <= i <= j < s.len() ==> s[i] <= s[j]
}

impl Data {
    pub open spec fn wf(self) -> bool {
        sorted(self.last_requests_time@)
    }
}

impl Default for Data {
    fn default() -> (r: Data)
        ensures
            r.last_requests_time@ == Seq::<u64>::empty(),
            r.wf(),
    {
        Data { last_requests_time: VecDeque::new() }
    }
}

/// All possible errors of the Policy modules.
#[derive(Debug)]
pub enum Error {
    GuardError(String),
}

/// The API of Policy: one admitted action per call, with whatever blocking
/// the implementation needs.  `admit_rel` is each implementation's statement
/// of how one admission transforms the window; by default it promises
/// nothing.
pub trait Api: Sized {
    open spec fn admit_rel(&self, pre: Data, post: Data) -> bool {
        true
    }

    fn handle_request_rate(&self, data: &mut Data) -> (r: Result<(), Error>)
        ensures
            r is Ok ==> self.admit_rel(*old(data), *final(data)),
            r is Err ==> final(data).last_requests_time@ == old(data).last_requests_time@,
    ;
}

/// Entries at or after this cutoff are still inside the trailing window.
pub open spec fn cutoff(now: u64, cool_down: u64) -> int {
    if now >= cool_down {
        now - cool_down
    } else {
        0
    }
}

/// How many leading entries fall before the cutoff.
pub open spec fn prune_count(s: Seq<u64>, th: int) -> int
    decreases s.len(),
{
    if s.len() > 0 && s[0] < th {
        1 + prune_count(s.drop_first(), th)
    } else {
        0
    }
}

/// The window with entries older than the cutoff dropped from the front.
pub open spec fn pruned(s: Seq<u64>, th: int) -> Seq<u64> {
    s.subrange(prune_count(s, th), s.len() as int)
}

/// The window after one admission at capture time `now`: prune, pop down to
/// `k - 1` entries, append `now`.
pub open spec fn admit_window(w: Seq<u64>, now: u64, cool_down: u64, k: int) -> Seq<u64> {
    let p = pruned(w, cutoff(now, cool_down));
    let q = if p.len() >= k {
        p.subrange(p.len() - (k - 1), p.len() as int)
    } else {
        p
    };
    q.push(now)
}

/// How long the caller of that admission is held back: the time until the
/// last popped entry would have aged out of the window, zero if nothing was
/// popped.
pub open spec fn admit_delay(w: Seq<u64>, now: u64, cool_down: u64, k: int) -> int {
    let p = pruned(w, cutoff(now, cool_down));
    if p.len() >= k {
        p[p.len() - k] + cool_down - now
    } else {
        0
    }
}

proof fn lemma_prune_count_char(s: Seq<u64>, th: int, c: int)
    requires
        0 <= c <= s.len(),
        forall|i: int| 0 <= i < c ==> s[i] < th,
        c < s.len() ==> s[c] >= th,
    ensures
        prune_count(s, th) == c,
    decreases s.len(),
{
    if s.len() > 0 && s[0] < th {
        assert(forall|i: int| 0 <= i < s.len() - 1 ==> #[trigger] s.drop_first()[i] == s[i + 1]);
        lemma_prune_count_char(s.drop_first(), th, c - 1);
    }
}

proof fn lemma_prune_count_bounds(s: Seq<u64>, th: int)
    ensures
        0 <= prune_count(s, th) <= s.len(),
        forall|i: int| 0 <= i < prune_count(s, th) ==> s[i] < th,
        prune_count(s, th) < s.len() ==> s[prune_count(s, th)] >= th,
    decreases s.len(),
{
    if s.len() > 0 && s[0] < th {
        assert(forall|i: int| 0 <= i < s.len() - 1 ==> #[trigger] s.drop_first()[i] == s[i + 1]);
        lemma_prune_count_bounds(s.drop_first(), th);
        assert forall|i: int| 0 <= i < prune_count(s, th) implies s[i] < th by {
            if i > 0 {
                assert(s.drop_first()[i - 1] == s[i]);
            }
        }
    }
}

/// The window left behind by a run of admissions whose capture times were
/// `nows`, oldest call first.
pub open spec fn trace_window(cool_down: u64, k: int, nows: Seq<u64>) -> Seq<u64>
    decreases nows.len(),
{
    if nows.len() == 0 {
        Seq::empty()
    } else {
        admit_window(trace_window(cool_down, k, nows.drop_last()), nows.last(), cool_down, k)
    }
}

/// The delay handed to call `i` of that run.
pub open spec fn trace_delay(cool_down: u64, k: int, nows: Seq<u64>, i: int) -> int {
    admit_delay(trace_window(cool_down, k, nows.take(i)), nows[i], cool_down, k)
}

/// When call `i` of the run is released: its capture time plus its delay.
pub open spec fn release_at(cool_down: u64, k: int, nows: Seq<u64>, i: int) -> int {
    nows[i] + trace_delay(cool_down, k, nows, i)
}

/// A paced run: callers are sequential and sleep out their delays, so each
/// capture time is no earlier than the previous caller's release.
pub open spec fn paced(cool_down: u64, k: int, nows: Seq<u64>) -> bool {
    forall|j: int| 1 <= j < nows.len() ==> nows[j] >= release_at(cool_down, k, nows, j - 1)
}

/// One admission step, applied to a window that is a suffix of the capture
/// times so far: the new window is again a suffix, no longer than the
/// allowance, the delay is not negative, and every capture time dropped at
/// this step had aged out of the window (or is paid for) by this call's
/// release.
#[verifier::rlimit(100)]
proof fn lemma_admit_step_shape(cool_down: u64, k: int, nows: Seq<u64>, n: int, m: int)
    requires
        k >= 1,
        1 <= n <= nows.len(),
        0 <= m < n,
        trace_window(cool_down, k, nows.take(n - 1)) == nows.subrange(n - 1 - m, n - 1),
        forall|j1: int, j2: int| 0 <= j1 <= j2 < n ==> nows[j1] <= nows[j2],
    ensures
        ({
            let w = trace_window(cool_down, k, nows.take(n));
            &&& 1 <= w.len() <= m + 1
            &&& w.len() <= if m + 1 <= k {
                m + 1
            } else {
                k
            }
            &&& w == nows.subrange(n - w.len(), n)
            &&& trace_delay(cool_down, k, nows, n - 1) >= 0
            &&& forall|j: int|
                n - 1 - m <= j < n - w.len() ==> nows[j] + cool_down <= release_at(
                    cool_down,
                    k,
                    nows,
                    n - 1,
                )
        }),
{
    let wp = trace_window(cool_down, k, nows.take(n - 1));
    let now = nows[n - 1];
    assert(nows.take(n).drop_last() =~= nows.take(n - 1));
    assert(nows.take(n).last() == nows[n - 1]);
    let w = trace_window(cool_down, k, nows.take(n));
    assert(w == admit_window(wp, now, cool_down, k));
    assert(trace_delay(cool_down, k, nows, n - 1) == admit_delay(wp, now, cool_down, k));

    assert(forall|i: int| 0 <= i < m ==> #[trigger] wp[i] == nows[n - 1 - m + i]);
    assert(forall|i: int| 0 <= i < m ==> #[trigger] wp[i] <= now);

    let th = cutoff(now, cool_down);
    lemma_prune_count_bounds(wp, th);
    let c = prune_count(wp, th);
    let p = pruned(wp, th);
    assert(forall|i: int| 0 <= i < p.len() ==> #[trigger] p[i] == wp[c + i]);
    assert forall|i: int| 0 <= i < p.len() implies #[trigger] p[i] >= th by {
        assert(wp[c] >= th);
        assert(wp[c] <= wp[c + i]);
    }
    if p.len() >= k {
        assert(p[p.len() - k] >= th);
    }
    let q = if p.len() >= k {
        p.subrange(p.len() - (k - 1), p.len() as int)
    } else {
        p
    };
    assert(w == q.push(now));
    assert(w =~= nows.subrange(n - w.len(), n));

    let rel = release_at(cool_down, k, nows, n - 1);
    assert(rel >= now);
    assert forall|j: int| n - 1 - m <= j < n - w.len() implies nows[j] + cool_down <= rel by {
        assert(nows[j] == wp[j - (n - 1 - m)]);
        if j < (n - 1 - m) + c {
            // pruned at this call: strictly older than the cutoff
            assert(wp[j - (n - 1 - m)] < th);
            assert(th > 0);
            assert(nows[j] + cool_down < now);
        } else {
            // popped at this call: no later than the last popped entry
            assert(p.len() >= k);
            assert(wp[j - (n - 1 - m)] == p[j - (n - 1 - m) - c]);
            assert(j - (n - 1 - m) - c <= p.len() - k);
            assert(p[j - (n - 1 - m) - c] <= p[p.len() - k]);
            assert(rel == p[p.len() - k] + cool_down);
        }
    }
}

/// Shape of a paced run after `n` calls: the window is a suffix of the
/// capture times, at most `k` long; delays are never negative; capture
/// times never decrease; and every capture time already dropped from the
/// window had aged out (or been paid for) by the last release.
#[verifier::rlimit(100)]
proof fn lemma_trace_shape(cool_down: u64, k: int, nows: Seq<u64>, n: int)
    requires
        k >= 1,
        paced(cool_down, k, nows),
        0 <= n <= nows.len(),
    ensures
        ({
            let w = trace_window(cool_down, k, nows.take(n));
            &&& w.len() <= n
            &&& n >= 1 ==> 1 <= w.len() <= k
            &&& w == nows.subrange(n - w.len(), n)
            &&& n >= 1 ==> trace_delay(cool_down, k, nows, n - 1) >= 0
            &&& n >= 1 ==> release_at(cool_down, k, nows, n - 1) >= nows[n - 1]
            &&& forall|j: int|
                0 <= j < n - w.len() ==> nows[j] + cool_down <= release_at(
                    cool_down,
                    k,
                    nows,
                    n - 1,
                )
            &&& forall|j1: int, j2: int| 0 <= j1 <= j2 < n ==> nows[j1] <= nows[j2]
        }),
    decreases n,
{
    if n == 0 {
        assert(nows.take(0) =~= Seq::<u64>::empty());
    } else {
        lemma_trace_shape(cool_down, k, nows, n - 1);
        let wp = trace_window(cool_down, k, nows.take(n - 1));
        let m = wp.len() as int;

        // capture times stay monotone through call n - 1
        assert forall|j1: int, j2: int| 0 <= j1 <= j2 < n implies nows[j1] <= nows[j2] by {
            if j2 == n - 1 && j1 < j2 {
                assert(nows[n - 1] >= release_at(cool_down, k, nows, n - 2));
                assert(release_at(cool_down, k, nows, n - 2) >= nows[n - 2]);
            }
        }
        lemma_admit_step_shape(cool_down, k, nows, n, m);
        let w = trace_window(cool_down, k, nows.take(n));
        let rel = release_at(cool_down, k, nows, n - 1);
        assert forall|j: int| 0 <= j < n - w.len() implies nows[j] + cool_down <= rel by {
            if j < (n - 1) - m {
                assert(nows[j] + cool_down <= release_at(cool_down, k, nows, n - 2));
                assert(nows[n - 1] >= release_at(cool_down, k, nows, n - 2));
                assert(rel >= nows[n - 1]);
            }
        }
    }
}

/// Any `k + 1` consecutive admissions of a paced run span at least the
/// window duration, measured from the capture time recorded for the first
/// of them to the release of the last: the capture times themselves are
/// taken before the wait, so the span is guaranteed only up to each call's
/// own delay.
#[verifier::rlimit(100)]
pub proof fn lemma_admit_spacing(cool_down: u64, k: int, nows: Seq<u64>, i: int)
    requires
        k >= 1,
        paced(cool_down, k, nows),
        0 <= i,
        i + k < nows.len(),
    ensures
        release_at(cool_down, k, nows, i + k) >= nows[i] + cool_down,
{
    let t = i + k;
    lemma_trace_shape(cool_down, k, nows, t);
    lemma_trace_shape(cool_down, k, nows, t + 1);
    let w = trace_window(cool_down, k, nows.take(t));
    let m = w.len() as int;
    assert(release_at(cool_down, k, nows, t) >= nows[t]);
    if i < t - m {
        assert(nows[i] + cool_down <= release_at(cool_down, k, nows, t - 1));
        assert(nows[t] >= release_at(cool_down, k, nows, t - 1));
    } else {
        assert(m == k && i == t - m);
        assert(forall|x: int| 0 <= x < m ==> #[trigger] w[x] == nows[t - m + x]);
        assert(w[0] == nows[i]);
        let now = nows[t];
        assert(nows.take(t + 1).drop_last() =~= nows.take(t));
        assert(nows.take(t + 1).last() == nows[t]);
        let th = cutoff(now, cool_down);
        lemma_prune_count_bounds(w, th);
        let c = prune_count(w, th);
        let p = pruned(w, th);
        if c == 0 {
            assert(p =~= w);
            assert(trace_delay(cool_down, k, nows, t) == w[0] + cool_down - now);
        } else {
            assert(w[0] < th);
            assert(th > 0);
            assert(nows[i] + cool_down < now);
        }
    }
}

/// The service that implements the admission policy's bookkeeping: the
/// prune/measure/append step, done under exclusive access to the window.
pub struct Service {
    pub cool_down_time: u64,
    pub allowed_requests: usize,
}

impl Service {
    pub fn new(cool_down_time: u64, allowed_requests: usize) -> (r: Self)
        ensures
            r.cool_down_time == cool_down_time,
            r.allowed_requests == allowed_requests,
    {
        Self { cool_down_time, allowed_requests }
    }

    /// One admission with capture time `now`: transforms the window exactly
    /// as [`admit_window`] says and returns how long the caller must still
    /// be suspended (the time until the last popped entry would have aged
    /// out), if any.  The caller captures `now` before entering and sleeps
    /// after leaving; the returned delay never exceeds the window span.
    #[verifier::rlimit(50)]
    pub fn handle_request_rate(&self, data: &mut Data, now: u64) -> (delay: Option<u64>)
        requires
            self.allowed_requests >= 1,
            old(data).wf(),
            forall|i: int|
                0 <= i < old(data).last_requests_time@.len()
                    ==> old(data).last_requests_time@[i] <= now,
        ensures
            final(data).last_requests_time@ == admit_window(
                old(data).last_requests_time@,
                now,
                self.cool_down_time,
                self.allowed_requests as int,
            ),
            final(data).wf(),
            forall|i: int|
                0 <= i < final(data).last_requests_time@.len()
                    ==> final(data).last_requests_time@[i] <= now,
            match delay {
                Some(d) => d == admit_delay(
                    old(data).last_requests_time@,
                    now,
                    self.cool_down_time,
                    self.allowed_requests as int,
                ) && d <= self.cool_down_time && pruned(
                    old(data).last_requests_time@,
                    cutoff(now, self.cool_down_time),
                ).len() >= self.allowed_requests,
                None => pruned(
                    old(data).last_requests_time@,
                    cutoff(now, self.cool_down_time),
                ).len() < self.allowed_requests,
            },
    {
        let ghost w0 = old(data).last_requests_time@;
        let th: u64 = if now >= self.cool_down_time {
            now - self.cool_down_time
        } else {
            0
        };
        while data.last_requests_time.len() > 0 && data.last_requests_time[0] < th
            invariant
                sorted(w0),
                data.last_requests_time@.len() <= w0.len(),
                data.last_requests_time@ == w0.subrange(
                    w0.len() - data.last_requests_time@.len(),
                    w0.len() as int,
                ),
                forall|i: int|
                    0 <= i < w0.len() - data.last_requests_time@.len() ==> w0[i] < th,
            decreases data.last_requests_time@.len(),
        {
            data.last_requests_time.pop_front();
            proof {
                let m = data.last_requests_time@.len();
                assert(data.last_requests_time@ =~= w0.subrange(w0.len() - m, w0.len() as int));
            }
        }
        proof {
            lemma_prune_count_char(
                w0,
                th as int,
                w0.len() - data.last_requests_time@.len(),
            );
            assert(data.last_requests_time@ == pruned(w0, cutoff(now, self.cool_down_time)));
        }
        let ghost p = pruned(w0, cutoff(now, self.cool_down_time));
        let mut last_popped: u64 = 0;
        let mut popped_any: bool = false;
        while data.last_requests_time.len() >= self.allowed_requests
            invariant
                self.allowed_requests >= 1,
                p.len() >= data.last_requests_time@.len(),
                data.last_requests_time@.len() >= self.allowed_requests as int - 1
                    || data.last_requests_time@.len() == p.len(),
                data.last_requests_time@ == p.subrange(
                    p.len() - data.last_requests_time@.len(),
                    p.len() as int,
                ),
                data.last_requests_time@.len() < p.len() ==> popped_any,
                popped_any ==> p.len() > data.last_requests_time@.len() && last_popped == p[p.len()
                    - data.last_requests_time@.len() - 1],
            decreases data.last_requests_time@.len(),
        {
            match data.last_requests_time.pop_front() {
                Some(x) => {
                    last_popped = x;
                    popped_any = true;
                },
                None => {},
            }
            proof {
                let m = data.last_requests_time@.len();
                assert(data.last_requests_time@ =~= p.subrange(p.len() - m, p.len() as int));
            }
        }
        data.last_requests_time.push_back(now);
        proof {
            let k = self.allowed_requests as int;
            if p.len() >= k {
                assert(popped_any);
                assert(data.last_requests_time@.len() == k);
                assert(last_popped == p[p.len() - k]);
            } else {
                assert(!popped_any);
            }
            assert(data.last_requests_time@ == admit_window(
                w0,
                now,
                self.cool_down_time,
                k,
            ));
            lemma_prune_count_bounds(w0, th as int);
            assert(forall|i: int| 0 <= i < p.len() ==> #[trigger] p[i] >= th);
            assert(forall|i: int| 0 <= i < p.len() ==> #[trigger] p[i] <= now);
        }
        if popped_any {
            Some(self.cool_down_time - (now - last_popped))
        } else {
            None
        }
    }
}

} // verus!
