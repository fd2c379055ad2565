//! A sliding-window rate limiter.
use crate::utils::{monotonic_now, nanos_since};
use vstd::prelude::*;

verus! {

broadcast use vstd::std_specs::vecdeque::group_vec_dequeue_axioms;

/// Whether a request made at `t` lies outside the window ending at `now`
/// (a time after `now` never does).
pub open spec fn expired(t: u128, now: u128, window: u128) -> bool {
    now > t && now - t > window
}

/// The requests left once the expired ones at the front are dropped.
pub open spec fn pruned(q: Seq<u128>, now: u128, window: u128) -> Seq<u128>
    decreases q.len(),
{
    if q.len() > 0 && expired(q[0], now, window) {
        pruned(q.drop_first(), now, window)
    } else {
        q
    }
}

pub proof fn lemma_pruned_suffix(q: Seq<u128>, now: u128, window: u128)
    ensures
        pruned(q, now, window).len() <= q.len(),
        pruned(q, now, window) == q.subrange(
            q.len() - pruned(q, now, window).len(),
            q.len() as int,
        ),
    decreases q.len(),
{
    if q.len() > 0 && expired(q[0], now, window) {
        lemma_pruned_suffix(q.drop_first(), now, window);
    } else {
        assert(q.subrange(0, q.len() as int) =~= q);
    }
}

/// Admits at most `max_requests` requests within any `window` nanoseconds.
/// `allow` reads the time off the monotonic clock, in nanoseconds since
/// the limiter was made; `allow_at` takes it from its caller.
pub struct RateLimiter {
    max_requests: usize,
    window: u128,
    requests: std::collections::VecDeque<u128>,
    start: std::time::Instant,
}

impl RateLimiter {
    #[verifier::type_invariant]
    spec fn inv(&self) -> bool {
        self.requests@.len() <= self.max_requests
    }

    /// The most requests admitted within one window.
    pub closed spec fn max_requests(&self) -> nat {
        self.max_requests as nat
    }

    /// The window, in nanoseconds.
    pub closed spec fn window(&self) -> u128 {
        self.window
    }

    /// The times of the admitted requests still remembered, oldest first.
    pub closed spec fn requests(&self) -> Seq<u128> {
        self.requests@
    }

    /// Whether a request at `now` is admitted: fewer than `max_requests`
    /// requests remain once the expired ones are forgotten.
    pub open spec fn admits(&self, now: u128) -> bool {
        pruned(self.requests(), now, self.window()).len() < self.max_requests()
    }

    /// The limiter after a request at `now`, and whether it was admitted:
    /// the expired requests at the front are forgotten, and the request is
    /// admitted, and remembered, when fewer than `max_requests` remain.
    pub open spec fn spec_allow(&self, now: u128, next: &RateLimiter, allowed: bool) -> bool {
        let kept = pruned(self.requests(), now, self.window());
        &&& next.max_requests() == self.max_requests()
        &&& next.window() == self.window()
        &&& allowed == self.admits(now)
        &&& next.requests() == if allowed {
            kept.push(now)
        } else {
            kept
        }
    }

    /// A limiter that admits `max_requests` requests per `window` nanoseconds.
    pub fn new(max_requests: usize, window: u128) -> (r: RateLimiter)
        ensures
            r.max_requests() == max_requests,
            r.window() == window,
            r.requests() == Seq::<u128>::empty(),
    {
        RateLimiter {
            max_requests,
            window,
            requests: std::collections::VecDeque::new(),
            start: monotonic_now(),
        }
    }

    /// Whether a request made at `now` is admitted; an admitted request is
    /// remembered.
    pub fn allow_at(&mut self, now: u128) -> (allowed: bool)
        ensures
            old(self).spec_allow(now, &*final(self), allowed),
            final(self).requests().len() <= final(self).max_requests(),
    {
        proof {
            use_type_invariant(&*self);
            lemma_pruned_suffix(self.requests@, now, self.window);
        }
        let mut requests: std::collections::VecDeque<u128> = std::collections::VecDeque::new();
        std::mem::swap(&mut requests, &mut self.requests);
        let ghost start = requests@;
        while requests.len() > 0
            invariant_except_break
                pruned(requests@, now, self.window) == pruned(start, now, self.window),
            ensures
                requests@ == pruned(start, now, self.window),
            decreases requests@.len(),
        {
            let front = requests[0];
            if now > front && now - front > self.window {
                requests.pop_front();
            } else {
                break;
            }
        }
        let allowed = requests.len() < self.max_requests;
        if allowed {
            requests.push_back(now);
        }
        std::mem::swap(&mut requests, &mut self.requests);
        allowed
    }

    /// Whether a request made now, by the monotonic clock, is admitted; an
    /// admitted request is remembered.
    pub fn allow(&mut self) -> (allowed: bool)
        ensures
            exists|now: u128| old(self).spec_allow(now, &*final(self), allowed),
    {
        let now = nanos_since(&self.start);
        self.allow_at(now)
    }
}

} // verus!

verus! {

/// The times of the admitted requests among the first `k` calls (made at
/// `times`, admitted as `allowed` says) that lie within the window ending
/// at `now`, oldest first.
pub open spec fn admitted_before(
    times: Seq<u128>,
    allowed: Seq<bool>,
    k: int,
    now: u128,
    window: u128,
) -> Seq<u128>
    decreases k,
{
    if k <= 0 {
        Seq::empty()
    } else {
        let prev = admitted_before(times, allowed, k - 1, now, window);
        if allowed[k - 1] && !expired(times[k - 1], now, window) {
            prev.push(times[k - 1])
        } else {
            prev
        }
    }
}

/// Whether the times never go back.
pub open spec fn nondecreasing(times: Seq<u128>) -> bool {
    forall|i: int, j: int| 0 <= i <= j < times.len() ==> times[i] <= times[j]
}

/// Whether `limiters[k + 1]` is what a request at `times[k]` leaves of
/// `limiters[k]`, admitted as `allowed[k]` says, for every call `k`.
pub open spec fn is_run(limiters: Seq<RateLimiter>, times: Seq<u128>, allowed: Seq<bool>) -> bool {
    &&& limiters.len() == times.len() + 1
    &&& allowed.len() == times.len()
    &&& forall|k: int|
        0 <= k < times.len() ==> #[trigger] limiters[k].spec_allow(
            times[k],
            &limiters[k + 1],
            allowed[k],
        )
}

proof fn lemma_admitted_bounded(
    times: Seq<u128>,
    allowed: Seq<bool>,
    k: int,
    now: u128,
    window: u128,
    bound: u128,
)
    requires
        0 <= k <= times.len(),
        allowed.len() == times.len(),
        forall|j: int| 0 <= j < k ==> #[trigger] times[j] <= bound,
    ensures
        admitted_before(times, allowed, k, now, window).len() <= k,
        forall|x: int|
            0 <= x < admitted_before(times, allowed, k, now, window).len()
                ==> #[trigger] admitted_before(times, allowed, k, now, window)[x] <= bound,
    decreases k,
{
    if k > 0 {
        lemma_admitted_bounded(times, allowed, k - 1, now, window, bound);
        assert(times[k - 1] <= bound);
    }
}

/// The requests remembered within the window of a later time are the
/// earlier ones that are still within it: dropping the expired ones from
/// the front of the older list gives the newer one.
proof fn lemma_prune_later(
    times: Seq<u128>,
    allowed: Seq<bool>,
    k: int,
    before: u128,
    now: u128,
    window: u128,
)
    requires
        0 <= k <= times.len(),
        allowed.len() == times.len(),
        nondecreasing(times),
        before <= now,
        forall|j: int| 0 <= j < k ==> #[trigger] times[j] <= before,
    ensures
        pruned(admitted_before(times, allowed, k, before, window), now, window)
            == admitted_before(times, allowed, k, now, window),
    decreases k,
{
    let old_w = admitted_before(times, allowed, k, before, window);
    let new_w = admitted_before(times, allowed, k, now, window);
    if k == 0 {
        assert(old_w =~= Seq::<u128>::empty());
    } else {
        lemma_prune_later(times, allowed, k - 1, before, now, window);
        let old_p = admitted_before(times, allowed, k - 1, before, window);
        let new_p = admitted_before(times, allowed, k - 1, now, window);
        let t = times[k - 1];
        assert(t <= before);
        if allowed[k - 1] && !expired(t, before, window) {
            // the newest request stays unless all before it went too
            lemma_pruned_push(old_p, t, now, window, times, allowed, k - 1, before);
        } else {
            assert(old_w == old_p);
            assert(!(allowed[k - 1] && !expired(t, now, window)));
        }
    }
}

/// Pruning a list with one more request at its end: the new request is
/// kept when it is within the window; when it is not, nothing before it is.
proof fn lemma_pruned_push(
    q: Seq<u128>,
    t: u128,
    now: u128,
    window: u128,
    times: Seq<u128>,
    allowed: Seq<bool>,
    k: int,
    before: u128,
)
    requires
        0 <= k < times.len(),
        allowed.len() == times.len(),
        nondecreasing(times),
        t == times[k],
        q == admitted_before(times, allowed, k, before, window),
        pruned(q, now, window) == admitted_before(times, allowed, k, now, window),
    ensures
        pruned(q.push(t), now, window) == if !expired(t, now, window) {
            admitted_before(times, allowed, k, now, window).push(t)
        } else {
            Seq::<u128>::empty()
        },
        expired(t, now, window) ==> admitted_before(times, allowed, k, now, window)
            == Seq::<u128>::empty(),
    decreases q.len(),
{
    assert forall|j: int| 0 <= j < k implies #[trigger] times[j] <= t by {
        assert(times[j] <= times[k]);
    }
    lemma_admitted_bounded(times, allowed, k, before, window, t);
    lemma_pruned_push_sorted(q, t, now, window);
}

/// Pruning a list whose entries are all at most `t`, with `t` pushed.
proof fn lemma_pruned_push_sorted(q: Seq<u128>, t: u128, now: u128, window: u128)
    requires
        forall|x: int| 0 <= x < q.len() ==> #[trigger] q[x] <= t,
    ensures
        pruned(q.push(t), now, window) == if !expired(t, now, window) {
            pruned(q, now, window).push(t)
        } else {
            Seq::<u128>::empty()
        },
        expired(t, now, window) ==> pruned(q, now, window) == Seq::<u128>::empty(),
    decreases q.len(),
{
    let qp = q.push(t);
    if q.len() == 0 {
        assert(qp.drop_first() =~= Seq::<u128>::empty());
        assert(pruned(Seq::<u128>::empty(), now, window) == Seq::<u128>::empty());
    } else {
        assert(qp[0] == q[0]);
        assert(qp.drop_first() =~= q.drop_first().push(t));
        if expired(q[0], now, window) {
            lemma_pruned_push_sorted(q.drop_first(), t, now, window);
        } else {
            assert(q[0] <= t);
            assert(!expired(t, now, window));
        }
    }
}

/// The time of the last of the first `k` calls (0 before any).
pub open spec fn last_time(times: Seq<u128>, k: int) -> u128 {
    if k <= 0 {
        0
    } else {
        times[k - 1]
    }
}

/// Along a run from a limiter that remembers nothing, the limiter after
/// `k` calls remembers exactly the admitted requests within the window
/// that ends at the last call.
proof fn lemma_run_remembers(
    limiters: Seq<RateLimiter>,
    times: Seq<u128>,
    allowed: Seq<bool>,
    k: int,
)
    requires
        is_run(limiters, times, allowed),
        nondecreasing(times),
        limiters[0].requests() == Seq::<u128>::empty(),
        0 <= k <= times.len(),
    ensures
        limiters[k].window() == limiters[0].window(),
        limiters[k].max_requests() == limiters[0].max_requests(),
        limiters[k].requests() == admitted_before(
            times,
            allowed,
            k,
            last_time(times, k),
            limiters[0].window(),
        ),
    decreases k,
{
    if k > 0 {
        let w = limiters[0].window();
        lemma_run_remembers(limiters, times, allowed, k - 1);
        let j = k - 1;
        assert(limiters[j].spec_allow(times[j], &limiters[j + 1], allowed[j]));
        assert forall|j: int| 0 <= j < k - 1 implies #[trigger] times[j] <= last_time(
            times,
            k - 1,
        ) by {
            assert(times[j] <= times[k - 2]);
        }
        if k > 1 {
            assert(times[k - 2] <= times[k - 1]);
        }
        lemma_prune_later(times, allowed, k - 1, last_time(times, k - 1), times[k - 1], w);
    }
}

/// The rate limiter's promise: over calls at times that never go back,
/// starting from a limiter that remembers nothing, a request is admitted
/// exactly when fewer than `max_requests` admitted requests lie within the
/// window that ends at it, so that no window ever holds more than
/// `max_requests` admitted requests.
pub proof fn lemma_window_bound(limiters: Seq<RateLimiter>, times: Seq<u128>, allowed: Seq<bool>)
    requires
        is_run(limiters, times, allowed),
        nondecreasing(times),
        limiters[0].requests() == Seq::<u128>::empty(),
    ensures
        forall|i: int|
            0 <= i < times.len() ==> (#[trigger] allowed[i] <==> admitted_before(
                times,
                allowed,
                i,
                times[i],
                limiters[0].window(),
            ).len() < limiters[0].max_requests()),
        forall|i: int|
            0 <= i < times.len() && #[trigger] allowed[i] ==> admitted_before(
                times,
                allowed,
                i + 1,
                times[i],
                limiters[0].window(),
            ).len() <= limiters[0].max_requests(),
{
    let w = limiters[0].window();
    assert forall|i: int| 0 <= i < times.len() implies (#[trigger] allowed[i] <==> admitted_before(
        times,
        allowed,
        i,
        times[i],
        w,
    ).len() < limiters[0].max_requests()) && (allowed[i] ==> admitted_before(
        times,
        allowed,
        i + 1,
        times[i],
        w,
    ).len() <= limiters[0].max_requests()) by {
        lemma_run_remembers(limiters, times, allowed, i);
        assert(limiters[i].spec_allow(times[i], &limiters[i + 1], allowed[i]));
        assert forall|j: int| 0 <= j < i implies #[trigger] times[j] <= last_time(times, i) by {
            assert(times[j] <= times[i - 1]);
        }
        if i > 0 {
            assert(times[i - 1] <= times[i]);
        }
        lemma_prune_later(times, allowed, i, last_time(times, i), times[i], w);
    }
}

/// Whether `v` is the time of an admitted request among the first `k`
/// calls.
pub open spec fn admitted_time(times: Seq<u128>, allowed: Seq<bool>, k: int, v: u128) -> bool {
    exists|j: int| 0 <= j < k && #[trigger] allowed[j] && times[j] == v
}

/// The number of admitted requests among the first `k` calls made at a
/// time between `lo` and `hi`, both included.
pub open spec fn admitted_within(
    times: Seq<u128>,
    allowed: Seq<bool>,
    k: int,
    lo: int,
    hi: int,
) -> nat
    decreases k,
{
    if k <= 0 {
        0
    } else {
        admitted_within(times, allowed, k - 1, lo, hi) + if allowed[k - 1] && lo <= times[k - 1]
            <= hi {
            1nat
        } else {
            0nat
        }
    }
}

proof fn lemma_within_le_before(
    times: Seq<u128>,
    allowed: Seq<bool>,
    k: int,
    lo: int,
    hi: int,
    now: u128,
    window: u128,
)
    requires
        0 <= k <= times.len(),
        allowed.len() == times.len(),
        forall|j: int|
            0 <= j < k && #[trigger] allowed[j] && lo <= times[j] <= hi ==> !expired(
                times[j],
                now,
                window,
            ),
    ensures
        admitted_within(times, allowed, k, lo, hi) <= admitted_before(
            times,
            allowed,
            k,
            now,
            window,
        ).len(),
    decreases k,
{
    if k > 0 {
        lemma_within_le_before(times, allowed, k - 1, lo, hi, now, window);
    }
}

/// The rate limiter's promise at every time: over calls at times that never
/// go back, starting from a limiter that remembers nothing, no window of
/// `window` nanoseconds, ending at any time `t`, holds more than
/// `max_requests` admitted requests.
pub proof fn lemma_bound_at_every_time(
    limiters: Seq<RateLimiter>,
    times: Seq<u128>,
    allowed: Seq<bool>,
    t: int,
)
    requires
        is_run(limiters, times, allowed),
        nondecreasing(times),
        limiters[0].requests() == Seq::<u128>::empty(),
    ensures
        admitted_within(
            times,
            allowed,
            times.len() as int,
            t - limiters[0].window(),
            t,
        ) <= limiters[0].max_requests(),
{
    lemma_window_bound(limiters, times, allowed);
    lemma_bound_prefix(limiters, times, allowed, t, times.len() as int);
}

proof fn lemma_bound_prefix(
    limiters: Seq<RateLimiter>,
    times: Seq<u128>,
    allowed: Seq<bool>,
    t: int,
    n: int,
)
    requires
        is_run(limiters, times, allowed),
        0 <= n <= times.len(),
        forall|i: int|
            0 <= i < times.len() && #[trigger] allowed[i] ==> admitted_before(
                times,
                allowed,
                i + 1,
                times[i],
                limiters[0].window(),
            ).len() <= limiters[0].max_requests(),
    ensures
        admitted_within(times, allowed, n, t - limiters[0].window(), t)
            <= limiters[0].max_requests(),
    decreases n,
{
    let w = limiters[0].window();
    if n > 0 {
        let i = n - 1;
        if allowed[i] && t - w <= times[i] <= t {
            assert forall|j: int|
                0 <= j < n && #[trigger] allowed[j] && t - w <= times[j] <= t implies !expired(
                times[j],
                times[i],
                w,
            ) by {}
            lemma_within_le_before(times, allowed, n, t - w, t, times[i], w);
        } else {
            lemma_bound_prefix(limiters, times, allowed, t, n - 1);
        }
    }
}

/// What a limiter remembers along a run, after every call: the times of
/// earlier admitted requests, oldest first, never more than `max_requests`
/// of them, with the limit and the window it was made with.
pub proof fn lemma_run_keeps(limiters: Seq<RateLimiter>, times: Seq<u128>, allowed: Seq<bool>, k: int)
    requires
        is_run(limiters, times, allowed),
        nondecreasing(times),
        limiters[0].requests() == Seq::<u128>::empty(),
        0 <= k <= times.len(),
    ensures
        limiters[k].max_requests() == limiters[0].max_requests(),
        limiters[k].window() == limiters[0].window(),
        limiters[k].requests().len() <= limiters[k].max_requests(),
        forall|a: int, b: int|
            0 <= a <= b < limiters[k].requests().len() ==> limiters[k].requests()[a]
                <= limiters[k].requests()[b],
        forall|x: int|
            0 <= x < limiters[k].requests().len() ==> admitted_time(
                times,
                allowed,
                k,
                #[trigger] limiters[k].requests()[x],
            ),
    decreases k,
{
    lemma_run_remembers(limiters, times, allowed, k);
    lemma_admitted_sorted(times, allowed, k, last_time(times, k), limiters[0].window());
    if k > 0 {
        lemma_run_keeps(limiters, times, allowed, k - 1);
        let j = k - 1;
        assert(limiters[j].spec_allow(times[j], &limiters[j + 1], allowed[j]));
        lemma_pruned_suffix(limiters[j].requests(), times[j], limiters[0].window());
    }
}

proof fn lemma_admitted_sorted(times: Seq<u128>, allowed: Seq<bool>, k: int, now: u128, window: u128)
    requires
        0 <= k <= times.len(),
        allowed.len() == times.len(),
        nondecreasing(times),
    ensures
        forall|a: int, b: int|
            0 <= a <= b < admitted_before(times, allowed, k, now, window).len() ==> admitted_before(
                times,
                allowed,
                k,
                now,
                window,
            )[a] <= admitted_before(times, allowed, k, now, window)[b],
        forall|x: int|
            0 <= x < admitted_before(times, allowed, k, now, window).len() ==> admitted_time(
                times,
                allowed,
                k,
                #[trigger] admitted_before(times, allowed, k, now, window)[x],
            ),
    decreases k,
{
    if k > 0 {
        lemma_admitted_sorted(times, allowed, k - 1, now, window);
        let prev = admitted_before(times, allowed, k - 1, now, window);
        let cur = admitted_before(times, allowed, k, now, window);
        assert forall|j: int| 0 <= j < k - 1 implies #[trigger] times[j] <= times[k - 1] by {}
        lemma_admitted_bounded(times, allowed, k - 1, now, window, times[k - 1]);
        assert forall|x: int| 0 <= x < cur.len() implies admitted_time(times, allowed, k, #[trigger] cur[x]) by {
            if x < prev.len() {
                assert(admitted_time(times, allowed, k - 1, prev[x]));
                let j = choose|j: int| 0 <= j < k - 1 && #[trigger] allowed[j] && times[j] == prev[x];
                assert(allowed[j] && times[j] == cur[x]);
            } else {
                assert(allowed[k - 1] && times[k - 1] == cur[x]);
            }
        }
    }
}

} // verus!
