//! The throttle: what a run as a whole does about rate limits. It cools down, it
//! halves the workers, and in the end it gives up.
//!
//! Time is a number of nanoseconds since some fixed moment.

use crate::errors::{Error, ErrorView, FailureKind};
use crate::scheduler::SchedulerConfig;
use vstd::prelude::*;

verus! {

/// How long a run cools down after a rate limit or a congestion.
pub const COOLDOWN_SECS: u64 = 60;

/// The largest addition to a worker's share of the cooldown.
pub const COOLDOWN_JITTER_MS_MAX: u64 = 500;

pub const NANOS_PER_SEC: u128 = 1_000_000_000;

pub const NANOS_PER_MS: u128 = 1_000_000;

/// The longest cooldown: the longest span of time that has whole seconds in 64 bits.
pub const MAX_COOLDOWN_NANOS: u128 = 18_446_744_073_709_551_615_999_999_999;

pub struct Throttle {
    cooldown_until: u128,
    total_rate_limits: u32,
    breaker: bool,
    effective_jobs: usize,
    configured_jobs: usize,
    soft_cap: u32,
    breaker_threshold: u32,
    cooldown_secs: u64,
}

pub struct ThrottleView {
    pub cooldown_until: nat,
    pub total_rate_limits: nat,
    pub configured_jobs: nat,
    pub soft_cap: nat,
    pub breaker_threshold: nat,
    pub cooldown_secs: nat,
}

impl View for Throttle {
    type V = ThrottleView;

    closed spec fn view(&self) -> ThrottleView {
        ThrottleView {
            cooldown_until: self.cooldown_until as nat,
            total_rate_limits: self.total_rate_limits as nat,
            configured_jobs: self.configured_jobs as nat,
            soft_cap: self.soft_cap as nat,
            breaker_threshold: self.breaker_threshold as nat,
            cooldown_secs: self.cooldown_secs as nat,
        }
    }
}

/// Does the kind of failure slow the whole run down?
pub open spec fn throttled(kind: FailureKind) -> bool {
    kind == FailureKind::RateLimited || kind == FailureKind::Congestion
}

impl ThrottleView {
    /// Has the run had more rate limits than it bears?
    pub open spec fn tripped(self) -> bool {
        self.total_rate_limits > self.breaker_threshold
    }

    /// The number of workers that may take pieces: all, or half of them once
    /// there were more rate limits than the soft cap.
    pub open spec fn effective_jobs(self) -> nat {
        if self.total_rate_limits <= self.soft_cap {
            self.configured_jobs
        } else if self.configured_jobs / 2 > 1 {
            self.configured_jobs / 2
        } else {
            1
        }
    }

    /// What is left of the cooldown.
    pub open spec fn cooldown_left(self, now: u64) -> nat {
        if self.cooldown_until > now {
            (self.cooldown_until - now) as nat
        } else {
            0
        }
    }

    /// The throttle after a failure.
    pub open spec fn after_failure(self, kind: FailureKind, now: u64) -> ThrottleView {
        ThrottleView {
            cooldown_until: if throttled(kind) {
                now as nat + self.cooldown_secs * NANOS_PER_SEC as nat
            } else {
                self.cooldown_until
            },
            total_rate_limits: if kind == FailureKind::RateLimited {
                self.total_rate_limits + 1
            } else {
                self.total_rate_limits
            },
            ..self
        }
    }

    /// May the worker take a piece, as far as the halving goes?
    pub open spec fn past_gate(self, worker_idx: usize, has_pending: bool) -> bool {
        worker_idx < self.effective_jobs() || self.tripped() || !has_pending
    }
}

/// What a rate limit in a row costs: one, two and then four times the cooldown.
pub open spec fn storm_secs(consecutive_rate_limits: u32) -> u64 {
    if consecutive_rate_limits <= 1 {
        COOLDOWN_SECS
    } else if consecutive_rate_limits == 2 {
        (2 * COOLDOWN_SECS) as u64
    } else {
        (4 * COOLDOWN_SECS) as u64
    }
}

/// What a worker adds to its wait, so that not all wake up at once.
pub open spec fn jitter_ms(worker_idx: usize) -> u64 {
    ((worker_idx as u64).wrapping_mul(137).wrapping_add(61) % (COOLDOWN_JITTER_MS_MAX + 1) as u64)
}

fn cooldown_jitter(worker_idx: usize) -> (r: u64)
    ensures
        r == jitter_ms(worker_idx),
        r <= COOLDOWN_JITTER_MS_MAX,
{
    (worker_idx as u64).wrapping_mul(137).wrapping_add(61) % (COOLDOWN_JITTER_MS_MAX + 1)
}

/// Where a worker stands that waits for its turn: first it sits out the
/// cooldown, then it comes to where half of the workers may be held back.
#[derive(Debug, Clone, Copy, PartialEq, Eq, Structural)]
pub enum Turn {
    Cooling,
    Gate,
}

/// What a waiting worker does next.
#[derive(Debug, Clone, Copy, PartialEq, Eq, Structural)]
pub enum Wait {
    /// Sleep that many nanoseconds, and then ask again, still cooling.
    Cool(u128),
    /// Stand aside for a moment, and then ask again, past the cooldown.
    Park,
    Go,
}

/// The answer to a waiting worker. The cooldown is read anew at every question:
/// it may have been put off meanwhile.
pub open spec fn turn(
    t: ThrottleView,
    worker_idx: usize,
    at: Turn,
    now: u64,
    has_pending: bool,
) -> Wait {
    if at == Turn::Cooling && !t.tripped() && t.cooldown_left(now) > 0 {
        Wait::Cool((t.cooldown_left(now) + jitter_ms(worker_idx) * NANOS_PER_MS) as u128)
    } else if t.past_gate(worker_idx, has_pending) {
        Wait::Go
    } else {
        Wait::Park
    }
}

impl Throttle {
    #[verifier::type_invariant]
    spec fn holds_together(self) -> bool {
        &&& self.breaker == self@.tripped()
        &&& self.effective_jobs == self@.effective_jobs()
        &&& 1 <= self.configured_jobs
        &&& self.cooldown_until <= u64::MAX + MAX_COOLDOWN_NANOS
    }

    pub fn new(cfg: &SchedulerConfig, now: u64) -> (r: Throttle)
        ensures
            r@ == (ThrottleView {
                cooldown_until: now as nat,
                total_rate_limits: 0,
                configured_jobs: cfg.workers() as nat,
                soft_cap: cfg.rate_limit_soft_cap as nat,
                breaker_threshold: cfg.rate_limit_breaker as nat,
                cooldown_secs: cfg.cooldown_secs as nat,
            }),
    {
        Throttle {
            cooldown_until: now as u128,
            total_rate_limits: 0,
            breaker: false,
            effective_jobs: cfg.clamped_jobs(),
            configured_jobs: cfg.clamped_jobs(),
            soft_cap: cfg.rate_limit_soft_cap,
            breaker_threshold: cfg.rate_limit_breaker,
            cooldown_secs: cfg.cooldown_secs,
        }
    }

    /// Takes note of a failure: a rate limit or a congestion starts the cooldown
    /// anew, and a rate limit is counted.
    pub fn on_failure(&mut self, kind: FailureKind, now: u64)
        requires
            kind == FailureKind::RateLimited ==> old(self)@.total_rate_limits < u32::MAX,
        ensures
            final(self)@ == old(self)@.after_failure(kind, now),
    {
        proof {
            use_type_invariant(&*self);
        }
        if kind == FailureKind::RateLimited || kind == FailureKind::Congestion {
            self.arm_cooldown(now, self.cooldown_secs as u128 * NANOS_PER_SEC);
        }
        proof {
            use_type_invariant(&*self);
        }
        if kind == FailureKind::RateLimited {
            let total: u32 = self.total_rate_limits + 1;
            let halved: usize = if self.configured_jobs / 2 > 1 {
                self.configured_jobs / 2
            } else {
                1
            };
            *self = Throttle {
                cooldown_until: self.cooldown_until,
                total_rate_limits: total,
                breaker: self.breaker || total > self.breaker_threshold,
                effective_jobs: if total > self.soft_cap {
                    halved
                } else {
                    self.effective_jobs
                },
                configured_jobs: self.configured_jobs,
                soft_cap: self.soft_cap,
                breaker_threshold: self.breaker_threshold,
                cooldown_secs: self.cooldown_secs,
            };
        }
    }

    /// Puts off every further piece until `nanos` from now.
    pub fn arm_cooldown(&mut self, now: u64, nanos: u128)
        requires
            nanos <= MAX_COOLDOWN_NANOS,
        ensures
            final(self)@ == (ThrottleView {
                cooldown_until: now as nat + nanos as nat,
                ..old(self)@
            }),
    {
        proof {
            use_type_invariant(&*self);
        }
        *self = Throttle {
            cooldown_until: now as u128 + nanos,
            total_rate_limits: self.total_rate_limits,
            breaker: self.breaker,
            effective_jobs: self.effective_jobs,
            configured_jobs: self.configured_jobs,
            soft_cap: self.soft_cap,
            breaker_threshold: self.breaker_threshold,
            cooldown_secs: self.cooldown_secs,
        };
    }

    pub fn is_cooling(&self, now: u64) -> (r: bool)
        ensures
            r == (self@.cooldown_left(now) > 0),
    {
        self.cooldown_until > now as u128
    }

    pub fn tripped(&self) -> (r: bool)
        ensures
            r == self@.tripped(),
    {
        proof {
            use_type_invariant(self);
        }
        self.breaker
    }

    pub fn effective_jobs(&self) -> (r: usize)
        ensures
            r == self@.effective_jobs(),
    {
        proof {
            use_type_invariant(self);
        }
        self.effective_jobs
    }

    /// The rate limits of the run so far.
    pub fn total_rate_limits(&self) -> (r: u32)
        ensures
            r == self@.total_rate_limits,
    {
        self.total_rate_limits
    }

    /// What a run ends with that had more rate limits than it bears.
    pub fn abort_error(&self) -> (r: Error)
        ensures
            r@ == ErrorView::plain("upstream rate-limited — rerun later"@),
    {
        Error::Other(String::from_str("upstream rate-limited — rerun later"))
    }

    /// The pause after the n-th rate limit in a row, in seconds.
    pub fn storm_backoff(consecutive_rate_limits: u32) -> (r: u64)
        ensures
            r == storm_secs(consecutive_rate_limits),
    {
        if consecutive_rate_limits <= 1 {
            COOLDOWN_SECS
        } else if consecutive_rate_limits == 2 {
            2 * COOLDOWN_SECS
        } else {
            4 * COOLDOWN_SECS
        }
    }

    /// How long a worker has to sleep for the cooldown, its jitter included.
    /// Nothing once the cooldown is over or the run is given up.
    fn wait_out_cooldown(&self, worker_idx: usize, now: u64) -> (r: Option<u128>)
        ensures
            r is None <==> self@.tripped() || self@.cooldown_left(now) == 0,
            r matches Some(nanos) ==> nanos == self@.cooldown_left(now) + jitter_ms(worker_idx)
                * NANOS_PER_MS,
    {
        proof {
            use_type_invariant(self);
        }
        if self.breaker || self.cooldown_until <= now as u128 {
            None
        } else {
            let jitter: u64 = cooldown_jitter(worker_idx);
            Some((self.cooldown_until - now as u128) + jitter as u128 * NANOS_PER_MS)
        }
    }

    /// May the worker pass? One that is not among the effective workers stands
    /// aside, but not when nothing is left to take.
    fn wait_for_gate(&self, worker_idx: usize, has_pending: bool) -> (r: bool)
        ensures
            r == self@.past_gate(worker_idx, has_pending),
    {
        worker_idx < self.effective_jobs() || self.tripped() || !has_pending
    }

    /// Answers a worker that waits for its turn.
    pub fn wait_turn(&self, worker_idx: usize, at: Turn, now: u64, has_pending: bool) -> (r: Wait)
        ensures
            r == turn(self@, worker_idx, at, now, has_pending),
            r matches Wait::Cool(nanos) ==> nanos == self@.cooldown_left(now) + jitter_ms(
                worker_idx,
            ) * NANOS_PER_MS,
    {
        if at == Turn::Cooling {
            if let Some(nanos) = self.wait_out_cooldown(worker_idx, now) {
                return Wait::Cool(nanos);
            }
        }
        if self.wait_for_gate(worker_idx, has_pending) {
            Wait::Go
        } else {
            Wait::Park
        }
    }
}

// ----------------------------------------------------------------------- laws

/// The count of rate limits never goes down, so a run that is given up stays
/// given up and halved workers stay halved.
pub proof fn law_throttle_is_monotone(t: ThrottleView, kind: FailureKind, now: u64)
    requires
        t.configured_jobs >= 1,
    ensures
        t.after_failure(kind, now).total_rate_limits >= t.total_rate_limits,
        t.tripped() ==> t.after_failure(kind, now).tripped(),
        t.after_failure(kind, now).effective_jobs() <= t.effective_jobs(),
        t.after_failure(kind, now).effective_jobs() >= 1,
{
}

/// Only a rate limit or a congestion starts a cooldown, and only a rate limit
/// counts towards giving up.
pub proof fn law_only_throttled_failures_cool(t: ThrottleView, kind: FailureKind, now: u64)
    ensures
        !throttled(kind) ==> t.after_failure(kind, now) == t,
        throttled(kind) ==> t.after_failure(kind, now).cooldown_left(now) == t.cooldown_secs
            * NANOS_PER_SEC,
        kind != FailureKind::RateLimited ==> t.after_failure(kind, now).total_rate_limits
            == t.total_rate_limits,
{
}

/// The throttle after failures, each with its time.
pub open spec fn after_failures(t: ThrottleView, failures: Seq<(FailureKind, u64)>) -> ThrottleView
    decreases failures.len(),
{
    if failures.len() == 0 {
        t
    } else {
        after_failures(t, failures.drop_last()).after_failure(
            failures.last().0,
            failures.last().1,
        )
    }
}

/// How many of the failures are rate limits.
pub open spec fn rate_limits_in(failures: Seq<(FailureKind, u64)>) -> nat
    decreases failures.len(),
{
    if failures.len() == 0 {
        0
    } else if failures.last().0 == FailureKind::RateLimited {
        rate_limits_in(failures.drop_last()) + 1
    } else {
        rate_limits_in(failures.drop_last())
    }
}

/// Whatever else fails meanwhile, a run is given up with the rate limit that exceeds
/// the threshold, and not before; and its workers are halved with the one that
/// exceeds the soft cap, and not before.
pub proof fn law_rate_limits_alone_decide(t: ThrottleView, failures: Seq<(FailureKind, u64)>)
    requires
        t.total_rate_limits == 0,
    ensures
        ({
            let after = after_failures(t, failures);
            let n = rate_limits_in(failures);
            &&& after.total_rate_limits == n
            &&& after.breaker_threshold == t.breaker_threshold
            &&& after.soft_cap == t.soft_cap
            &&& after.configured_jobs == t.configured_jobs
            &&& after.tripped() <==> n > t.breaker_threshold
            &&& n <= t.soft_cap ==> after.effective_jobs() == t.configured_jobs
            &&& n > t.soft_cap ==> after.effective_jobs() == (if t.configured_jobs / 2 > 1 {
                t.configured_jobs / 2
            } else {
                1
            })
        }),
    decreases failures.len(),
{
    if failures.len() > 0 {
        law_rate_limits_alone_decide(t, failures.drop_last());
    }
}

/// No worker takes a piece while the run cools down: it goes on only when the
/// cooldown has ended or the run is given up.
pub proof fn law_no_turn_while_cooling(
    t: ThrottleView,
    worker_idx: usize,
    now: u64,
    has_pending: bool,
)
    ensures
        turn(t, worker_idx, Turn::Cooling, now, has_pending) == Wait::Go ==> t.tripped()
            || t.cooldown_left(now) == 0,
{
}

/// A worker that stands aside is let go once nothing is pending, and the first
/// worker never stands aside.
pub proof fn law_gate_never_starves(
    t: ThrottleView,
    worker_idx: usize,
    now: u64,
    has_pending: bool,
)
    requires
        t.configured_jobs >= 1,
    ensures
        turn(t, worker_idx, Turn::Gate, now, false) == Wait::Go,
        turn(t, 0, Turn::Gate, now, has_pending) == Wait::Go,
        t.tripped() ==> turn(t, worker_idx, Turn::Cooling, now, has_pending) == Wait::Go,
{
}

/// The jitter is the worker's own and never exceeds its bound; among the workers
/// of a run no two have the same.
pub proof fn law_jitter_sets_workers_apart(a: usize, b: usize)
    requires
        a < b < 8,
    ensures
        jitter_ms(a) <= COOLDOWN_JITTER_MS_MAX,
        jitter_ms(a) != jitter_ms(b),
{
    assert(jitter_ms(a) == (a * 137 + 61) % 501);
    assert(jitter_ms(b) == (b * 137 + 61) % 501);
}

/// The pauses grow with the rate limits in a row and stop growing at four minutes.
pub proof fn law_storm_pauses_grow(a: u32, b: u32)
    requires
        a <= b,
    ensures
        COOLDOWN_SECS <= storm_secs(a) <= storm_secs(b) <= 240,
{
}

/// What a failure does to the throttle, field by field. A rate limit and a congestion
/// start the cooldown anew, from now on and for as long as configured; a rate limit is
/// counted; nothing else changes, and no other failure changes anything.
pub proof fn law_after_a_failure(t: ThrottleView, now: u64)
    ensures
        t.after_failure(FailureKind::RateLimited, now) == (ThrottleView {
            cooldown_until: now as nat + t.cooldown_secs * 1_000_000_000,
            total_rate_limits: t.total_rate_limits + 1,
            ..t
        }),
        t.after_failure(FailureKind::Congestion, now) == (ThrottleView {
            cooldown_until: now as nat + t.cooldown_secs * 1_000_000_000,
            ..t
        }),
        t.after_failure(FailureKind::Network, now) == t,
        t.after_failure(FailureKind::ShallowUnsupported, now) == t,
        t.after_failure(FailureKind::Fatal, now) == t,
{
}

/// When a run is given up, how many workers take pieces, and how long it still cools
/// down.
pub proof fn law_limits_of_the_throttle(t: ThrottleView, now: u64)
    ensures
        t.tripped() <==> t.total_rate_limits > t.breaker_threshold,
        t.total_rate_limits <= t.soft_cap ==> t.effective_jobs() == t.configured_jobs,
        t.total_rate_limits > t.soft_cap && t.configured_jobs >= 2 ==> t.effective_jobs()
            == t.configured_jobs / 2,
        t.total_rate_limits > t.soft_cap && t.configured_jobs < 2 ==> t.effective_jobs() == 1,
        now <= t.cooldown_until ==> now + t.cooldown_left(now) == t.cooldown_until,
        now > t.cooldown_until ==> t.cooldown_left(now) == 0,
{
}

/// What a waiting worker is told, in every case. While the run cools down it sleeps for
/// what is left of the cooldown and its own jitter; past that it goes if it is among the
/// effective workers or nothing is pending, and else stands aside. In a run that is
/// given up everyone goes. One that stood aside does not look at the cooldown again.
pub proof fn law_what_a_waiting_worker_is_told(
    t: ThrottleView,
    worker_idx: usize,
    now: u64,
    has_pending: bool,
)
    ensures
        ({
            let go = worker_idx < t.effective_jobs() || t.total_rate_limits
                > t.breaker_threshold || !has_pending;
            let past = if go {
                Wait::Go
            } else {
                Wait::Park
            };
            let cooling = t.total_rate_limits <= t.breaker_threshold && now < t.cooldown_until;
            &&& turn(t, worker_idx, Turn::Gate, now, has_pending) == past
            &&& !cooling ==> turn(t, worker_idx, Turn::Cooling, now, has_pending) == past
            &&& cooling ==> turn(t, worker_idx, Turn::Cooling, now, has_pending) is Cool
            &&& cooling && t.cooldown_until <= u64::MAX + MAX_COOLDOWN_NANOS ==> turn(
                t,
                worker_idx,
                Turn::Cooling,
                now,
                has_pending,
            ) == Wait::Cool(
                (t.cooldown_until - now + jitter_ms(worker_idx) * 1_000_000) as u128,
            )
        }),
{
}

/// The jitter of a worker, in milliseconds: a hundred and thirty-seven for each number,
/// from sixty-one on, and never more than five hundred.
pub proof fn law_jitter_of_a_worker(worker_idx: usize)
    ensures
        worker_idx <= 0x1_0000_0000_0000 ==> jitter_ms(worker_idx) == (worker_idx * 137 + 61) % 501,
        jitter_ms(worker_idx) <= 500,
{
}

/// The longest cooldown that can be asked for: all the whole seconds of 64 bits, and
/// one nanosecond less than another.
pub proof fn law_longest_cooldown()
    ensures
        MAX_COOLDOWN_NANOS == (u64::MAX + 1) * 1_000_000_000 - 1,
{
}

/// The pauses after rate limits in a row: one minute, two, and four from the third on.
pub proof fn law_storm_pauses(n: u32)
    ensures
        n <= 1 ==> storm_secs(n) == 60,
        n == 2 ==> storm_secs(n) == 120,
        n >= 3 ==> storm_secs(n) == 240,
        throttled(FailureKind::RateLimited),
        throttled(FailureKind::Congestion),
        !throttled(FailureKind::Network),
        !throttled(FailureKind::ShallowUnsupported),
        !throttled(FailureKind::Fatal),
{
}

} // verus!
