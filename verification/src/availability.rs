//! Availability of a substituter, with exponential backoff before it is
//! tried again.
//!
//! Instants are milliseconds on a monotonic clock and durations are
//! milliseconds.
use vstd::prelude::*;

verus! {

/// Base delay before an unavailable substituter is tried again.
pub const BASE_RETRY_MILLIS: u64 = 500;

/// Failures beyond this many do not lengthen the delay any more.
pub const MAX_BACKOFF_EXPONENT: usize = 10;

/// `2` raised to `n`.
pub open spec fn two_pow(n: nat) -> nat
    decreases n,
{
    if n == 0 {
        1
    } else {
        2 * two_pow((n - 1) as nat)
    }
}

/// The delay after `prev_failures` earlier failures:
/// `500 ms * 2^min(prev_failures, 10)`.
pub open spec fn retry_millis(prev_failures: nat) -> nat {
    (BASE_RETRY_MILLIS as nat) * two_pow(if prev_failures < 10 { prev_failures } else { 10 })
}

/// Whether a substituter can serve requests, and how often it failed.
#[derive(Debug, Clone, Copy, PartialEq, Eq, Structural, Hash)]
pub enum Availability {
    /// Serving normally.
    Normal,
    /// Failed at `detected_at`; skipped until its retry delay has passed.
    Unavailable { detected_at: u64, prev_failures: usize },
    /// The retry delay has passed; the next request decides.
    MaybeReady { prev_failures: usize },
}

/// Earlier failures counted by an availability (0 when normal).
pub open spec fn failures_of(a: Availability) -> nat {
    match a {
        Availability::Normal => 0,
        Availability::Unavailable { prev_failures, .. } => prev_failures as nat,
        Availability::MaybeReady { prev_failures } => prev_failures as nat,
    }
}

/// The failure count after one more failure: 0 for a first failure,
/// one more than before otherwise.
pub open spec fn failures_after_failure(a: Availability) -> nat {
    match a {
        Availability::Normal => 0,
        _ => failures_of(a) + 1,
    }
}

/// A further failure can be counted without overflow.
pub open spec fn can_fail(a: Availability) -> bool {
    failures_after_failure(a) <= usize::MAX
}

/// The availability after a failure detected at `now`.
pub open spec fn unavailable_after(a: Availability, now: u64) -> Availability {
    Availability::Unavailable { detected_at: now, prev_failures: failures_after_failure(a) as usize }
}

/// The availability once its retry delay has passed.
pub open spec fn maybe_ready_after(a: Availability) -> Availability {
    match a {
        Availability::Unavailable { prev_failures, .. } => Availability::MaybeReady { prev_failures },
        other => other,
    }
}

/// The instant at which an unavailable substituter may be tried again.
pub open spec fn retry_at(a: Availability) -> int {
    match a {
        Availability::Unavailable { detected_at, prev_failures } => detected_at + retry_millis(
            prev_failures as nat,
        ),
        _ => 0,
    }
}

/// The retry instant of an availability fits the clock.
pub open spec fn retry_fits(a: Availability) -> bool {
    retry_at(a) <= u64::MAX
}

/// The delay grows by a factor of two with each failure, up to ten
/// failures, and stays at `500 ms * 1024` after that.
pub proof fn lemma_retry_millis_steps(prev_failures: nat)
    ensures
        retry_millis(0) == 500,
        prev_failures < 10 ==> retry_millis(prev_failures + 1) == 2 * retry_millis(prev_failures),
        prev_failures >= 10 ==> retry_millis(prev_failures + 1) == retry_millis(prev_failures),
        500 <= retry_millis(prev_failures) <= 512000,
{
    lemma_two_pow_bounds(if prev_failures < 10 { prev_failures } else { 10 });
    reveal_with_fuel(two_pow, 11);
}

/// The backoff never shrinks as failures accumulate.
pub proof fn lemma_retry_millis_monotonic(a: nat, b: nat)
    requires
        a <= b,
    ensures
        retry_millis(a) <= retry_millis(b),
    decreases b - a,
{
    if a < b {
        lemma_retry_millis_steps((b - 1) as nat);
        lemma_retry_millis_monotonic(a, (b - 1) as nat);
    }
}

proof fn lemma_two_pow_monotonic(a: nat, b: nat)
    requires
        a <= b,
    ensures
        two_pow(a) <= two_pow(b),
    decreases b - a,
{
    if a < b {
        lemma_two_pow_monotonic(a, (b - 1) as nat);
    }
}

proof fn lemma_two_pow_bounds(n: nat)
    requires
        n <= 10,
    ensures
        1 <= two_pow(n) <= 1024,
        n <= 9 ==> two_pow(n) <= 512,
{
    lemma_two_pow_monotonic(0, n);
    lemma_two_pow_monotonic(n, 10);
    if n <= 9 {
        lemma_two_pow_monotonic(n, 9);
    }
    assert(two_pow(9) == 512 && two_pow(10) == 1024) by {
        reveal_with_fuel(two_pow, 11);
    }
}

impl Availability {
    /// A substituter that serves normally.
    pub fn normal() -> (r: Self)
        ensures
            r == Availability::Normal,
    {
        Availability::Normal
    }

    /// Earlier failures (0 when normal).
    pub fn prev_failures(&self) -> (r: usize)
        ensures
            r == failures_of(*self),
    {
        match self {
            Availability::Normal => 0,
            Availability::Unavailable { prev_failures, .. } => *prev_failures,
            Availability::MaybeReady { prev_failures } => *prev_failures,
        }
    }

    /// Whether the substituter is waiting out its retry delay.
    pub fn is_unavailable(&self) -> (r: bool)
        ensures
            r == (*self is Unavailable),
    {
        match self {
            Availability::Unavailable { .. } => true,
            _ => false,
        }
    }

    /// Whether the retry delay has passed and the next request decides.
    pub fn is_maybe_ready(&self) -> (r: bool)
        ensures
            r == (*self is MaybeReady),
    {
        match self {
            Availability::MaybeReady { .. } => true,
            _ => false,
        }
    }

    /// Records a failure detected at `now`: unavailable from `now`, with one
    /// more earlier failure than before (none for a first failure).
    pub fn change_to_unavailable(self, now: u64) -> (r: Self)
        requires
            can_fail(self),
        ensures
            r == unavailable_after(self, now),
    {
        match self {
            Availability::Normal => Availability::Unavailable { detected_at: now, prev_failures: 0 },
            Availability::Unavailable { prev_failures, .. } => Availability::Unavailable {
                detected_at: now,
                prev_failures: prev_failures + 1,
            },
            Availability::MaybeReady { prev_failures } => Availability::Unavailable {
                detected_at: now,
                prev_failures: prev_failures + 1,
            },
        }
    }

    /// Ends the retry delay of an unavailable substituter; other states are
    /// kept.
    pub fn change_to_maybe_ready(self) -> (r: Self)
        ensures
            r == maybe_ready_after(self),
    {
        match self {
            Availability::Unavailable { prev_failures, .. } => Availability::MaybeReady {
                prev_failures,
            },
            otherwise => otherwise,
        }
    }

    /// Whether a request may go to the substituter at `now`, and its state
    /// after that check: an unavailable substituter whose retry instant has
    /// come becomes "maybe ready"; any other substituter is available and
    /// unchanged.
    pub fn update_and_check_availability(self, now: u64) -> (r: (bool, Self))
        requires
            retry_fits(self),
        ensures
            match self {
                Availability::Unavailable { .. } => if retry_at(self) <= now {
                    r == (true, maybe_ready_after(self))
                } else {
                    r == (false, self)
                },
                _ => r == (true, self),
            },
    {
        match &self {
            Availability::Unavailable { detected_at, prev_failures } => {
                let delay = Self::calc_retry_duration(*prev_failures);
                if *detected_at + delay <= now {
                    (true, self.change_to_maybe_ready())
                } else {
                    (false, self)
                }
            },
            _ => (true, self),
        }
    }

    /// Whether a failure detected at `now` can be recorded: a substituter
    /// waiting out its delay ignores it; otherwise its failure count must
    /// grow without overflow and its retry instant must fit the clock.
    pub fn can_record_failure_at(&self, now: u64) -> (r: bool)
        ensures
            r == (*self is Unavailable || (can_fail(*self) && retry_fits(
                unavailable_after(*self, now),
            ))),
    {
        let failures: usize = match self {
            Availability::Unavailable { .. } => return true,
            Availability::Normal => 0,
            Availability::MaybeReady { prev_failures } => {
                if *prev_failures == usize::MAX {
                    return false;
                }
                *prev_failures + 1
            },
        };
        let delay = Self::calc_retry_duration(failures);
        delay <= u64::MAX - now
    }

    /// The delay of an unavailable substituter (none otherwise).
    pub fn retry_duration(&self) -> (r: Option<u64>)
        ensures
            match *self {
                Availability::Unavailable { prev_failures, .. } => r == Some(
                    retry_millis(prev_failures as nat) as u64,
                ),
                _ => r is None,
            },
    {
        match self {
            Availability::Unavailable { prev_failures, .. } => {
                Some(Self::calc_retry_duration(*prev_failures))
            },
            _ => None,
        }
    }

    /// `500 ms * 2^min(prev_failures, 10)`.
    fn calc_retry_duration(prev_failures: usize) -> (r: u64)
        ensures
            r == retry_millis(prev_failures as nat),
    {
        let exp: usize = if prev_failures < MAX_BACKOFF_EXPONENT {
            prev_failures
        } else {
            MAX_BACKOFF_EXPONENT
        };
        let mut multiplier: u64 = 1;
        let mut i: usize = 0;
        while i < exp
            invariant
                exp <= 10,
                i <= exp,
                multiplier == two_pow(i as nat),
            decreases exp - i,
        {
            proof {
                lemma_two_pow_bounds(i as nat);
            }
            multiplier = multiplier * 2;
            i = i + 1;
        }
        proof {
            lemma_two_pow_bounds(exp as nat);
        }
        BASE_RETRY_MILLIS * multiplier
    }
}

} // verus!
