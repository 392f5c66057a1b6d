//! Timers for a browser, where waiting is left to `setTimeout`: how long a
//! sleep asks the browser to wait, and what a timed-out wait ends with.
use vstd::prelude::*;
use std::time::Duration;

verus! {

/// The whole seconds of a duration, as `Duration::as_secs` gives them.
pub uninterp spec fn duration_secs(d: Duration) -> u64;

/// The nanoseconds of a duration beyond its whole seconds, as
/// `Duration::subsec_nanos` gives them.
pub uninterp spec fn duration_subsec_nanos(d: Duration) -> u32;

/// `Duration::as_secs`: the whole seconds in `d`.
#[verifier::external_body]
fn as_secs(d: &Duration) -> (r: u64)
    ensures
        r == duration_secs(*d),
{
    d.as_secs()
}

/// `Duration::subsec_nanos`: the fractional part of `d`, in nanoseconds,
/// which its documentation says is always less than one billion.
#[verifier::external_body]
fn subsec_nanos(d: &Duration) -> (r: u32)
    ensures
        r == duration_subsec_nanos(*d),
        r < 1_000_000_000,
{
    d.subsec_nanos()
}

/// A duration of `secs` seconds and `nanos` nanoseconds, in nanoseconds.
pub open spec fn total_nanos(secs: u64, nanos: u32) -> int {
    secs * 1_000_000_000 + nanos
}

/// A duration of `secs` seconds and `nanos` nanoseconds, in milliseconds
/// rounded up.
pub open spec fn ceil_millis(secs: u64, nanos: u32) -> int {
    secs * 1000 + (nanos + 999_999) / 1_000_000
}

/// The longest delay that a browser timer accepts, in milliseconds.
pub open spec fn max_timer_delay() -> int {
    i32::MAX as int
}

/// How long a sleep of `duration` waits on the browser's timers, in
/// milliseconds: the whole duration, rounded up to a millisecond, so that
/// the sleep never ends before the duration has passed. The wait is made of
/// timers of at most `i32::MAX` milliseconds each (see `next_timer_delay`).
pub fn sleep(duration: Duration) -> (total_ms: u128)
    ensures
        total_ms == ceil_millis(duration_secs(duration), duration_subsec_nanos(duration)),
        total_ms * 1_000_000 >= total_nanos(
            duration_secs(duration),
            duration_subsec_nanos(duration),
        ),
        total_ms * 1_000_000 < total_nanos(
            duration_secs(duration),
            duration_subsec_nanos(duration),
        ) + 1_000_000,
{
    let secs = as_secs(&duration);
    let nanos = subsec_nanos(&duration);
    let extra = (nanos as u128 + 999_999) / 1_000_000;
    let total = secs as u128 * 1000 + extra;
    proof {
        let n = nanos as int;
        let e = extra as int;
        assert(e * 1_000_000 >= n && e * 1_000_000 < n + 1_000_000) by (nonlinear_arith)
            requires
                e == (n + 999_999) / 1_000_000,
                0 <= n,
        ;
        assert(total as int * 1_000_000 == secs * 1_000_000_000 + e * 1_000_000) by (
        nonlinear_arith)
            requires
                total as int == secs * 1000 + e,
        ;
    }
    total
}

/// The next timer of a wait that has `remaining_ms` milliseconds left: as
/// long as a browser timer accepts, and what is left after it.
pub open spec fn next_delay(remaining_ms: nat) -> (int, nat) {
    if remaining_ms <= max_timer_delay() {
        (remaining_ms as int, 0)
    } else {
        (max_timer_delay(), (remaining_ms - max_timer_delay()) as nat)
    }
}

/// The next timer of a wait that has `remaining_ms` milliseconds left, and
/// the milliseconds left after it.
pub fn next_timer_delay(remaining_ms: u128) -> (r: (i32, u128))
    ensures
        r.0 >= 0,
        r.0 + r.1 == remaining_ms,
        r.1 < remaining_ms || remaining_ms == 0,
        (r.0 as int, r.1 as nat) == next_delay(remaining_ms as nat),
{
    if remaining_ms <= 0x7fff_ffffu128 {
        (remaining_ms as i32, 0)
    } else {
        (i32::MAX, remaining_ms - 0x7fff_ffffu128)
    }
}

/// The timers that a wait of `ms` milliseconds is made of, in order.
pub open spec fn timer_plan(ms: nat) -> Seq<int>
    decreases ms,
{
    if ms == 0 {
        Seq::empty()
    } else {
        seq![next_delay(ms).0] + timer_plan(next_delay(ms).1)
    }
}

/// The sum of a list of delays.
pub open spec fn total_delay(delays: Seq<int>) -> int
    decreases delays.len(),
{
    if delays.len() == 0 {
        0
    } else {
        delays[0] + total_delay(delays.drop_first())
    }
}

/// A wait made of successive timers lasts exactly the milliseconds asked,
/// each of its timers being one that a browser accepts.
pub proof fn timer_plan_covers_the_wait(ms: nat)
    ensures
        total_delay(timer_plan(ms)) == ms,
        forall|i: int|
            0 <= i < timer_plan(ms).len() ==> 0 < #[trigger] timer_plan(ms)[i] <= max_timer_delay(),
    decreases ms,
{
    if ms > 0 {
        let (d, rest) = next_delay(ms);
        timer_plan_covers_the_wait(rest);
        let p = timer_plan(ms);
        assert(p.drop_first() =~= timer_plan(rest));
        assert forall|i: int| 0 <= i < p.len() implies 0 < #[trigger] p[i] <= max_timer_delay() by {
            if i > 0 {
                assert(p[i] == timer_plan(rest)[i - 1]);
            }
        }
    }
}

/// Returned when a timeout elapses before the wrapped future completes.
#[derive(Clone, Copy, Debug, PartialEq, Eq, Structural)]
pub struct Elapsed;

impl Elapsed {
    /// The text of the error.
    pub fn message(&self) -> (r: String)
        ensures
            r@ == "deadline has elapsed"@,
    {
        String::from_str("deadline has elapsed")
    }
}

/// Which of a future and its deadline finished first.
pub enum Race<T> {
    /// The future finished first, with this output.
    Finished(T),
    /// The deadline passed first.
    DeadlinePassed,
}

/// What a timeout gives: the future's output when it finished before the
/// deadline, `Elapsed` when the deadline came first.
pub fn timeout_result<T>(race: Race<T>) -> (r: Result<T, Elapsed>)
    ensures
        match race {
            Race::Finished(output) => r == Ok::<T, Elapsed>(output),
            Race::DeadlinePassed => r == Err::<T, Elapsed>(Elapsed),
        },
{
    match race {
        Race::Finished(output) => Ok(output),
        Race::DeadlinePassed => Err(Elapsed),
    }
}

} // verus!
