//! How long the client waits before it connects again.

use vstd::prelude::*;

verus! {

/// The number of steps of the waiting time.
pub const RETRY_STEPS: usize = 4;

/// The waiting times in seconds: each failure in a row takes the next, and
/// the last one stays.
pub const RETRY_BACKOFF_SECS: [u64; 4] = [5, 10, 20, 30];

/// The bound, in seconds, of the random time that is added to a waiting
/// time: what is added is smaller.
pub const JITTER_MAX_SECS: u64 = 3;

/// The waiting times as a sequence.
pub open spec fn backoff_table() -> Seq<u64> {
    seq![5u64, 10u64, 20u64, 30u64]
}

/// The step of the table that counts for the attempt `attempt`: the
/// attempt itself, and the last step for all attempts beyond the table.
pub open spec fn step_of(attempt: nat) -> int {
    if attempt < backoff_table().len() {
        attempt as int
    } else {
        backoff_table().len() - 1
    }
}

/// The waiting time, without the random part, before the attempt after
/// `attempt` failures in a row.
pub open spec fn base_delay(attempt: nat) -> int {
    backoff_table()[step_of(attempt)] as int
}

/// The random part of a waiting time that the random number `random`
/// gives.
pub open spec fn jitter(random: u64) -> int {
    random as int % JITTER_MAX_SECS as int
}

/// The waiting time before the attempt after `attempt` failures in a row,
/// with the random part that `random` gives.
pub open spec fn reconnect_delay(attempt: nat, random: u64) -> int {
    base_delay(attempt) + jitter(random)
}

/// The count of failures after one more failure: it stops at the last step
/// of the table.
pub open spec fn next_attempt(attempt: nat) -> nat {
    step_of(attempt + 1) as nat
}

/// Every waiting time, the random part included, stays under the last
/// step of the table plus the bound of the random part.
pub proof fn law_delay_is_bounded(attempt: nat, random: u64)
    ensures
        base_delay(attempt) <= reconnect_delay(attempt, random) < base_delay(attempt)
            + JITTER_MAX_SECS,
        reconnect_delay(attempt, random) < backoff_table().last() + JITTER_MAX_SECS,
        5 <= reconnect_delay(attempt, random) <= 32,
{
}

/// The waiting time without its random part never shrinks from one
/// failure to the next, and stops growing at the last step of the table.
pub proof fn law_base_delay_is_monotonic(a: nat, b: nat)
    requires
        a <= b,
    ensures
        base_delay(a) <= base_delay(b) <= backoff_table().last(),
        a >= backoff_table().len() - 1 ==> base_delay(a) == backoff_table().last(),
{
}

/// Below the last step of the table a later failure waits at least as
/// long as an earlier one, whatever the random parts are.
pub proof fn law_delay_grows_below_ceiling(a: nat, b: nat, random_a: u64, random_b: u64)
    requires
        a < b,
        a < backoff_table().len() - 1,
    ensures
        reconnect_delay(a, random_a) <= reconnect_delay(b, random_b),
{
}

/// The count of failures never leaves the table.
pub proof fn law_attempts_stay_in_table(attempt: nat)
    ensures
        next_attempt(attempt) < backoff_table().len(),
        attempt < backoff_table().len() ==> next_attempt(attempt) >= attempt,
        base_delay(next_attempt(attempt)) >= base_delay(attempt),
{
}

/// The waiting time, without the random part, after `attempt` failures in
/// a row.
pub fn base_delay_secs(attempt: usize) -> (r: u64)
    ensures
        r == base_delay(attempt as nat),
{
    let step: usize = if attempt < RETRY_STEPS {
        attempt
    } else {
        RETRY_STEPS - 1
    };
    RETRY_BACKOFF_SECS[step]
}

/// The waiting time after `attempt` failures in a row, with the random
/// part that `random` gives.
pub fn delay_with_jitter(attempt: usize, random: u64) -> (r: u64)
    ensures
        r == reconnect_delay(attempt as nat, random),
{
    base_delay_secs(attempt) + random % JITTER_MAX_SECS
}

/// The count of failures after one more failure.
pub fn next_attempt_after(attempt: usize) -> (r: usize)
    ensures
        r == next_attempt(attempt as nat),
{
    if attempt < RETRY_STEPS - 1 {
        attempt + 1
    } else {
        RETRY_STEPS - 1
    }
}

/// A random number from `rand::random`. Nothing is claimed of it.
#[verifier::external_body]
pub(crate) fn random_u64() -> u64 {
    rand::random::<u64>()
}

/// The waiting time after `attempt` failures in a row, with a random part
/// drawn for it.
pub fn next_delay(attempt: usize) -> (r: u64)
    ensures
        base_delay(attempt as nat) <= r < base_delay(attempt as nat) + JITTER_MAX_SECS,
        exists|random: u64| r == #[trigger] reconnect_delay(attempt as nat, random),
{
    let random = random_u64();
    let r = delay_with_jitter(attempt, random);
    assert(r == reconnect_delay(attempt as nat, random));
    r
}

} // verus!
