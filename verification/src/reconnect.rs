//! When to connect again after a session fails.

use vstd::arithmetic::power2::{
    lemma2_to64, lemma_pow2_strictly_increases, lemma_pow2_unfold, pow2,
};
use vstd::prelude::*;

verus! {

/// The pause that the others are multiples of, in milliseconds.
pub const BASE_BACKOFF: u64 = 1_000;

/// The longest pause between two sessions, in milliseconds.
pub const MAX_BACKOFF: u64 = 30_000;

/// What to do after a session.
#[derive(Clone, Copy, PartialEq, Eq, Structural, Debug)]
pub enum Reconnect {
    /// Pause, then connect again.
    After { attempt: u32, backoff_ms: u64 },
    /// Connect no more: too many sessions have failed.
    GiveUp,
    /// Connect no more: the session ended as it should.
    Done,
}

/// The pause before the `attempt`-th reconnection, in milliseconds: it doubles from one to the
/// next, up to [`MAX_BACKOFF`].
pub open spec fn backoff(attempt: nat) -> nat {
    if BASE_BACKOFF * pow2(attempt) < MAX_BACKOFF {
        BASE_BACKOFF as nat * pow2(attempt)
    } else {
        MAX_BACKOFF as nat
    }
}

/// What to do when a session fails after `attempt` failures before it; a limit of 0 is none.
pub open spec fn reconnection(attempt: nat, limit: nat) -> Option<nat> {
    if limit != 0 && attempt + 1 >= limit {
        None
    } else {
        Some(attempt + 1)
    }
}

/// How many failures are behind the client when `failures` sessions have failed one after the
/// other, unless it has given up.
pub open spec fn failures_borne(failures: nat, limit: nat) -> Option<nat>
    decreases failures,
{
    if failures == 0 {
        Some(0)
    } else {
        match failures_borne((failures - 1) as nat, limit) {
            Some(attempt) => reconnection(attempt, limit),
            None => None,
        }
    }
}

/// Works out the pause before a reconnection.
pub fn backoff_ms(attempt: u32) -> (ms: u64)
    ensures
        ms == backoff(attempt as nat),
{
    proof {
        lemma2_to64();
        if attempt > 5 {
            lemma_pow2_strictly_increases(5, attempt as nat);
        }
    }
    let doublings: u32 = if attempt < 5 {
        attempt
    } else {
        5
    };
    proof {
        vstd::bits::lemma_u64_shl_is_mul(1, doublings as u64);
    }
    let ms: u64 = BASE_BACKOFF * (1u64 << doublings);
    if ms < MAX_BACKOFF {
        ms
    } else {
        MAX_BACKOFF
    }
}

/// Decides what to do when a session is over, `attempt` sessions having failed before it.
pub fn after_session(failed: bool, attempt: u32, max_reconnects: u32) -> (next: Reconnect)
    requires
        failed ==> attempt < u32::MAX,
    ensures
        !failed ==> next == Reconnect::Done,
        failed ==> match reconnection(attempt as nat, max_reconnects as nat) {
            Some(n) => next matches Reconnect::After { attempt: a, backoff_ms: b } && a == n && b
                == backoff(n),
            None => next == Reconnect::GiveUp,
        },
{
    if !failed {
        return Reconnect::Done;
    }
    let failures: u32 = attempt + 1;
    if max_reconnects != 0 && failures >= max_reconnects {
        Reconnect::GiveUp
    } else {
        Reconnect::After { attempt: failures, backoff_ms: backoff_ms(failures) }
    }
}

/// The pause never exceeds [`MAX_BACKOFF`] and never shrinks from one reconnection to a later
/// one.
pub proof fn law_backoff_grows_to_its_cap(earlier: nat, later: nat)
    requires
        earlier <= later,
    ensures
        backoff(earlier) <= backoff(later) <= MAX_BACKOFF,
{
    if earlier < later {
        lemma_pow2_strictly_increases(earlier, later);
    }
    assert(BASE_BACKOFF * pow2(earlier) <= BASE_BACKOFF * pow2(later));
}

/// Without a limit the client never gives up; with one it gives up at the failure that the limit
/// names, and at none before.
pub proof fn law_limit_is_kept(failures: nat, limit: nat)
    ensures
        failures_borne(failures, limit) == (if limit == 0 || failures < limit {
            Some(failures)
        } else {
            None
        }),
    decreases failures,
{
    if failures > 0 {
        law_limit_is_kept((failures - 1) as nat, limit);
    }
}

/// The pause is a second doubled once for each failure, and half a minute where that is more: it
/// starts at a second, and each pause is twice the one before, up to half a minute.
pub proof fn law_pauses_double(attempt: nat)
    ensures
        backoff(0) == 1_000,
        backoff(attempt + 1) == (if 2 * backoff(attempt) < 30_000 {
            2 * backoff(attempt)
        } else {
            30_000
        }),
{
    lemma2_to64();
    lemma_pow2_unfold(attempt + 1);
}

/// A failed session is followed by another unless there is a limit and this failure reaches it.
pub proof fn law_failure_is_followed_by_another_attempt(attempt: nat, limit: nat)
    ensures
        reconnection(attempt, limit) is None <==> limit > 0 && attempt + 1 >= limit,
        reconnection(attempt, limit) matches Some(next) ==> next == attempt + 1,
{
}

} // verus!
