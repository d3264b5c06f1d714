//! Restarts of the worker process.

use crate::clock::NANOS_PER_SEC;
use crate::text::same_text;
use vstd::arithmetic::power2::{lemma2_to64, lemma_pow2_unfold, pow2};
use vstd::prelude::*;

verus! {

/// The first wait before a restart, in seconds.
pub const MIN_BACKOFF_SECS: u64 = 1;

/// The longest wait before a restart, in seconds.
pub const MAX_BACKOFF_SECS: u64 = 30;

/// A worker that ran for so many seconds did not exit quickly.
pub const STABLE_RUN_SECS: u64 = 60;

/// Whether a value of the environment variable turns supervision off.
pub open spec fn turns_off(value: Seq<char>) -> bool {
    ||| value == "0"@
    ||| value == "false"@
    ||| value == "False"@
    ||| value == "FALSE"@
    ||| value == "no"@
    ||| value == "No"@
}

/// Whether workers are supervised, given the value of the environment variable, `None` where
/// it is not set or is not Unicode.
pub fn supervisor_enabled(value: Option<&str>) -> (r: bool)
    ensures
        r == !(value matches Some(text) && turns_off(text@)),
{
    match value {
        Some(text) => !(same_text(text, "0") || same_text(text, "false") || same_text(
            text,
            "False",
        ) || same_text(text, "FALSE") || same_text(text, "no") || same_text(text, "No")),
        None => true,
    }
}

/// What the process does when it starts.
#[derive(Clone, Copy, Debug, PartialEq, Eq, Structural)]
pub enum Role {
    /// Start workers and restart them.
    Supervisor,
    /// Do the work.
    Worker,
}

/// The role of the process: it supervises where supervision is on and it was not itself
/// started by a supervisor.
pub fn choose_role(supervise: Option<&str>, started_as_worker: bool) -> (r: Role)
    ensures
        r == if !(supervise matches Some(text) && turns_off(text@)) && !started_as_worker {
            Role::Supervisor
        } else {
            Role::Worker
        },
{
    if supervisor_enabled(supervise) && !started_as_worker {
        Role::Supervisor
    } else {
        Role::Worker
    }
}

/// The smaller of two numbers.
pub open spec fn min(a: int, b: int) -> int {
    if a < b {
        a
    } else {
        b
    }
}

/// Whether a worker that ran for so many nanoseconds exited quickly.
pub open spec fn is_quick(runtime_nanos: u128) -> bool {
    runtime_nanos < STABLE_RUN_SECS * NANOS_PER_SEC
}

/// The wait for the next quick exit, after a worker exited.
pub open spec fn next_backoff(backoff: int, runtime_nanos: u128) -> int {
    if is_quick(runtime_nanos) {
        min(2 * backoff, MAX_BACKOFF_SECS as int)
    } else {
        MIN_BACKOFF_SECS as int
    }
}

/// The wait before the next restart.
pub struct Supervisor {
    backoff_secs: u64,
}

impl Supervisor {
    /// Seconds to wait before the restart, should the worker exit quickly.
    pub closed spec fn backoff(self) -> int {
        self.backoff_secs as int
    }

    /// The wait stays between its bounds.
    #[verifier::type_invariant]
    spec fn backoff_in_bounds(self) -> bool {
        MIN_BACKOFF_SECS <= self.backoff_secs <= MAX_BACKOFF_SECS
    }

    /// A supervisor that has not restarted a worker yet.
    pub fn new() -> (r: Self)
        ensures
            r.backoff() == MIN_BACKOFF_SECS,
            r.backoff() == 1,
    {
        Supervisor { backoff_secs: MIN_BACKOFF_SECS }
    }

    /// Takes note that a worker exited after it ran for so many nanoseconds. Gives the
    /// seconds to wait before the restart: after a quick exit the wait so far, which doubles
    /// for the next time up to its bound; after a stable run the shortest wait, from which it
    /// starts again.
    pub fn worker_exited(&mut self, runtime_nanos: u128) -> (wait_secs: u64)
        ensures
            wait_secs == if is_quick(runtime_nanos) {
                old(self).backoff()
            } else {
                MIN_BACKOFF_SECS as int
            },
            final(self).backoff() == next_backoff(old(self).backoff(), runtime_nanos),
            MIN_BACKOFF_SECS <= wait_secs <= MAX_BACKOFF_SECS,
            runtime_nanos >= 60_000_000_000 ==> wait_secs == 1 && final(self).backoff() == 1,
            runtime_nanos < 60_000_000_000 ==> wait_secs == old(self).backoff(),
            runtime_nanos < 60_000_000_000 && old(self).backoff() <= 15 ==> final(self).backoff()
                == 2 * old(self).backoff(),
            runtime_nanos < 60_000_000_000 && old(self).backoff() > 15 ==> final(self).backoff()
                == 30,
    {
        proof {
            use_type_invariant(&*self);
        }
        if runtime_nanos >= STABLE_RUN_SECS as u128 * NANOS_PER_SEC {
            self.backoff_secs = MIN_BACKOFF_SECS;
            MIN_BACKOFF_SECS
        } else {
            let wait_secs: u64 = self.backoff_secs;
            let doubled: u64 = wait_secs * 2;
            self.backoff_secs = if doubled < MAX_BACKOFF_SECS {
                doubled
            } else {
                MAX_BACKOFF_SECS
            };
            wait_secs
        }
    }
}

/// The wait for the next quick exit, after workers ran for those times, the first of them
/// first.
pub open spec fn backoff_after(runs: Seq<u128>) -> int
    decreases runs.len(),
{
    if runs.len() == 0 {
        MIN_BACKOFF_SECS as int
    } else {
        next_backoff(backoff_after(runs.drop_last()), runs.last())
    }
}

/// The wait is never shorter or longer than its bounds.
pub proof fn lemma_backoff_in_bounds(runs: Seq<u128>)
    ensures
        MIN_BACKOFF_SECS <= backoff_after(runs) <= MAX_BACKOFF_SECS,
    decreases runs.len(),
{
    if runs.len() > 0 {
        lemma_backoff_in_bounds(runs.drop_last());
    }
}

/// The wait doubles with each quick exit in a row until it is at its bound: where the last
/// `quick` workers exited quickly, and the one before them, if any, did not, it is 2 to the
/// power of `quick`, cut off at the bound.
pub proof fn lemma_backoff_doubles(runs: Seq<u128>, quick: nat)
    requires
        quick <= runs.len(),
        forall|i: int| runs.len() - quick <= i < runs.len() ==> is_quick(#[trigger] runs[i]),
        quick < runs.len() ==> !is_quick(runs[runs.len() - quick - 1]),
    ensures
        backoff_after(runs) == min(pow2(quick) as int, MAX_BACKOFF_SECS as int),
    decreases quick,
{
    lemma2_to64();
    if quick > 0 {
        let rest = runs.drop_last();
        lemma_backoff_doubles(rest, (quick - 1) as nat);
        lemma_pow2_unfold(quick);
        assert(is_quick(runs[runs.len() - 1]));
    }
}

/// A run of at least a minute, however long, brings the wait back to one second. A shorter one
/// doubles it, up to thirty seconds.
pub proof fn lemma_a_minute_resets(runs: Seq<u128>, runtime_nanos: u128)
    ensures
        backoff_after(Seq::empty()) == 1,
        runtime_nanos >= 60_000_000_000 ==> backoff_after(runs.push(runtime_nanos)) == 1,
        runtime_nanos < 60_000_000_000 && backoff_after(runs) <= 15 ==> backoff_after(
            runs.push(runtime_nanos),
        ) == 2 * backoff_after(runs),
        runtime_nanos < 60_000_000_000 && backoff_after(runs) > 15 ==> backoff_after(
            runs.push(runtime_nanos),
        ) == 30,
        1 <= backoff_after(runs) <= 30,
{
    lemma_backoff_in_bounds(runs);
    assert(runs.push(runtime_nanos).drop_last() =~= runs);
}

/// After a run of at least a minute the wait is the same whatever came before; and so is every
/// wait after it.
pub proof fn lemma_the_past_is_forgotten(
    one: Seq<u128>,
    other: Seq<u128>,
    runtime_nanos: u128,
    later: Seq<u128>,
)
    requires
        runtime_nanos >= 60_000_000_000,
    ensures
        backoff_after(one.push(runtime_nanos) + later) == backoff_after(
            other.push(runtime_nanos) + later,
        ),
    decreases later.len(),
{
    let (a, b) = (one.push(runtime_nanos), other.push(runtime_nanos));
    if later.len() == 0 {
        lemma_a_minute_resets(one, runtime_nanos);
        lemma_a_minute_resets(other, runtime_nanos);
        assert(a + later =~= a && b + later =~= b);
    } else {
        lemma_the_past_is_forgotten(one, other, runtime_nanos, later.drop_last());
        assert((a + later).drop_last() =~= a + later.drop_last());
        assert((b + later).drop_last() =~= b + later.drop_last());
        assert((a + later).last() == (b + later).last());
    }
}

/// Supervision is turned off by a zero, by "false" in lower case, capitalised or in upper case,
/// by "no" in lower case or capitalised, and by nothing else.
pub proof fn lemma_what_turns_supervision_off(value: Seq<char>)
    ensures
        turns_off(value) <==> value == seq!['0'] || value == seq!['f', 'a', 'l', 's', 'e'] || value
            == seq!['F', 'a', 'l', 's', 'e'] || value == seq!['F', 'A', 'L', 'S', 'E'] || value
            == seq!['n', 'o'] || value == seq!['N', 'o'],
{
    reveal_strlit("0");
    reveal_strlit("false");
    reveal_strlit("False");
    reveal_strlit("FALSE");
    reveal_strlit("no");
    reveal_strlit("No");
    assert("0"@ =~= seq!['0']);
    assert("false"@ =~= seq!['f', 'a', 'l', 's', 'e']);
    assert("False"@ =~= seq!['F', 'a', 'l', 's', 'e']);
    assert("FALSE"@ =~= seq!['F', 'A', 'L', 'S', 'E']);
    assert("no"@ =~= seq!['n', 'o']);
    assert("No"@ =~= seq!['N', 'o']);
}

} // verus!
