//! Process watchdog: the deadline of one native call at a time.
//!
//! A thread of its own asks what to do next and does it: wait for a change, wait for a while,
//! or abort the process. Times are nanoseconds on one clock.

use crate::clock::{Clock, MAX_SPAN_NANOS};
use vstd::prelude::*;

verus! {

/// A native call that is being watched.
pub struct ArmedCall {
    /// What the call is for.
    pub label: &'static str,
    /// When the call must have returned.
    pub deadline: u128,
    /// How long the call may take.
    pub timeout: u128,
    /// The number that the call was armed under.
    pub generation: u64,
}

/// The call that is watched, if any, and the number of the last one.
pub struct WatchdogState {
    pub armed: Option<ArmedCall>,
    pub generation: u64,
}

/// What the watchdog thread does next.
pub enum WatchdogAction {
    /// Nothing is watched: wait until that changes.
    WaitForChange,
    /// Wait for so many nanoseconds, or until something changes.
    Wait(u128),
    /// The call has not returned in time: abort the process. The span is the time that the
    /// call has taken.
    Abort { label: &'static str, timeout: u128, elapsed: u128 },
}

/// The number after a number, zero after the last.
pub open spec fn next_generation(generation: u64) -> u64 {
    if generation == u64::MAX {
        0
    } else {
        (generation + 1) as u64
    }
}

impl WatchdogState {
    /// The state after a call was armed at a time.
    pub open spec fn after_arm(self, label: &'static str, timeout: u128, now: u128) -> Self {
        WatchdogState {
            armed: Some(
                ArmedCall {
                    label,
                    deadline: (now + timeout) as u128,
                    timeout,
                    generation: next_generation(self.generation),
                },
            ),
            generation: next_generation(self.generation),
        }
    }

    /// Whether the call of that number is being watched.
    pub open spec fn is_watching(self, generation: u64) -> bool {
        self.armed matches Some(call) && call.generation == generation
    }

    /// The state after the call of that number has returned: nothing changes where another
    /// call is watched.
    pub open spec fn after_disarm(self, generation: u64) -> Self {
        if self.is_watching(generation) {
            WatchdogState { armed: None, ..self }
        } else {
            self
        }
    }

    /// What to do next at a time.
    pub open spec fn action(self, now: u128) -> WatchdogAction {
        match self.armed {
            None => WatchdogAction::WaitForChange,
            Some(call) => if now >= call.deadline {
                WatchdogAction::Abort {
                    label: call.label,
                    timeout: call.timeout,
                    elapsed: (call.timeout + (now - call.deadline)) as u128,
                }
            } else {
                WatchdogAction::Wait((call.deadline - now) as u128)
            },
        }
    }

    /// A state in which nothing is watched.
    pub fn new() -> (r: Self)
        ensures
            r.armed is None,
            r.generation == 0,
    {
        WatchdogState { armed: None, generation: 0 }
    }

    /// Watches a call from a time on; gives the number that the call is armed under.
    pub fn arm_at(&mut self, label: &'static str, timeout: u128, now: u128) -> (generation: u64)
        requires
            now + timeout <= u128::MAX,
        ensures
            *final(self) == old(self).after_arm(label, timeout, now),
            generation == final(self).generation,
            final(self).is_watching(generation),
            old(self).generation < u64::MAX ==> generation == old(self).generation + 1,
            old(self).generation == u64::MAX ==> generation == 0,
            final(self).armed is Some,
            final(self).armed->0.label == label,
            final(self).armed->0.deadline == now + timeout,
            final(self).armed->0.timeout == timeout,
            final(self).armed->0.generation == generation,
    {
        self.generation = self.generation.wrapping_add(1);
        let generation: u64 = self.generation;
        self.armed = Some(ArmedCall { label, deadline: now + timeout, timeout, generation });
        generation
    }

    /// Ends the watch of the call of that number; says whether anything changed.
    pub fn disarm(&mut self, generation: u64) -> (changed: bool)
        ensures
            *final(self) == old(self).after_disarm(generation),
            changed == old(self).is_watching(generation),
            changed <==> old(self).armed is Some && old(self).armed->0.generation == generation,
            changed ==> final(self).armed is None,
            !changed ==> final(self).armed == old(self).armed,
            final(self).generation == old(self).generation,
    {
        let watching: bool = match &self.armed {
            Some(call) => call.generation == generation,
            None => false,
        };
        if watching {
            self.armed = None;
        }
        watching
    }

    /// What to do next at a time.
    pub fn next_action_at(&self, now: u128) -> (r: WatchdogAction)
        requires
            self.armed matches Some(call) ==> call.timeout + now <= u128::MAX,
        ensures
            r == self.action(now),
            self.armed is None ==> r == WatchdogAction::WaitForChange,
            self.armed is Some && now < self.armed->0.deadline ==> (r matches WatchdogAction::Wait(
                left,
            ) && left == self.armed->0.deadline - now),
            self.armed is Some && now >= self.armed->0.deadline ==> (
            r matches WatchdogAction::Abort { label, timeout, elapsed } && label
                == self.armed->0.label && timeout == self.armed->0.timeout && elapsed == timeout
                + now - self.armed->0.deadline),
    {
        match &self.armed {
            None => WatchdogAction::WaitForChange,
            Some(call) => if now >= call.deadline {
                WatchdogAction::Abort {
                    label: call.label,
                    timeout: call.timeout,
                    elapsed: call.timeout + (now - call.deadline),
                }
            } else {
                WatchdogAction::Wait(call.deadline - now)
            },
        }
    }
}

/// The watchdog of the process: the watched call, and the clock that its deadline is on.
pub struct ProcessWatchdog {
    state: WatchdogState,
    clock: Clock,
}

impl ProcessWatchdog {
    /// The watched call, if any, and the number of the last one.
    pub closed spec fn view(&self) -> WatchdogState {
        self.state
    }

    /// The clock that the deadline is on.
    pub closed spec fn clock(&self) -> Clock {
        self.clock
    }

    /// The watched call may take no longer than the longest span.
    #[verifier::type_invariant]
    spec fn timeout_is_a_span(self) -> bool {
        self.state.armed matches Some(call) ==> call.timeout <= MAX_SPAN_NANOS
    }

    /// A watchdog that watches nothing.
    pub fn new() -> (r: Self)
        ensures
            r@.armed is None,
            r@.generation == 0,
    {
        ProcessWatchdog { state: WatchdogState::new(), clock: Clock::start() }
    }

    /// Watches a call from now on, unless its timeout is zero; gives the number that the call
    /// is armed under.
    pub fn arm(&mut self, label: &'static str, timeout: u128) -> (generation: Option<u64>)
        requires
            timeout <= MAX_SPAN_NANOS,
        ensures
            timeout == 0 ==> {
                &&& generation is None
                &&& final(self)@ == old(self)@
                &&& final(self).clock() == old(self).clock()
            },
            timeout > 0 ==> {
                &&& generation == Some(final(self)@.generation)
                &&& old(self).clock().looked_at(final(self).clock())
                &&& final(self)@ == old(self)@.after_arm(
                    label,
                    timeout,
                    final(self).clock().latest(),
                )
            },
    {
        proof {
            use_type_invariant(&*self);
        }
        if timeout == 0 {
            return None;
        }
        let mut clock: Clock = self.clock;
        let now: u128 = clock.elapsed_nanos();
        self.clock = clock;
        let mut state: WatchdogState = WatchdogState::new();
        std::mem::swap(&mut state, &mut self.state);
        let generation: u64 = state.arm_at(label, timeout, now);
        self.state = state;
        Some(generation)
    }

    /// Ends the watch of the call of that number; says whether anything changed.
    pub fn disarm(&mut self, generation: u64) -> (changed: bool)
        ensures
            final(self)@ == old(self)@.after_disarm(generation),
            changed == old(self)@.is_watching(generation),
            final(self).clock() == old(self).clock(),
    {
        proof {
            use_type_invariant(&*self);
        }
        let mut state: WatchdogState = WatchdogState::new();
        std::mem::swap(&mut state, &mut self.state);
        let changed: bool = state.disarm(generation);
        self.state = state;
        changed
    }

    /// What to do next.
    pub fn next_action(&mut self) -> (r: WatchdogAction)
        ensures
            final(self)@ == old(self)@,
            old(self).clock().looked_at(final(self).clock()),
            r == old(self)@.action(final(self).clock().latest()),
    {
        proof {
            use_type_invariant(&*self);
        }
        let mut clock: Clock = self.clock;
        let now: u128 = clock.elapsed_nanos();
        self.clock = clock;
        self.state.next_action_at(now)
    }
}

/// A call that returns ends its watch, and no other: after it was armed and disarmed under the
/// same number nothing is watched, while a late disarm under an earlier number leaves the
/// watched call alone.
pub proof fn lemma_disarm_ends_only_its_own_call(
    state: WatchdogState,
    label: &'static str,
    timeout: u128,
    now: u128,
    other: u64,
)
    requires
        other != next_generation(state.generation),
    ensures
        state.after_arm(label, timeout, now).after_disarm(
            next_generation(state.generation),
        ).armed is None,
        state.after_arm(label, timeout, now).after_disarm(other) == state.after_arm(
            label,
            timeout,
            now,
        ),
{
}

/// The process is aborted at the deadline and not before: until then the thread is told to
/// wait for exactly the time that is left, and after that wait it is told to abort. The time
/// that the abort reports is the time since the call was armed.
pub proof fn lemma_abort_at_the_deadline(
    state: WatchdogState,
    label: &'static str,
    timeout: u128,
    armed_at: u128,
    now: u128,
)
    requires
        armed_at <= now,
        armed_at + timeout <= u128::MAX,
        timeout + now <= u128::MAX,
    ensures
        now < armed_at + timeout ==> state.after_arm(label, timeout, armed_at).action(now)
            == WatchdogAction::Wait((armed_at + timeout - now) as u128),
        now >= armed_at + timeout ==> (state.after_arm(label, timeout, armed_at).action(now)
            == WatchdogAction::Abort { label, timeout, elapsed: (now - armed_at) as u128 }),
{
}

/// Once the call has returned, the process is not aborted, however late it is.
pub proof fn lemma_no_abort_after_return(
    state: WatchdogState,
    label: &'static str,
    timeout: u128,
    armed_at: u128,
    now: u128,
)
    ensures
        state.after_arm(label, timeout, armed_at).after_disarm(
            next_generation(state.generation),
        ).action(now) is WaitForChange,
{
}

/// The numbers of calls count up by one, modulo 2^64, so that two calls less than 2^64 calls
/// apart have different numbers.
pub proof fn lemma_numbers_count_up(
    state: WatchdogState,
    label: &'static str,
    timeout: u128,
    now: u128,
)
    ensures
        state.after_arm(label, timeout, now).generation as int == (state.generation + 1)
            % 0x1_0000_0000_0000_0000,
        state.after_arm(label, timeout, now).armed matches Some(call) && call.generation
            == state.after_arm(label, timeout, now).generation,
{
}

/// A call that returns late does not end the watch of the call after it.
pub proof fn lemma_late_return_leaves_the_next_call(
    state: WatchdogState,
    first: &'static str,
    second: &'static str,
    first_timeout: u128,
    second_timeout: u128,
    first_at: u128,
    second_at: u128,
    now: u128,
)
    requires
        second_at <= now < second_at + second_timeout <= u128::MAX,
    ensures
        ({
            let one = state.after_arm(first, first_timeout, first_at);
            let two = one.after_arm(second, second_timeout, second_at);
            two.after_disarm(one.generation).action(now)
        }) == WatchdogAction::Wait((second_at + second_timeout - now) as u128),
{
}

} // verus!
