//! Gates: cooperative step sequencers for tasks. A gate holds a list of
//! steps, each a condition and an action. Processing a gate checks the
//! current step's condition; when it holds, the step's action is due and
//! it moves on to the next step, wrapping around after the last one.
//!
//! Actions and custom conditions are identified by number; the caller
//! keeps the code they stand for, evaluates custom conditions and runs the
//! actions that processing hands back.
use vstd::prelude::*;

verus! {

/// How many steps a gate can hold.
pub const MAX_SUPPORTED_FUNCTIONS: usize = 128;

/// The condition guarding a step.
#[derive(Clone, Copy, PartialEq, Eq, Structural)]
pub enum GateCondition {
    /// Always holds (an empty slot).
    Always,
    /// Holds once the clock has passed the step's target time.
    Elapsed,
    /// A condition of the caller's, identified by number.
    Custom(u32),
}

/// A sequence of guarded steps.
#[derive(Clone, Copy)]
pub struct Gate {
    pub conditions: [GateCondition; MAX_SUPPORTED_FUNCTIONS],
    pub functions: [u32; MAX_SUPPORTED_FUNCTIONS],
    pub durations: [u64; MAX_SUPPORTED_FUNCTIONS],
    pub target_times: [u64; MAX_SUPPORTED_FUNCTIONS],
    pub current_index: usize,
    pub tail: usize,
    pub once: bool,
    pub compiled: bool,
    /// A gate marked `once` whose last step has run: it runs nothing more.
    pub finished: bool,
}

/// The action number of an empty slot, which does nothing.
pub const NO_ACTION: u32 = 0;

impl Gate {
    /// The step counters are in range.
    pub open spec fn well_formed(self) -> bool {
        &&& self.tail <= MAX_SUPPORTED_FUNCTIONS
        &&& self.current_index < MAX_SUPPORTED_FUNCTIONS
    }

    /// Whether the current step's condition holds at time `now`, given the
    /// value the caller's custom condition (if it is one) returned.
    pub open spec fn condition_holds(self, now: u64, custom_holds: bool) -> bool {
        match self.conditions@[self.current_index as int] {
            GateCondition::Always => true,
            GateCondition::Elapsed => now > self.target_times@[self.current_index as int],
            GateCondition::Custom(_) => custom_holds,
        }
    }

    /// The step that follows the current one.
    pub open spec fn next_index(self) -> int {
        if self.current_index + 1 == self.tail {
            0
        } else {
            self.current_index + 1
        }
    }

    /// Moving past the current step stays within the step slots.
    pub open spec fn can_advance(self) -> bool {
        self.current_index + 1 < MAX_SUPPORTED_FUNCTIONS || self.current_index + 1 == self.tail
    }

    /// `next` is this gate after the current step ran at time `now`: the
    /// following step is current and its target time is `now` plus its
    /// duration.
    pub open spec fn advances(self, next: Gate, now: u64) -> bool {
        &&& next.current_index == self.next_index()
        &&& next.target_times@ == self.target_times@.update(
            self.next_index(),
            (now + self.durations@[self.next_index()]) as u64,
        )
        &&& next.conditions == self.conditions
        &&& next.functions == self.functions
        &&& next.durations == self.durations
        &&& next.tail == self.tail
        &&& next.once == self.once
        &&& next.compiled == self.compiled
        &&& next.finished == (self.finished || (self.once && self.current_index + 1 == self.tail))
    }

    /// A gate with no steps.
    pub fn new() -> (g: Gate)
        ensures
            g.well_formed(),
            g.tail == 0,
            g.current_index == 0,
            !g.once,
            !g.compiled,
            !g.finished,
            forall|i: int|
                0 <= i < MAX_SUPPORTED_FUNCTIONS ==> g.conditions@[i] == GateCondition::Always
                    && g.functions@[i] == NO_ACTION && g.durations@[i] == 0 && g.target_times@[i]
                    == 0,
    {
        Gate {
            conditions: [GateCondition::Always; MAX_SUPPORTED_FUNCTIONS],
            functions: [NO_ACTION; MAX_SUPPORTED_FUNCTIONS],
            durations: [0u64; MAX_SUPPORTED_FUNCTIONS],
            target_times: [0u64; MAX_SUPPORTED_FUNCTIONS],
            current_index: 0,
            tail: 0,
            once: false,
            compiled: false,
            finished: false,
        }
    }

    /// `next` is this gate with a step appended: condition `cond`, action
    /// `then`, and for a timed step its duration. A compiled gate stays as
    /// it is.
    pub open spec fn appends(self, next: Gate, cond: GateCondition, then: u32, duration: Option<u64>) -> bool {
        if self.compiled {
            next == self
        } else {
            &&& next.conditions@ == self.conditions@.update(self.tail as int, cond)
            &&& next.functions@ == self.functions@.update(self.tail as int, then)
            &&& next.durations@ == match duration {
                Some(d) => self.durations@.update(self.tail as int, d),
                None => self.durations@,
            }
            &&& next.target_times@ == self.target_times@
            &&& next.tail == self.tail + 1
            &&& next.current_index == self.current_index
            &&& next.once == self.once
            &&& next.compiled == self.compiled
            &&& next.finished == self.finished
        }
    }

    /// Appends a step that runs action `then` when the caller's condition
    /// `cond` holds. A compiled gate is left unchanged.
    pub fn when(&mut self, cond: u32, then: u32) -> (r: &mut Self)
        requires
            old(self).compiled || old(self).tail < MAX_SUPPORTED_FUNCTIONS,
        ensures
            old(self).appends(*r, GateCondition::Custom(cond), then, None),
            *final(self) == *final(r),
            old(self).well_formed() ==> r.well_formed(),
    {
        if self.compiled {
            return self;
        }
        self.conditions[self.tail] = GateCondition::Custom(cond);
        self.functions[self.tail] = then;
        self.tail = self.tail + 1;
        self
    }

    /// Appends a timed step: it runs action `then` once the clock passes
    /// the step's target time, which is set to `duration_nanos` after the
    /// moment the step became current. A compiled gate is left unchanged.
    pub fn when_nano(&mut self, duration_nanos: u64, then: u32) -> (r: &mut Self)
        requires
            old(self).compiled || old(self).tail < MAX_SUPPORTED_FUNCTIONS,
        ensures
            old(self).appends(*r, GateCondition::Elapsed, then, Some(duration_nanos)),
            *final(self) == *final(r),
            old(self).well_formed() ==> r.well_formed(),
    {
        if self.compiled {
            return self;
        }
        self.conditions[self.tail] = GateCondition::Elapsed;
        self.functions[self.tail] = then;
        self.durations[self.tail] = duration_nanos;
        self.tail = self.tail + 1;
        self
    }

    /// Marks a gate to run only once: after its last step has run, it runs
    /// nothing more.
    pub fn once(&mut self) -> (r: &mut Self)
        ensures
            *r == (Gate { once: true, ..*old(self) }),
            *final(self) == *final(r),
    {
        self.once = true;
        self
    }

    /// Whether the current step's condition holds at time `now`.
    pub fn ready(&self, now: u64, custom_holds: bool) -> (r: bool)
        requires
            self.well_formed(),
        ensures
            r == self.condition_holds(now, custom_holds),
    {
        match self.conditions[self.current_index] {
            GateCondition::Always => true,
            GateCondition::Elapsed => now > self.target_times[self.current_index],
            GateCondition::Custom(_) => custom_holds,
        }
    }

    /// Moves past the current step at time `now`, and returns the action
    /// of the step that ran.
    pub fn advance(&mut self, now: u64) -> (action: u32)
        requires
            old(self).well_formed(),
            old(self).can_advance(),
            now + old(self).durations@[old(self).next_index()] <= u64::MAX,
        ensures
            final(self).well_formed(),
            old(self).advances(*final(self), now),
            action == old(self).functions@[old(self).current_index as int],
    {
        let action = self.functions[self.current_index];
        self.current_index = self.current_index + 1;
        if self.current_index == self.tail {
            self.current_index = 0;
            if self.once {
                self.finished = true;
            }
        }
        self.target_times[self.current_index] = now + self.durations[self.current_index];
        action
    }

    /// Whether processing at `now` runs the current step: nothing has
    /// finished it, and the step's condition holds.
    pub open spec fn step_due(self, now: u64, custom_holds: bool) -> bool {
        !self.finished && self.condition_holds(now, custom_holds)
    }

    /// Evaluates the current step at time `now`: unless finished, when its
    /// condition holds it moves on and the step's action is returned for
    /// the caller to run; otherwise nothing changes.
    pub fn process(&mut self, now: u64, custom_holds: bool) -> (action: Option<u32>)
        requires
            old(self).well_formed(),
            old(self).step_due(now, custom_holds) ==> old(self).can_advance() && now
                + old(self).durations@[old(self).next_index()] <= u64::MAX,
        ensures
            final(self).well_formed(),
            old(self).step_due(now, custom_holds) ==> action == Some(
                old(self).functions@[old(self).current_index as int],
            ) && old(self).advances(*final(self), now),
            !old(self).step_due(now, custom_holds) ==> action is None && *final(self) == *old(self),
    {
        if self.finished {
            return None;
        }
        if self.ready(now, custom_holds) {
            Some(self.advance(now))
        } else {
            None
        }
    }

    /// The first call marks a gate compiled; later calls process it.
    /// Returns a copy of it and the action that is due, if any.
    pub fn compile(&mut self, now: u64, custom_holds: bool) -> (r: (Gate, Option<u32>))
        requires
            old(self).well_formed(),
            old(self).compiled && old(self).step_due(now, custom_holds) ==> old(self).can_advance() && now
                + old(self).durations@[old(self).next_index()] <= u64::MAX,
        ensures
            final(self).well_formed(),
            r.0 == *final(self),
            !old(self).compiled ==> r.1 is None && *final(self) == (Gate {
                compiled: true,
                ..*old(self)
            }),
            old(self).compiled && old(self).step_due(now, custom_holds) ==> r.1 == Some(
                old(self).functions@[old(self).current_index as int],
            ) && old(self).advances(*final(self), now),
            old(self).compiled && !old(self).step_due(now, custom_holds) ==> r.1 is None
                && *final(self) == *old(self),
    {
        let mut action: Option<u32> = None;
        if self.compiled {
            action = self.process(now, custom_holds);
        } else {
            self.compiled = true;
        }
        (*self, action)
    }
}

/// Steps run in turn and wrap around: from any step of a gate with steps,
/// the next one is the following step, or the first after the last.
pub proof fn lemma_steps_wrap(g: Gate)
    requires
        g.well_formed(),
        g.current_index < g.tail,
    ensures
        g.next_index() == (g.current_index + 1) % (g.tail as int),
        0 <= g.next_index() < g.tail,
        g.can_advance(),
{
    let t = g.tail as int;
    let c = g.current_index as int;
    if c + 1 == t {
        vstd::arithmetic::div_mod::lemma_mod_self_0(t);
    } else {
        vstd::arithmetic::div_mod::lemma_small_mod((c + 1) as nat, t as nat);
    }
}

/// A gate marked `once` runs each step at most once: the step that
/// completes the round leaves it finished, and a finished gate hands back
/// no action and stays as it is, whatever its conditions say.
pub proof fn lemma_once_runs_once(g: Gate, next: Gate, now: u64, later: u64, custom_holds: bool)
    requires
        g.once,
        g.current_index + 1 == g.tail,
        g.advances(next, now),
    ensures
        next.finished,
        !next.step_due(later, custom_holds),
{
}

} // verus!
