//! Scripts that unfold over the steps of a loop: each action of a script
//! runs in one step, a set number of steps after the script began.

use vstd::prelude::*;

verus! {

/// A script's place in time: the number of steps taken so far.
#[derive(Clone)]
pub struct Sequence {
    current: u32,
}

/// One step of a script, in which the actions written behind it are offered
/// to run. It walks along the script and remembers how many steps from the
/// script's beginning the next action is due.
pub struct SecuenceExecuter<'s, 'c, S, C> {
    pub before: u32,
    pub now: u32,
    pub execute_at_step: u32,
    pub state: &'s mut S,
    pub context: &'c mut C,
}

impl Sequence {
    /// The number of steps taken so far.
    pub closed spec fn steps_taken(&self) -> u32 {
        self.current
    }

    pub fn new() -> (sequence: Sequence)
        ensures
            sequence.steps_taken() == 0,
    {
        Sequence { current: 0 }
    }

    /// Takes one step and opens the script for it, at the script's
    /// beginning.
    pub fn step<'s, 'c, S, C>(&mut self, state: &'s mut S, context: &'c mut C) -> (executer:
        SecuenceExecuter<'s, 'c, S, C>)
        requires
            old(self).steps_taken() < u32::MAX,
        ensures
            final(self).steps_taken() == old(self).steps_taken() + 1,
            executer.before == old(self).steps_taken(),
            executer.now == old(self).steps_taken() + 1,
            executer.execute_at_step == 0,
            *executer.state == *old(state),
            *executer.context == *old(context),
            *final(state) == *final(executer.state),
            *final(context) == *final(executer.context),
    {
        self.current += 1;
        SecuenceExecuter {
            state,
            context,
            execute_at_step: 0,
            before: self.current - 1,
            now: self.current,
        }
    }
}

impl<'s, 'c, S, C> SecuenceExecuter<'s, 'c, S, C> {
    /// Whether the action at this place of the script runs in this step.
    pub open spec fn due(&self) -> bool {
        self.before <= self.execute_at_step < self.now
    }

    /// Runs `c` on the state and the context if this is its step, and not at
    /// all otherwise.
    pub fn then<F>(self, c: F) -> (executer: Self) where F: FnOnce(&mut S, &mut C)
        requires
            self.due() ==> forall|state: &mut S, context: &mut C|
                *state == *self.state && *context == *self.context ==> call_requires(
                    c,
                    (state, context),
                ),
        ensures
            executer.before == self.before,
            executer.now == self.now,
            executer.execute_at_step == self.execute_at_step,
            *final(executer.state) == *final(self.state),
            *final(executer.context) == *final(self.context),
            !self.due() ==> *executer.state == *old(self.state) && *executer.context == *old(
                self.context,
            ),
            self.due() ==> exists|state: &mut S, context: &mut C|
                {
                    &&& *state == *old(self.state)
                    &&& *context == *old(self.context)
                    &&& *final(state) == *executer.state
                    &&& *final(context) == *executer.context
                    &&& call_ensures(c, (state, context), ())
                },
    {
        if self.before <= self.execute_at_step && self.execute_at_step < self.now {
            c(self.state, self.context);
        }
        SecuenceExecuter { ..self }
    }

    /// Moves `steps` steps on in the script.
    pub fn wait(self, steps: u32) -> (executer: Self)
        requires
            self.execute_at_step + steps <= u32::MAX,
        ensures
            executer.before == self.before,
            executer.now == self.now,
            executer.execute_at_step == self.execute_at_step + steps,
            *executer.state == *old(self.state),
            *executer.context == *old(self.context),
            *final(executer.state) == *final(self.state),
            *final(executer.context) == *final(self.context),
    {
        SecuenceExecuter { execute_at_step: self.execute_at_step + steps, ..self }
    }
}

} // verus!
