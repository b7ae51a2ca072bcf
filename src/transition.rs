use vstd::prelude::*;

use crate::state::AnimationStateRef;

verus! {

/// Trigger condition for a [`StateMachineTransition`]
///
///  - Never: the transition is never executed
///  - Always: the transition is executed once its source state may be left
///  - Condition: the transition is executed once the given predicate over the
///    state machine variables holds; `C` is the predicate's type, which the
///    host evaluates
#[derive(Clone)]
pub enum StateMachineTrigger<C> {
    /// The transition is never executed
    Never,
    /// The transition is always executed. This happens on the next tick or once the previous animation has concluded
    Always,
    /// The transition is executed once the given predicate evaluates to `true`
    Condition(C),
}

/// Whether `trigger` fires, given what its predicate returned on the current
/// variables (`condition`, which only a `Condition` trigger reads).
pub open spec fn trigger_fires<C>(trigger: StateMachineTrigger<C>, condition: bool) -> bool {
    match trigger {
        StateMachineTrigger::Never => false,
        StateMachineTrigger::Always => true,
        StateMachineTrigger::Condition(_) => condition,
    }
}

impl<C> StateMachineTrigger<C> {
    /// Creates a new [`StateMachineTrigger::Condition`] from the given predicate
    pub fn from(f: C) -> (r: Self)
        ensures
            r == StateMachineTrigger::Condition(f),
    {
        StateMachineTrigger::Condition(f)
    }

    /// Evaluates the trigger, where `condition` is what a `Condition`'s
    /// predicate returned on the current variables
    pub fn evaluate(&self, condition: bool) -> (r: bool)
        ensures
            r == trigger_fires(*self, condition),
    {
        match self {
            StateMachineTrigger::Never => false,
            StateMachineTrigger::Always => true,
            StateMachineTrigger::Condition(_) => condition,
        }
    }

    /// Whether the trigger is a `Condition`, whose predicate the host evaluates
    pub fn is_condition(&self) -> (r: bool)
        ensures
            r == (*self is Condition),
    {
        match self {
            StateMachineTrigger::Condition(_) => true,
            _ => false,
        }
    }
}

/// Transition from [`crate::AnimationState`] A to [`crate::AnimationState`] B
#[derive(Clone)]
pub struct StateMachineTransition<C> {
    /// Reference to the starting state
    pub start_state: AnimationStateRef,
    /// Reference to the end state
    ///
    /// ## Note
    /// Do not set this to [`AnimationStateRef::AnyState`]: taking such a
    /// transition is refused with an error
    pub end_state: AnimationStateRef,
    /// Transition trigger condition
    pub trigger: StateMachineTrigger<C>,
}

impl<C> StateMachineTransition<C> {
    /// The text form: `StateMachineTransition(<start> -> <end>)`.
    pub fn to_string(&self) -> (r: String)
        ensures
            r@ == "StateMachineTransition("@ + self.start_state.to_string_spec() + " -> "@
                + self.end_state.to_string_spec() + ")"@,
    {
        let start = self.start_state.to_string();
        let end = self.end_state.to_string();
        let r = "StateMachineTransition(".to_owned().concat(start.as_str()).concat(
            " -> ",
        ).concat(end.as_str()).concat(")");
        r
    }
}

} // verus!
