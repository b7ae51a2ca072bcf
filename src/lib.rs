//! An animation state machine: named states bound to clips, transitions
//! between them guarded by triggers over a store of typed variables, and the
//! per-tick rule that decides which transitions fire.
//!
//! The host (an ECS scheduler, an animation player, an event bus) stays
//! outside: each tick it tells the machine whether the current clip has ended
//! and what the transition predicates returned, and receives the clips to play
//! and the events to publish.

mod table;
mod variables;
mod state;
mod transition;
mod machine;
mod laws;

pub use table::{entries_map, NamedTable};

pub use variables::{
    f32_bits_eq, f32_bits_equal, is_nan_bits, magnitude_bits, variable_eq, variables_of,
    StateMachineVariableType, StateMachineVariables,
};

pub use state::{source_matches, state_ref_eq, AnimationState, AnimationStateRef};

pub use transition::{trigger_fires, StateMachineTransition, StateMachineTrigger};

pub use machine::{
    after_tick, animation_finished, clip_finished, command_matches, condition_at, gate_open,
    is_attempted, is_candidate, tick_prefix, tick_result, with_current, AnimationStateMachine,
    MachineView, TickPlan, TickStep, TransitionCommand, TransitionEndedEvent, WildcardDestination,
};

pub use laws::{
    after_ticks, law_always_fires_once_gate_opens, law_never_does_not_fire,
    law_state_without_exit_is_kept, law_state_without_exit_is_kept_forever,
    law_uninterruptible_state_waits_for_clip, law_wildcard_source_fires_from_any_state,
};
