use vstd::prelude::*;

use crate::machine::{
    after_tick, condition_at, gate_open, is_attempted, is_candidate, tick_prefix, tick_result,
    with_current, MachineView, TickPlan,
};
use crate::transition::trigger_fires;

verus! {

/// Every executed step of the first `n` transitions was attempted, and an
/// error names an attempted transition that ends in the wildcard.
proof fn lemma_prefix_facts<H, C>(m: MachineView<H, C>, conditions: Seq<bool>, n: int)
    requires
        0 <= n <= m.transitions.len(),
    ensures
        match tick_prefix(m, conditions, n) {
            Ok(plan) => forall|k: int|
                0 <= k < plan.steps.len() ==> {
                    let s = #[trigger] plan.steps[k];
                    0 <= s.index < n && is_attempted(m, conditions, s.index)
                },
            Err(j) => {
                &&& 0 <= j < n
                &&& is_attempted(m, conditions, j)
                &&& m.transitions[j].end_state is AnyState
            },
        },
    decreases n,
{
    if n > 0 {
        lemma_prefix_facts(m, conditions, n - 1);
    }
}

/// Evaluating more transitions only adds steps after those already taken.
proof fn lemma_prefix_grows<H, C>(m: MachineView<H, C>, conditions: Seq<bool>, k: int, n: int)
    requires
        0 <= k <= n,
        tick_prefix(m, conditions, n) is Ok,
    ensures
        tick_prefix(m, conditions, k) is Ok,
        tick_prefix(m, conditions, k)->Ok_0.steps.len() <= tick_prefix(
            m,
            conditions,
            n,
        )->Ok_0.steps.len(),
        forall|j: int|
            0 <= j < tick_prefix(m, conditions, k)->Ok_0.steps.len() ==> tick_prefix(
                m,
                conditions,
                n,
            )->Ok_0.steps[j] == #[trigger] tick_prefix(m, conditions, k)->Ok_0.steps[j],
    decreases n - k,
{
    if k < n {
        assert(tick_prefix(m, conditions, n - 1) is Ok);
        lemma_prefix_grows(m, conditions, k, n - 1);
    }
}

/// An attempted transition whose destination is a known state is executed,
/// unless the tick ends in an error, which then names another transition.
proof fn lemma_attempted_fires<H, C>(
    m: MachineView<H, C>,
    clip_ended: Option<bool>,
    conditions: Seq<bool>,
    i: int,
)
    requires
        gate_open(m, clip_ended),
        0 <= i < m.transitions.len(),
        is_attempted(m, conditions, i),
        m.transitions[i].end_state is StateName,
        m.states.contains_key(m.transitions[i].end_state->StateName_0@),
    ensures
        match tick_result(m, clip_ended, conditions) {
            Ok(plan) => exists|k: int| 0 <= k < plan.steps.len() && (#[trigger] plan.steps[k]).index == i,
            Err(j) => j != i,
        },
{
    let n = m.transitions.len() as int;
    lemma_prefix_facts(m, conditions, n);
    if tick_prefix(m, conditions, n) is Ok {
        lemma_prefix_grows(m, conditions, i + 1, n);
        assert(tick_prefix(m, conditions, i) is Ok);
        let before = tick_prefix(m, conditions, i)->Ok_0.steps;
        let after = tick_prefix(m, conditions, i + 1)->Ok_0.steps;
        assert(after[before.len() as int].index == i);
        assert(tick_prefix(m, conditions, n)->Ok_0.steps[before.len() as int].index == i);
    }
}

/// A state that no transition leaves, neither by its name nor from any state,
/// is never left: a tick keeps it, whatever the variables and the clip, and
/// asks for nothing. The machine after such a tick is the one before, so the
/// same holds on every later tick.
pub proof fn law_state_without_exit_is_kept<H, C>(
    m: MachineView<H, C>,
    clip_ended: Option<bool>,
    conditions: Seq<bool>,
)
    requires
        forall|i: int| 0 <= i < m.transitions.len() ==> !is_candidate(m, i),
    ensures
        tick_result(m, clip_ended, conditions) == Ok::<TickPlan, int>(
            TickPlan { current: m.current, steps: Seq::empty() },
        ),
{
    lemma_nothing_attempted(m, conditions, m.transitions.len() as int);
}

/// The machine after a run of ticks, each given by whether the clip had
/// ended and what the predicates returned.
pub open spec fn after_ticks<H, C>(
    m: MachineView<H, C>,
    ticks: Seq<(Option<bool>, Seq<bool>)>,
) -> MachineView<H, C>
    decreases ticks.len(),
{
    if ticks.len() == 0 {
        m
    } else {
        let before = after_ticks(m, ticks.drop_last());
        let t = ticks.last();
        after_tick(before, tick_result(before, t.0, t.1))
    }
}

/// A state that no transition leaves, neither by its name nor from any
/// state, is kept through any run of ticks, whatever the variables do.
pub proof fn law_state_without_exit_is_kept_forever<H, C>(
    m: MachineView<H, C>,
    ticks: Seq<(Option<bool>, Seq<bool>)>,
)
    requires
        forall|i: int| 0 <= i < m.transitions.len() ==> !is_candidate(m, i),
    ensures
        after_ticks(m, ticks) == m,
    decreases ticks.len(),
{
    if ticks.len() > 0 {
        law_state_without_exit_is_kept_forever(m, ticks.drop_last());
        let t = ticks.last();
        law_state_without_exit_is_kept(m, t.0, t.1);
        assert(with_current(m, m.current) == m);
    }
}

/// With no candidate transition, the first `n` transitions change nothing.
proof fn lemma_nothing_attempted<H, C>(m: MachineView<H, C>, conditions: Seq<bool>, n: int)
    requires
        n <= m.transitions.len(),
        forall|i: int| 0 <= i < m.transitions.len() ==> !is_candidate(m, i),
    ensures
        tick_prefix(m, conditions, n) == Ok::<TickPlan, int>(
            TickPlan { current: m.current, steps: Seq::empty() },
        ),
    decreases n,
{
    if n > 0 {
        lemma_nothing_attempted(m, conditions, n - 1);
    }
}

/// A transition with an `Always` trigger that leaves the current state, and
/// ends in a known state, is executed on the first tick whose gate is open.
pub proof fn law_always_fires_once_gate_opens<H, C>(
    m: MachineView<H, C>,
    clip_ended: Option<bool>,
    conditions: Seq<bool>,
    i: int,
)
    requires
        gate_open(m, clip_ended),
        0 <= i < m.transitions.len(),
        m.transitions[i].trigger is Always,
        is_candidate(m, i),
        m.transitions[i].end_state is StateName,
        m.states.contains_key(m.transitions[i].end_state->StateName_0@),
    ensures
        match tick_result(m, clip_ended, conditions) {
            Ok(plan) => exists|k: int| 0 <= k < plan.steps.len() && (#[trigger] plan.steps[k]).index == i,
            Err(j) => j != i,
        },
{
    lemma_attempted_fires(m, clip_ended, conditions, i);
}

/// A transition with a `Never` trigger is never executed, and never the cause
/// of an error, whatever the variables.
pub proof fn law_never_does_not_fire<H, C>(
    m: MachineView<H, C>,
    clip_ended: Option<bool>,
    conditions: Seq<bool>,
    i: int,
)
    requires
        0 <= i < m.transitions.len(),
        m.transitions[i].trigger is Never,
    ensures
        match tick_result(m, clip_ended, conditions) {
            Ok(plan) => forall|k: int| 0 <= k < plan.steps.len() ==> (#[trigger] plan.steps[k]).index != i,
            Err(j) => j != i,
        },
{
    lemma_prefix_facts(m, conditions, m.transitions.len() as int);
}

/// While the current state is not interruptible and its clip has not ended,
/// no transition is executed, whatever the triggers say.
pub proof fn law_uninterruptible_state_waits_for_clip<H, C>(
    m: MachineView<H, C>,
    conditions: Seq<bool>,
)
    requires
        m.states.contains_key(m.current),
        !m.states[m.current].interruptible,
    ensures
        tick_result(m, Some(false), conditions) == Ok::<TickPlan, int>(
            TickPlan { current: m.current, steps: Seq::empty() },
        ),
{
}

/// A transition that leaves from any state, whose trigger fires and which
/// ends in a known state, is executed whatever the current state, once the
/// gate is open.
pub proof fn law_wildcard_source_fires_from_any_state<H, C>(
    m: MachineView<H, C>,
    clip_ended: Option<bool>,
    conditions: Seq<bool>,
    i: int,
)
    requires
        gate_open(m, clip_ended),
        0 <= i < m.transitions.len(),
        m.transitions[i].start_state is AnyState,
        trigger_fires(m.transitions[i].trigger, condition_at(conditions, i)),
        m.transitions[i].end_state is StateName,
        m.states.contains_key(m.transitions[i].end_state->StateName_0@),
    ensures
        match tick_result(m, clip_ended, conditions) {
            Ok(plan) => exists|k: int| 0 <= k < plan.steps.len() && (#[trigger] plan.steps[k]).index == i,
            Err(j) => j != i,
        },
{
    lemma_attempted_fires(m, clip_ended, conditions, i);
}

} // verus!
