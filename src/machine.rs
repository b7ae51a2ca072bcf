use vstd::prelude::*;

use crate::state::{source_matches, AnimationState, AnimationStateRef};
use crate::table::{entries_map, NamedTable};
use crate::transition::{trigger_fires, StateMachineTransition};
use crate::variables::{StateMachineVariableType, StateMachineVariables};

verus! {

/// What an [`AnimationStateMachine`] holds, as mathematical values.
pub struct MachineView<H, C> {
    /// Name of the current state
    pub current: Seq<char>,
    /// The states, by name
    pub states: Map<Seq<char>, AnimationState<H>>,
    /// The transitions, in declared order
    pub transitions: Seq<StateMachineTransition<C>>,
    /// The variables, by name
    pub variables: Map<Seq<char>, StateMachineVariableType>,
}

/// Main state machine: the current state, the states, the transitions and the
/// variables of one entity.
///
/// `H` is the host's clip handle and `C` the type of the host's transition
/// predicates.
pub struct AnimationStateMachine<H, C> {
    current_state: String,
    states: NamedTable<AnimationState<H>>,
    transitions: Vec<StateMachineTransition<C>>,
    variables: StateMachineVariables,
}

impl<H, C> View for AnimationStateMachine<H, C> {
    type V = MachineView<H, C>;

    closed spec fn view(&self) -> MachineView<H, C> {
        MachineView {
            current: self.current_state@,
            states: self.states@,
            transitions: self.transitions@,
            variables: self.variables@,
        }
    }
}

/// Event emitted once a [`StateMachineTransition`] has been executed
///
/// ## Note
/// Transitions conclude on the same tick they are triggered
#[derive(Clone, Debug)]
pub struct TransitionEndedEvent<E> {
    /// The entity on which the transition has been executed
    pub entity: E,
    /// Reference to the origin [`AnimationState`]
    pub origin: AnimationStateRef,
    /// Reference to the end [`AnimationState`]
    pub end: AnimationStateRef,
}

/// What one executed transition asks of the host, in this order: play `clip`
/// on the entity's animation player, then publish `event`.
#[derive(Clone, Debug)]
pub struct TransitionCommand<H, E> {
    /// The clip of the state entered
    pub clip: H,
    /// The notification of the transition
    pub event: TransitionEndedEvent<E>,
}

/// A transition whose trigger fired ends in the wildcard: the machine's
/// configuration is malformed.
#[derive(Clone, Copy, Debug, PartialEq, Eq, Structural)]
pub struct WildcardDestination {
    /// Position of the transition in the declared order
    pub transition: usize,
}

/// One executed transition of a tick, in the model.
pub struct TickStep {
    /// Position of the transition in the declared order
    pub index: int,
    /// Name of the current state just before the transition
    pub origin: Seq<char>,
    /// Name under which the state entered is found
    pub target: Seq<char>,
}

/// The outcome of a tick, in the model.
pub struct TickPlan {
    /// Name of the current state after the tick
    pub current: Seq<char>,
    /// The executed transitions, in order
    pub steps: Seq<TickStep>,
}

/// Whether a clip has ended: `clip_ended` is `None` where the clip could not
/// be resolved, which counts as ended, else whether the player's elapsed
/// time has reached the clip's duration.
pub open spec fn clip_finished(clip_ended: Option<bool>) -> bool {
    match clip_ended {
        None => true,
        Some(b) => b,
    }
}

/// Transitions may be attempted on this tick: the current state is known, and
/// it is interruptible or its clip has ended.
pub open spec fn gate_open<H, C>(m: MachineView<H, C>, clip_ended: Option<bool>) -> bool {
    &&& m.states.contains_key(m.current)
    &&& (m.states[m.current].interruptible || clip_finished(clip_ended))
}

/// What the predicate of transition `i` returned; positions past the end of
/// `conditions` read as `false`.
pub open spec fn condition_at(conditions: Seq<bool>, i: int) -> bool {
    0 <= i < conditions.len() && conditions[i]
}

/// Transition `i` leaves the state the tick started in, or any state.
pub open spec fn is_candidate<H, C>(m: MachineView<H, C>, i: int) -> bool {
    source_matches(m.transitions[i].start_state, m.current)
}

/// Transition `i` leaves the state the tick started in, and its trigger fires.
pub open spec fn is_attempted<H, C>(m: MachineView<H, C>, conditions: Seq<bool>, i: int) -> bool {
    &&& is_candidate(m, i)
    &&& trigger_fires(m.transitions[i].trigger, condition_at(conditions, i))
}

/// The tick's evaluation of the first `n` transitions, in declared order:
/// the plan so far, or the position of an attempted transition that ends in
/// the wildcard.
pub open spec fn tick_prefix<H, C>(m: MachineView<H, C>, conditions: Seq<bool>, n: int) -> Result<
    TickPlan,
    int,
>
    decreases n,
{
    if n <= 0 {
        Ok(TickPlan { current: m.current, steps: Seq::empty() })
    } else {
        match tick_prefix(m, conditions, n - 1) {
            Err(e) => Err(e),
            Ok(plan) => {
                let i = n - 1;
                if !is_attempted(m, conditions, i) {
                    Ok(plan)
                } else {
                    match m.transitions[i].end_state {
                        AnimationStateRef::AnyState => Err(i),
                        AnimationStateRef::StateName(d) => if m.states.contains_key(d@) {
                            Ok(
                                TickPlan {
                                    current: m.states[d@].name@,
                                    steps: plan.steps.push(
                                        TickStep { index: i, origin: plan.current, target: d@ },
                                    ),
                                },
                            )
                        } else {
                            Ok(plan)
                        },
                    }
                }
            },
        }
    }
}

/// Once an attempted transition ends in the wildcard, the tick's outcome is
/// that error.
proof fn lemma_error_persists<H, C>(m: MachineView<H, C>, conditions: Seq<bool>, k: int, n: int)
    requires
        k <= n,
        tick_prefix(m, conditions, k) is Err,
    ensures
        tick_prefix(m, conditions, n) == tick_prefix(m, conditions, k),
    decreases n - k,
{
    if n > k {
        lemma_error_persists(m, conditions, k, n - 1);
    }
}

/// The outcome of one tick of machine `m`.
pub open spec fn tick_result<H, C>(
    m: MachineView<H, C>,
    clip_ended: Option<bool>,
    conditions: Seq<bool>,
) -> Result<TickPlan, int> {
    if gate_open(m, clip_ended) {
        tick_prefix(m, conditions, m.transitions.len() as int)
    } else {
        Ok(TickPlan { current: m.current, steps: Seq::empty() })
    }
}

/// `c` is what executed step `s` of machine `m` asks of the host for `entity`.
pub open spec fn command_matches<H: Clone, C, E>(
    m: MachineView<H, C>,
    entity: E,
    s: TickStep,
    c: TransitionCommand<H, E>,
) -> bool {
    &&& cloned(m.states[s.target].clip, c.clip)
    &&& c.event.entity == entity
    &&& c.event.origin is StateName
    &&& c.event.origin->StateName_0@ == s.origin
    &&& c.event.end == m.transitions[s.index].end_state
}

/// The machine `m` with its current state set to `current`.
pub open spec fn with_current<H, C>(m: MachineView<H, C>, current: Seq<char>) -> MachineView<
    H,
    C,
> {
    MachineView { current, ..m }
}

/// The machine after a tick with outcome `outcome`: on success the current
/// state is the plan's, on error nothing changes.
pub open spec fn after_tick<H, C>(m: MachineView<H, C>, outcome: Result<TickPlan, int>) -> MachineView<
    H,
    C,
> {
    match outcome {
        Ok(plan) => with_current(m, plan.current),
        Err(_) => m,
    }
}

/// Positions below `i` that satisfy `keep` were collected in increasing
/// order; considering `i` as well keeps it so.
proof fn lemma_collect_step(
    before: Seq<usize>,
    after: Seq<usize>,
    i: usize,
    n: int,
    keep: spec_fn(int) -> bool,
)
    requires
        i < n <= usize::MAX,
        forall|k: int| 0 <= k < before.len() ==> (#[trigger] before[k]) < i,
        forall|k: int, l: int| 0 <= k < l < before.len() ==> before[k] < before[l],
        forall|j: int| 0 <= j < n ==> (#[trigger] before.contains(j as usize) <==> (j < i && keep(j))),
        after == (if keep(i as int) {
            before.push(i)
        } else {
            before
        }),
    ensures
        forall|k: int| 0 <= k < after.len() ==> (#[trigger] after[k]) < i + 1,
        forall|k: int, l: int| 0 <= k < l < after.len() ==> after[k] < after[l],
        forall|j: int|
            0 <= j < n ==> (#[trigger] after.contains(j as usize) <==> (j < i + 1 && keep(j))),
{
    assert forall|j: int| 0 <= j < n implies (#[trigger] after.contains(j as usize) <==> (j < i + 1
        && keep(j))) by {
        if after.contains(j as usize) {
            let k = choose|k: int| 0 <= k < after.len() && after[k] == j as usize;
            if k < before.len() {
                assert(before[k] == after[k]);
                assert(before.contains(j as usize));
            }
        }
        if j == i && keep(j) {
            assert(after[before.len() as int] == i);
        }
        if j < i && keep(j) {
            assert(before.contains(j as usize));
            let k = choose|k: int| 0 <= k < before.len() && before[k] == j as usize;
            assert(after[k] == j as usize);
        }
    }
}

/// Whether the current state's clip has ended; see [`clip_finished`].
pub fn animation_finished(clip_ended: Option<bool>) -> (r: bool)
    ensures
        r == clip_finished(clip_ended),
{
    match clip_ended {
        Some(b) => b,
        None => true,
    }
}

impl<H, C> AnimationStateMachine<H, C> {
    /// Creates a new [`AnimationStateMachine`]; where a name occurs twice in
    /// `states` or `variables`, the later entry wins.
    pub fn new(
        current_state: &str,
        states: Vec<(String, AnimationState<H>)>,
        transitions: Vec<StateMachineTransition<C>>,
        variables: Vec<(String, StateMachineVariableType)>,
    ) -> (r: Self)
        ensures
            r@.current == current_state@,
            r@.states == entries_map(states@),
            r@.transitions == transitions@,
            r@.variables == entries_map(variables@),
    {
        AnimationStateMachine {
            current_state: current_state.to_owned(),
            states: NamedTable::from_entries(states),
            transitions,
            variables: StateMachineVariables::from_entries(&variables),
        }
    }

    /// Name of the current state
    pub fn current_state_name(&self) -> (r: &String)
        ensures
            r@ == self@.current,
    {
        &self.current_state
    }

    /// The current state, if its name is that of a known state
    pub fn current_state(&self) -> (r: Option<&AnimationState<H>>)
        ensures
            match r {
                Some(s) => self@.states.contains_key(self@.current) && *s == self@.states[self@.current],
                None => !self@.states.contains_key(self@.current),
            },
    {
        self.get_state(&self.current_state)
    }

    /// The state named `state_name`, if there is one
    pub fn get_state(&self, state_name: &String) -> (r: Option<&AnimationState<H>>)
        ensures
            match r {
                Some(s) => self@.states.contains_key(state_name@) && *s == self@.states[state_name@],
                None => !self@.states.contains_key(state_name@),
            },
    {
        self.states.get(state_name.as_str())
    }

    /// The transitions, in declared order
    pub fn transitions(&self) -> (r: &Vec<StateMachineTransition<C>>)
        ensures
            r@ == self@.transitions,
    {
        &self.transitions
    }

    /// The variables
    pub fn variables(&self) -> (r: &StateMachineVariables)
        ensures
            r@ == self@.variables,
    {
        &self.variables
    }

    /// Positions, in declared order, of the transitions that may leave the
    /// state named `state_name`: those that leave from it or from any state
    pub fn transitions_from_state(&self, state_name: &String) -> (r: Vec<usize>)
        ensures
            forall|k: int| 0 <= k < r@.len() ==> (#[trigger] r@[k]) < self@.transitions.len(),
            forall|k: int, l: int| 0 <= k < l < r@.len() ==> r@[k] < r@[l],
            forall|i: int|
                0 <= i < self@.transitions.len() ==> (r@.contains(i as usize) <==> source_matches(
                    #[trigger] self@.transitions[i].start_state,
                    state_name@,
                )),
    {
        let mut r: Vec<usize> = Vec::new();
        let mut i: usize = 0;
        while i < self.transitions.len()
            invariant
                i <= self.transitions@.len(),
                forall|k: int| 0 <= k < r@.len() ==> (#[trigger] r@[k]) < i,
                forall|k: int, l: int| 0 <= k < l < r@.len() ==> r@[k] < r@[l],
                forall|j: int|
                    0 <= j < self.transitions@.len() ==> (r@.contains(j as usize) <==> (j < i
                        && source_matches(#[trigger] self.transitions@[j].start_state, state_name@))),
            decreases self.transitions@.len() - i,
        {
            let ghost before = r@;
            if self.transitions[i].start_state.matches_state(state_name) {
                r.push(i);
            }
            proof {
                lemma_collect_step(
                    before,
                    r@,
                    i,
                    self.transitions@.len() as int,
                    |j: int| source_matches(self.transitions@[j].start_state, state_name@),
                );
            }
            i = i + 1;
        }
        r
    }

    /// Positions, in declared order, of the transitions that may leave the
    /// current state
    pub fn transitions_from_current_state(&self) -> (r: Vec<usize>)
        ensures
            forall|k: int| 0 <= k < r@.len() ==> (#[trigger] r@[k]) < self@.transitions.len(),
            forall|k: int, l: int| 0 <= k < l < r@.len() ==> r@[k] < r@[l],
            forall|i: int|
                0 <= i < self@.transitions.len() ==> (r@.contains(i as usize) <==> is_candidate(
                    self@,
                    i,
                )),
    {
        self.transitions_from_state(&self.current_state)
    }

    /// Updates the value of the given variable
    pub fn update_variable(&mut self, name: &str, value: StateMachineVariableType)
        ensures
            final(self)@ == (MachineView {
                variables: old(self)@.variables.insert(name@, value),
                ..old(self)@
            }),
    {
        self.variables.insert(name.to_owned(), value);
    }
}

impl<H: Clone, C> AnimationStateMachine<H, C> {
    /// The clip to play when the machine is first attached to its entity: that
    /// of the current state, if the state is known. Nothing changes and no
    /// transition is reported.
    pub fn initial_clip(&self) -> (r: Option<H>)
        ensures
            match r {
                Some(c) => self@.states.contains_key(self@.current) && cloned(
                    self@.states[self@.current].clip,
                    c,
                ),
                None => !self@.states.contains_key(self@.current),
            },
    {
        match self.current_state() {
            Some(s) => Some(s.clip.clone()),
            None => None,
        }
    }

    /// Positions, in declared order, of the transitions whose predicates are
    /// to be evaluated for the coming tick: the candidates with a `Condition`
    /// trigger if transitions may be attempted, else none.
    pub fn conditions_to_evaluate(&self, clip_ended: Option<bool>) -> (r: Vec<usize>)
        ensures
            forall|k: int| 0 <= k < r@.len() ==> (#[trigger] r@[k]) < self@.transitions.len(),
            forall|k: int, l: int| 0 <= k < l < r@.len() ==> r@[k] < r@[l],
            forall|i: int|
                0 <= i < self@.transitions.len() ==> (r@.contains(i as usize) <==> (gate_open(
                    self@,
                    clip_ended,
                ) && is_candidate(self@, i) && (#[trigger] self@.transitions[i]).trigger is Condition)),
    {
        let mut r: Vec<usize> = Vec::new();
        let gate = match self.current_state() {
            None => false,
            Some(current) => current.interruptible || animation_finished(clip_ended),
        };
        if !gate {
            return r;
        }
        let mut i: usize = 0;
        while i < self.transitions.len()
            invariant
                gate_open(self@, clip_ended),
                i <= self.transitions@.len(),
                forall|k: int| 0 <= k < r@.len() ==> (#[trigger] r@[k]) < i,
                forall|k: int, l: int| 0 <= k < l < r@.len() ==> r@[k] < r@[l],
                forall|j: int|
                    0 <= j < self.transitions@.len() ==> (r@.contains(j as usize) <==> (j < i
                        && is_candidate(self@, j) && (#[trigger] self.transitions@[j]).trigger is Condition)),
            decreases self.transitions@.len() - i,
        {
            let ghost before = r@;
            let transition = &self.transitions[i];
            if transition.start_state.matches_state(&self.current_state)
                && transition.trigger.is_condition() {
                r.push(i);
            }
            proof {
                lemma_collect_step(
                    before,
                    r@,
                    i,
                    self.transitions@.len() as int,
                    |j: int| is_candidate(self@, j) && self.transitions@[j].trigger is Condition,
                );
            }
            i = i + 1;
        }
        r
    }

    /// Runs one tick for `entity`.
    ///
    /// `clip_ended` tells whether the current state's clip has ended (see
    /// [`clip_finished`]); `conditions[i]` is what the predicate of transition
    /// `i` returned on the current variables, where that transition is a
    /// candidate with a `Condition` trigger (other positions are not read).
    ///
    /// The candidates are the transitions that leave the state the tick
    /// started in, or any state, taken in declared order; each one whose
    /// trigger fires and whose end is a known state is executed, so that
    /// several may follow one another within a tick.
    ///
    /// Returns what the executed transitions ask of the host, in order. If an
    /// attempted transition ends in the wildcard, nothing changes and that
    /// transition is reported.
    pub fn check_transitions<E: Copy>(
        &mut self,
        entity: E,
        clip_ended: Option<bool>,
        conditions: &Vec<bool>,
    ) -> (r: Result<Vec<TransitionCommand<H, E>>, WildcardDestination>)
        ensures
            final(self)@ == after_tick(old(self)@, tick_result(old(self)@, clip_ended, conditions@)),
            match tick_result(old(self)@, clip_ended, conditions@) {
                Ok(plan) => {
                    &&& r is Ok
                    &&& r->Ok_0@.len() == plan.steps.len()
                    &&& forall|k: int|
                        0 <= k < plan.steps.len() ==> command_matches(
                            old(self)@,
                            entity,
                            #[trigger] plan.steps[k],
                            r->Ok_0@[k],
                        )
                },
                Err(i) => {
                    &&& r == Err::<Vec<TransitionCommand<H, E>>, _>(
                        WildcardDestination { transition: i as usize },
                    )
                    &&& 0 <= i < old(self)@.transitions.len()
                },
            },
    {
        let ghost m = self@;
        let mut commands: Vec<TransitionCommand<H, E>> = Vec::new();
        let gate = match self.current_state() {
            None => false,
            Some(current) => current.interruptible || animation_finished(clip_ended),
        };
        if !gate {
            assert(commands@ =~= Seq::<TransitionCommand<H, E>>::empty());
            return Ok(commands);
        }
        let mut cur = self.current_state.clone();
        let mut i: usize = 0;
        while i < self.transitions.len()
            invariant
                self@ == m,
                gate_open(m, clip_ended),
                0 <= i <= m.transitions.len(),
                tick_prefix(m, conditions@, i as int) is Ok,
                tick_prefix(m, conditions@, i as int)->Ok_0.current == cur@,
                commands@.len() == tick_prefix(m, conditions@, i as int)->Ok_0.steps.len(),
                forall|k: int|
                    0 <= k < commands@.len() ==> command_matches(
                        m,
                        entity,
                        #[trigger] tick_prefix(m, conditions@, i as int)->Ok_0.steps[k],
                        commands@[k],
                    ),
            decreases m.transitions.len() - i,
        {
            let transition = &self.transitions[i];
            let condition = i < conditions.len() && conditions[i];
            if transition.start_state.matches_state(&self.current_state)
                && transition.trigger.evaluate(condition) {
                if transition.end_state.is_any() {
                    proof {
                        lemma_error_persists(
                            m,
                            conditions@,
                            i as int + 1,
                            m.transitions.len() as int,
                        );
                    }
                    return Err(WildcardDestination { transition: i });
                }
                let end_name = transition.end_state.unwrap();
                match self.get_state(end_name) {
                    Some(next_state) => {
                        let command = TransitionCommand {
                            clip: next_state.clip.clone(),
                            event: TransitionEndedEvent {
                                entity,
                                origin: AnimationStateRef::StateName(cur.clone()),
                                end: transition.end_state.clone(),
                            },
                        };
                        let ghost before = commands@;
                        commands.push(command);
                        cur = next_state.name.clone();
                        proof {
                            let steps = tick_prefix(m, conditions@, i as int + 1)->Ok_0.steps;
                            assert(steps == tick_prefix(m, conditions@, i as int)->Ok_0.steps.push(
                                steps.last(),
                            ));
                            assert forall|k: int| 0 <= k < commands@.len() implies command_matches(
                                m,
                                entity,
                                #[trigger] steps[k],
                                commands@[k],
                            ) by {
                                if k < before.len() {
                                    assert(commands@[k] == before[k]);
                                }
                            }
                        }
                    },
                    None => {},
                }
            }
            i = i + 1;
        }
        self.current_state = cur;
        Ok(commands)
    }
}

} // verus!
