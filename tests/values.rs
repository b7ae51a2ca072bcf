use bevy_simple_state_machine::{
    f32_bits_equal, AnimationState, AnimationStateMachine, AnimationStateRef, NamedTable, StateMachineTransition,
    StateMachineTrigger, StateMachineVariableType, StateMachineVariables,
};

fn f(x: f32) -> u32 {
    x.to_bits()
}

#[test]
fn variable_tests_compare_kind_and_value() {
    let b = StateMachineVariableType::Bool(true);
    assert!(b.is_bool(true));
    assert!(!b.is_bool(false));
    assert!(!b.is_u32(1));
    assert!(!b.is_i32(1));

    let i = StateMachineVariableType::I32(-3);
    assert!(i.is_i32(-3));
    assert!(!i.is_i32(3));
    assert!(!i.is_u32(3));

    let u = StateMachineVariableType::U32(7);
    assert!(u.is_u32(7));
    assert!(!u.is_u32(8));
    assert!(!u.is_i32(7));

    let x = StateMachineVariableType::F32(f(1.5));
    assert!(x.is_f32(f(1.5)));
    assert!(!x.is_f32(f(2.5)));
    assert!(!StateMachineVariableType::I32(1).is_f32(f(1.0)));
}

#[test]
fn float_tests_follow_ieee_equality() {
    assert!(f32_bits_equal(f(0.0), f(-0.0)));
    assert!(!f32_bits_equal(f(f32::NAN), f(f32::NAN)));
    assert!(f32_bits_equal(f(f32::INFINITY), f(f32::INFINITY)));
    assert!(!f32_bits_equal(f(f32::INFINITY), f(f32::NEG_INFINITY)));
    assert!(f32_bits_equal(f(3.25), f(3.25)));
    assert!(!f32_bits_equal(f(3.25), f(-3.25)));
    for a in [0.0f32, -0.0, 1.0, -1.0, 0.1, f32::MAX, f32::MIN_POSITIVE, f32::NAN, f32::INFINITY] {
        for b in [0.0f32, -0.0, 1.0, -1.0, 0.1, f32::MAX, f32::MIN_POSITIVE, f32::NAN, f32::INFINITY] {
            assert_eq!(f32_bits_equal(f(a), f(b)), a == b);
        }
    }
}

#[test]
fn variable_equality_is_structural() {
    assert!(StateMachineVariableType::Bool(true) == StateMachineVariableType::Bool(true));
    assert!(StateMachineVariableType::Bool(true) != StateMachineVariableType::I32(1));
    assert!(StateMachineVariableType::I32(1) != StateMachineVariableType::U32(1));
    assert!(StateMachineVariableType::String("a".to_string()) == StateMachineVariableType::String("a".to_string()));
    assert!(StateMachineVariableType::String("a".to_string()) != StateMachineVariableType::String("b".to_string()));
    assert!(StateMachineVariableType::F32(f(0.0)) == StateMachineVariableType::F32(f(-0.0)));
    assert!(StateMachineVariableType::F32(f(f32::NAN)) != StateMachineVariableType::F32(f(f32::NAN)));
    assert!(StateMachineVariableType::U32(4).clone() == StateMachineVariableType::U32(4));
}

#[test]
fn variable_store_inserts_and_overwrites() {
    let mut vars = StateMachineVariables::new();
    assert!(vars.get("run").is_none());
    assert!(!vars.contains("run"));
    vars.insert("run".to_string(), StateMachineVariableType::Bool(false));
    assert!(vars.get("run").unwrap().is_bool(false));
    vars.insert("speed".to_string(), StateMachineVariableType::U32(3));
    vars.insert("run".to_string(), StateMachineVariableType::I32(5));
    assert!(vars.get("run").unwrap().is_i32(5));
    assert!(vars.get("speed").unwrap().is_u32(3));
    assert!(vars.contains("speed"));
    assert!(!vars.contains("jump"));
}

#[test]
fn table_from_entries_keeps_the_last_value() {
    let table = NamedTable::from_entries(vec![
        ("a".to_string(), 1u8),
        ("b".to_string(), 2u8),
        ("a".to_string(), 3u8),
    ]);
    assert_eq!(table.get("a"), Some(&3));
    assert_eq!(table.get("b"), Some(&2));
    assert_eq!(table.get("c"), None);
}

#[test]
fn variable_store_from_entries_keeps_the_last_value() {
    let vars = StateMachineVariables::from_entries(&vec![
        ("run".to_string(), StateMachineVariableType::Bool(true)),
        ("hp".to_string(), StateMachineVariableType::I32(-1)),
        ("run".to_string(), StateMachineVariableType::U32(2)),
    ]);
    assert!(vars.get("run").unwrap().is_u32(2));
    assert!(vars.get("hp").unwrap().is_i32(-1));
    assert!(vars.get("jump").is_none());
}

#[test]
fn machine_update_variable_changes_only_that_variable() {
    let mut sm: AnimationStateMachine<u32, ()> = AnimationStateMachine::new(
        "idle",
        vec![],
        vec![],
        vec![
            ("run".to_string(), StateMachineVariableType::Bool(false)),
            ("hp".to_string(), StateMachineVariableType::U32(10)),
        ],
    );
    sm.update_variable("run", StateMachineVariableType::String("yes".to_string()));
    assert!(sm.variables().get("run").unwrap() == &StateMachineVariableType::String("yes".to_string()));
    assert!(sm.variables().get("hp").unwrap().is_u32(10));
    assert_eq!(sm.current_state_name(), "idle");
}

#[test]
fn state_refs() {
    let any = AnimationStateRef::AnyState;
    let idle = AnimationStateRef::from_string("idle");
    assert!(any.is_any());
    assert!(!idle.is_any());
    assert!(idle == AnimationStateRef::StateName("idle".to_string()));
    assert!(idle != any);
    assert!(idle != AnimationStateRef::from_string("run"));
    assert!(any == AnimationStateRef::AnyState);
    assert_eq!(any.to_string(), "AnyState");
    assert_eq!(idle.to_string(), "idle");
    assert!(any.matches_state(&"run".to_string()));
    assert!(idle.matches_state(&"idle".to_string()));
    assert!(!idle.matches_state(&"run".to_string()));
    assert!(idle.clone() == idle);

    let state = AnimationState { clip: 1u32, name: "jump".to_string(), interruptible: true };
    assert!(state.state_ref() == AnimationStateRef::from_string("jump"));
}

#[test]
fn transition_text_form() {
    let t: StateMachineTransition<()> = StateMachineTransition {
        start_state: AnimationStateRef::AnyState,
        end_state: AnimationStateRef::from_string("run"),
        trigger: StateMachineTrigger::Always,
    };
    assert_eq!(t.to_string(), "StateMachineTransition(AnyState -> run)");
}

#[test]
fn trigger_evaluation() {
    let never: StateMachineTrigger<()> = StateMachineTrigger::Never;
    let always: StateMachineTrigger<()> = StateMachineTrigger::Always;
    let cond: StateMachineTrigger<()> = StateMachineTrigger::from(());
    assert!(!never.evaluate(true));
    assert!(always.evaluate(false));
    assert!(cond.evaluate(true));
    assert!(!cond.evaluate(false));
    assert!(cond.is_condition());
    assert!(!always.is_condition());
}
