use vstd::prelude::*;

use bevy::utils::HashMap;

use crate::table::entries_map;

verus! {

/// The bits of an `f32` but its sign.
pub open spec fn magnitude_bits(b: u32) -> u32 {
    b & 0x7fff_ffffu32
}

/// The `f32` whose bit pattern is `b` is a NaN.
pub open spec fn is_nan_bits(b: u32) -> bool {
    magnitude_bits(b) > 0x7f80_0000u32
}

/// IEEE 754 equality of the two `f32` values with bit patterns `a` and `b`:
/// a NaN equals nothing, the two zeros are equal, and otherwise the bits must
/// agree.
pub open spec fn f32_bits_eq(a: u32, b: u32) -> bool {
    &&& !is_nan_bits(a)
    &&& !is_nan_bits(b)
    &&& (a == b || (magnitude_bits(a) == 0 && magnitude_bits(b) == 0))
}

/// Compares two `f32` values, given by their bit patterns, as `==` on `f32` does.
pub fn f32_bits_equal(a: u32, b: u32) -> (r: bool)
    ensures
        r == f32_bits_eq(a, b),
{
    let ma = a & 0x7fff_ffffu32;
    let mb = b & 0x7fff_ffffu32;
    ma <= 0x7f80_0000u32 && mb <= 0x7f80_0000u32 && (a == b || (ma == 0 && mb == 0))
}

/// The value of a state machine variable.
pub enum StateMachineVariableType {
    /// Stores a bool
    Bool(bool),
    /// Stores an f32, as its bit pattern (`f32::to_bits`)
    F32(u32),
    /// Stores an i32
    I32(i32),
    /// Stores an u32
    U32(u32),
    /// Stores a String
    String(String),
}

/// Two variable values are equal: same kind, equal payload. Floats compare as
/// `f32` does and text compares by its characters.
pub open spec fn variable_eq(a: StateMachineVariableType, b: StateMachineVariableType) -> bool {
    match (a, b) {
        (StateMachineVariableType::Bool(x), StateMachineVariableType::Bool(y)) => x == y,
        (StateMachineVariableType::F32(x), StateMachineVariableType::F32(y)) => f32_bits_eq(x, y),
        (StateMachineVariableType::I32(x), StateMachineVariableType::I32(y)) => x == y,
        (StateMachineVariableType::U32(x), StateMachineVariableType::U32(y)) => x == y,
        (StateMachineVariableType::String(x), StateMachineVariableType::String(y)) => x@ == y@,
        _ => false,
    }
}

impl StateMachineVariableType {
    /// Tests if the variable is equal to the given value
    pub fn is_bool(&self, value: bool) -> (r: bool)
        ensures
            r == variable_eq(*self, StateMachineVariableType::Bool(value)),
    {
        match self {
            StateMachineVariableType::Bool(x) => *x == value,
            _ => false,
        }
    }

    /// Tests if the variable is equal to the given value
    pub fn is_i32(&self, value: i32) -> (r: bool)
        ensures
            r == variable_eq(*self, StateMachineVariableType::I32(value)),
    {
        match self {
            StateMachineVariableType::I32(x) => *x == value,
            _ => false,
        }
    }

    /// Tests if the variable is equal to the given value
    pub fn is_u32(&self, value: u32) -> (r: bool)
        ensures
            r == variable_eq(*self, StateMachineVariableType::U32(value)),
    {
        match self {
            StateMachineVariableType::U32(x) => *x == value,
            _ => false,
        }
    }

    /// Tests if the variable is equal to the `f32` whose bit pattern is
    /// `value_bits`
    pub fn is_f32(&self, value_bits: u32) -> (r: bool)
        ensures
            r == variable_eq(*self, StateMachineVariableType::F32(value_bits)),
    {
        match self {
            StateMachineVariableType::F32(x) => f32_bits_equal(*x, value_bits),
            _ => false,
        }
    }
}

impl PartialEq for StateMachineVariableType {
    fn eq(&self, other: &Self) -> (r: bool) {
        match (self, other) {
            (StateMachineVariableType::Bool(x), StateMachineVariableType::Bool(y)) => *x == *y,
            (StateMachineVariableType::F32(x), StateMachineVariableType::F32(y)) => f32_bits_equal(
                *x,
                *y,
            ),
            (StateMachineVariableType::I32(x), StateMachineVariableType::I32(y)) => *x == *y,
            (StateMachineVariableType::U32(x), StateMachineVariableType::U32(y)) => *x == *y,
            (StateMachineVariableType::String(x), StateMachineVariableType::String(y)) => *x == *y,
            _ => false,
        }
    }
}

impl vstd::std_specs::cmp::PartialEqSpecImpl for StateMachineVariableType {
    open spec fn obeys_eq_spec() -> bool {
        true
    }

    open spec fn eq_spec(&self, other: &StateMachineVariableType) -> bool {
        variable_eq(*self, *other)
    }
}

impl Clone for StateMachineVariableType {
    fn clone(&self) -> (r: Self)
        ensures
            r == *self,
    {
        match self {
            StateMachineVariableType::Bool(x) => StateMachineVariableType::Bool(*x),
            StateMachineVariableType::F32(x) => StateMachineVariableType::F32(*x),
            StateMachineVariableType::I32(x) => StateMachineVariableType::I32(*x),
            StateMachineVariableType::U32(x) => StateMachineVariableType::U32(*x),
            StateMachineVariableType::String(x) => StateMachineVariableType::String(x.clone()),
        }
    }
}

/// The variables of one state machine, by name, in a bevy `HashMap`.
///
/// The map's type takes an allocator parameter and cannot be declared as it
/// stands, so it is held here; [`variables_of`] names what it holds.
#[verifier::external_body]
pub struct StateMachineVariables {
    map: HashMap<String, StateMachineVariableType>,
}

/// The values that a variable store holds, by name.
pub uninterp spec fn variables_of(v: StateMachineVariables) -> Map<
    Seq<char>,
    StateMachineVariableType,
>;

impl View for StateMachineVariables {
    type V = Map<Seq<char>, StateMachineVariableType>;

    open spec fn view(&self) -> Map<Seq<char>, StateMachineVariableType> {
        variables_of(*self)
    }
}

/// Relies on bevy's `HashMap::default`: a new map holds nothing.
#[verifier::external_body]
fn empty_store() -> (r: StateMachineVariables)
    ensures
        forall|k: Seq<char>| !(#[trigger] variables_of(r).contains_key(k)),
{
    StateMachineVariables { map: HashMap::default() }
}

/// Relies on bevy's `HashMap::insert`: afterwards the map holds `value` for
/// `name` and, for every other name, what it held before.
#[verifier::external_body]
fn store_insert(store: &mut StateMachineVariables, name: String, value: StateMachineVariableType)
    ensures
        variables_of(*final(store)) == variables_of(*old(store)).insert(name@, value),
{
    store.map.insert(name, value);
}

/// Relies on bevy's `HashMap::get`: the value held for `name`, if any.
#[verifier::external_body]
fn store_get<'a>(store: &'a StateMachineVariables, name: &str) -> (r: Option<
    &'a StateMachineVariableType,
>)
    ensures
        match r {
            Some(v) => variables_of(*store).contains_key(name@) && *v == variables_of(*store)[name@],
            None => !variables_of(*store).contains_key(name@),
        },
{
    store.map.get(name)
}

impl StateMachineVariables {
    /// A store with no variables.
    pub fn new() -> (r: Self)
        ensures
            r@ == Map::<Seq<char>, StateMachineVariableType>::empty(),
    {
        let r = empty_store();
        assert(r@ =~= Map::<Seq<char>, StateMachineVariableType>::empty());
        r
    }

    /// The store that setting each entry in turn gives: where a name occurs
    /// more than once, its last value wins.
    pub fn from_entries(entries: &Vec<(String, StateMachineVariableType)>) -> (r: Self)
        ensures
            r@ == entries_map(entries@),
    {
        let mut r = StateMachineVariables::new();
        let mut i: usize = 0;
        while i < entries.len()
            invariant
                i <= entries@.len(),
                r@ == entries_map(entries@.take(i as int)),
            decreases entries@.len() - i,
        {
            let name = entries[i].0.clone();
            let value = entries[i].1.clone();
            store_insert(&mut r, name, value);
            proof {
                assert(entries@.take(i as int + 1).drop_last() =~= entries@.take(i as int));
            }
            i = i + 1;
        }
        assert(entries@.take(entries@.len() as int) =~= entries@);
        r
    }

    /// The value of the variable `name`, if it is set.
    pub fn get(&self, name: &str) -> (r: Option<&StateMachineVariableType>)
        ensures
            match r {
                Some(v) => self@.contains_key(name@) && *v == self@[name@],
                None => !self@.contains_key(name@),
            },
    {
        store_get(self, name)
    }

    /// Whether the variable `name` is set.
    pub fn contains(&self, name: &str) -> (r: bool)
        ensures
            r == self@.contains_key(name@),
    {
        store_get(self, name).is_some()
    }

    /// Sets the variable `name` to `value`, whatever it held before.
    pub fn insert(&mut self, name: String, value: StateMachineVariableType)
        ensures
            final(self)@ == old(self)@.insert(name@, value),
    {
        store_insert(self, name, value);
    }
}

} // verus!
