use vstd::prelude::*;

verus! {

/// A state of an [`crate::AnimationStateMachine`]: the clip it plays and
/// whether a transition may leave it before the clip has ended.
///
/// `H` is the handle by which the host refers to a playable clip.
#[derive(Clone, Debug)]
pub struct AnimationState<H> {
    /// Animation clip handle
    pub clip: H,
    /// State name
    pub name: String,
    /// If set to `false`, transitions out of this state wait until its clip has ended
    pub interruptible: bool,
}

impl<H> AnimationState<H> {
    /// A reference to this state, by its name.
    pub fn state_ref(&self) -> (r: AnimationStateRef)
        ensures
            r is StateName,
            r->StateName_0@ == self.name@,
    {
        AnimationStateRef::StateName(self.name.clone())
    }
}

/// Reference to an [`AnimationState`] name
#[derive(Debug)]
pub enum AnimationStateRef {
    /// Wildcard reference
    AnyState,
    /// Reference to a specific state
    StateName(String),
}

/// A transition that leaves from `source` may leave the state named `name`.
pub open spec fn source_matches(source: AnimationStateRef, name: Seq<char>) -> bool {
    match source {
        AnimationStateRef::AnyState => true,
        AnimationStateRef::StateName(n) => n@ == name,
    }
}

/// Two references are equal: both the wildcard, or names with the same characters.
pub open spec fn state_ref_eq(a: AnimationStateRef, b: AnimationStateRef) -> bool {
    match (a, b) {
        (AnimationStateRef::AnyState, AnimationStateRef::AnyState) => true,
        (AnimationStateRef::StateName(x), AnimationStateRef::StateName(y)) => x@ == y@,
        _ => false,
    }
}

impl AnimationStateRef {
    /// Creates a reference to the state named `name`
    pub fn from_string(name: &str) -> (r: Self)
        ensures
            r is StateName,
            r->StateName_0@ == name@,
    {
        AnimationStateRef::StateName(name.to_owned())
    }

    /// The referenced state name; the wildcard names no state.
    pub(crate) fn unwrap(&self) -> (r: &String)
        requires
            self is StateName,
        ensures
            *r == self->StateName_0,
    {
        match self {
            AnimationStateRef::StateName(state) => state,
            AnimationStateRef::AnyState => unreached(),
        }
    }

    /// Tests if self equals to [`AnimationStateRef::AnyState`]
    pub fn is_any(&self) -> (r: bool)
        ensures
            r == (*self is AnyState),
    {
        match self {
            AnimationStateRef::AnyState => true,
            AnimationStateRef::StateName(_) => false,
        }
    }

    /// Whether a transition that leaves from this reference may leave the
    /// state named `name`.
    pub fn matches_state(&self, name: &String) -> (r: bool)
        ensures
            r == source_matches(*self, name@),
    {
        match self {
            AnimationStateRef::AnyState => true,
            AnimationStateRef::StateName(n) => *n == *name,
        }
    }

    /// The characters of the text form of the reference.
    pub open spec fn to_string_spec(&self) -> Seq<char> {
        match *self {
            AnimationStateRef::AnyState => "AnyState"@,
            AnimationStateRef::StateName(n) => n@,
        }
    }

    /// The text form: `AnyState` for the wildcard, else the state name.
    pub fn to_string(&self) -> (r: String)
        ensures
            r@ == self.to_string_spec(),
    {
        match self {
            AnimationStateRef::AnyState => "AnyState".to_owned(),
            AnimationStateRef::StateName(n) => n.clone(),
        }
    }
}

impl Clone for AnimationStateRef {
    fn clone(&self) -> (r: Self)
        ensures
            r == *self,
    {
        match self {
            AnimationStateRef::AnyState => AnimationStateRef::AnyState,
            AnimationStateRef::StateName(n) => AnimationStateRef::StateName(n.clone()),
        }
    }
}

impl PartialEq for AnimationStateRef {
    fn eq(&self, other: &Self) -> (r: bool) {
        match (self, other) {
            (AnimationStateRef::AnyState, AnimationStateRef::AnyState) => true,
            (AnimationStateRef::StateName(x), AnimationStateRef::StateName(y)) => *x == *y,
            _ => false,
        }
    }
}

impl vstd::std_specs::cmp::PartialEqSpecImpl for AnimationStateRef {
    open spec fn obeys_eq_spec() -> bool {
        true
    }

    open spec fn eq_spec(&self, other: &AnimationStateRef) -> bool {
        state_ref_eq(*self, *other)
    }
}

impl Eq for AnimationStateRef {

}

} // verus!
