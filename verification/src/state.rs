use vstd::prelude::*;

verus! {

/// The result of getting an inverse of an action.
pub enum InverseResult<A> where A: Sized {
    /// An action that fully reverses the effect.
    Action(A),
    /// Should be used in the case that it is less expensive to store a full
    /// copy of the original than to revert the action.
    FullCopyRequired,
}

/// State is a trait that should be implemented for any datatype that
/// describes the state of your application.
///
/// An implementer describes the effect of its actions twice: once as the
/// mathematical functions [`State::apply_ok`] (does this action apply
/// successfully to this state?) and [`State::apply_result`] (the state an
/// action leads to when it applies), and once as the executable
/// [`State::apply`], which must behave exactly as those two functions say.
/// Applying an action must be atomic: a failed [`State::apply`] leaves the
/// state unchanged.
pub trait State where Self: Sized {
    /// The type of the Action that describes how this state can be modified.
    /// The action could be of any type but using an `enum` is encouraged.
    type Action;

    /// The type of the Error that can be returned when trying to apply an
    /// action.
    type Error;

    /// Whether `action` applies successfully to this state.
    spec fn apply_ok(self, action: Self::Action) -> bool;

    /// The state that applying `action` to this state leads to.
    /// Meaningful only when [`State::apply_ok`] holds.
    spec fn apply_result(self, action: Self::Action) -> Self;

    /// Apply an action, mutating the state in place.
    ///
    /// # Arguments
    ///
    /// * `action` - Data that describes an action.
    fn apply(&mut self, action: &Self::Action) -> (r: Result<(), Self::Error>)
        ensures
            r is Ok <==> old(self).apply_ok(*action),
            r is Ok ==> *final(self) == old(self).apply_result(*action),
            r is Err ==> *final(self) == *old(self),
    ;

    /// Return an independently owned duplicate of the state.
    ///
    /// The Timeline uses it to store a full copy of the state whenever
    /// [`State::inverse`] declines to produce an inverse action.
    fn snapshot(&self) -> (r: Self)
        ensures
            r == *self,
    ;

    /// Take an action and return the action that undoes that action.
    ///
    /// Implementing the inverse function is optional.
    /// The Timeline uses it to undo actions; a returned inverse must,
    /// applied after its forward action, restore the prior state.
    fn inverse(&self, _action: &Self::Action) -> (r: InverseResult<Self::Action>)
        ensures
            (match r {
                InverseResult::Action(inv) => self.apply_ok(*_action) ==> {
                    &&& self.apply_result(*_action).apply_ok(inv)
                    &&& self.apply_result(*_action).apply_result(inv) == *self
                },
                InverseResult::FullCopyRequired => true,
            }),
    {
        InverseResult::FullCopyRequired
    }
}

} // verus!
