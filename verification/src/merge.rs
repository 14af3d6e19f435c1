use vstd::prelude::*;

verus! {

/// The result of trying to merge two actions.
pub enum MergeResult<Action: Sized> {
    /// The action cancels out the effect of the previous action.
    CancelsOut,
    /// The actions cannot be merged.
    Unmergable,
    /// The action fully overwrites the whole state.
    /// In this case, it does not matter how the previous
    /// action influenced the state. It is overwritten anyway.
    Overwrites,
    /// The actions are merged into one action.
    Merged(Action),
}

/// Trait that enables actions to merge actions.
///
/// An implementer provides the merge relation twice: once as the
/// mathematical relation [`Merge::merge_spec`], and once as the executable
/// [`Merge::merge`], which must return exactly what the relation says.
pub trait Merge where Self: Sized {
    /// The merge relation as a mathematical function.
    ///
    /// The `previous` action is understood to execute first, then `self`.
    spec fn merge_spec(self, previous: Self) -> MergeResult<Self>;

    /// Merge two actions.
    /// Caution! The order of actions matters!
    /// **The _previous_ action is executed first, then &self.**
    ///
    /// # Arguments
    /// previous: The previous action.
    fn merge(&self, previous: &Self) -> (r: MergeResult<Self>)
        ensures
            r == self.merge_spec(*previous),
    ;
}

} // verus!
