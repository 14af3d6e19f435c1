use vstd::prelude::*;

use crate::state::State;
use crate::timeline::TimelineError;

verus! {

/// An error type that is used by any function in the actions-library that
/// can return an error.
pub enum Error<S: State> {
    /// An error concerning a `Timeline`.
    Timeline(TimelineError<S::Error>),
}

impl<S: State> From<TimelineError<S::Error>> for Error<S> {
    /// Wrap a timeline error.
    fn from(source: TimelineError<S::Error>) -> (r: Error<S>)
        ensures
            r == Error::<S>::Timeline(source),
    {
        Error::Timeline(source)
    }
}

impl<S: State> vstd::std_specs::convert::FromSpecImpl<TimelineError<S::Error>> for Error<S> {
    open spec fn obeys_from_spec() -> bool {
        true
    }

    open spec fn from_spec(source: TimelineError<S::Error>) -> Self {
        Error::Timeline(source)
    }
}

} // verus!
