//! The limiter's error taxonomy.

use vstd::prelude::*;

verus! {

/// Either an error from the wrapped service or a report that the request was
/// shed. `Overload` is a reserved shedding class that no current code path
/// produces: both the queue-sizer rejection and a full queue surface as
/// `QueueFull`.
#[derive(Debug)]
pub enum LoadShedError<T> {
    Inner(T),
    QueueFull,
    Overload,
}

impl<T> LoadShedError<T> {
    /// Whether the request was shed by the limiter rather than failed by the
    /// wrapped service.
    pub fn is_shed(&self) -> (r: bool)
        ensures
            r == !(self is Inner),
    {
        match self {
            LoadShedError::Inner(_) => false,
            LoadShedError::QueueFull => true,
            LoadShedError::Overload => true,
        }
    }
}

} // verus!
