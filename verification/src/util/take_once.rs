//! Something that is handed out once.
use vstd::prelude::*;

verus! {

/// A value for the first who asks for it, such as a stream that must have
/// exactly one reader. Its view is the value, until it is taken.
pub struct TakeOnce<T> {
    value: Option<T>,
}

impl<T> View for TakeOnce<T> {
    type V = Option<T>;

    closed spec fn view(&self) -> Option<T> {
        self.value
    }
}

impl<T> TakeOnce<T> {
    /// `value`, not taken yet.
    pub fn new(value: T) -> (once: Self)
        ensures
            once@ == Some(value),
    {
        TakeOnce { value: Some(value) }
    }

    /// The value, for the first who asks. `None` from the second call on.
    pub fn take(&mut self) -> (taken: Option<T>)
        ensures
            taken == old(self)@,
            final(self)@ is None,
    {
        self.value.take()
    }
}

} // verus!
