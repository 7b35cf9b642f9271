//! Provides useful extension traits. Okay, currently just [VecLast].
use vstd::prelude::*;

verus! {

/// Extends [Vec] with [VecLast::last()] and [VecLast::last_mut()] methods.
///
/// Both methods return `None` for an empty vector.
pub trait VecLast<T> {
    /// Returns a reference to the last item.
    fn last(&self) -> Option<&T>;

    /// Returns a mutable reference to the last item.
    fn last_mut(&mut self) -> Option<&mut T>;
}

impl<T> VecLast<T> for Vec<T> {
    fn last(&self) -> (item: Option<&T>)
        ensures
            self@.len() == 0 ==> item is None,
            self@.len() > 0 ==> item == Some(&self@.last()),
    {
        let n = self.len();
        if n == 0 {
            None
        } else {
            Some(&self[n - 1])
        }
    }

    fn last_mut(&mut self) -> (item: Option<&mut T>)
        ensures
            old(self)@.len() == 0 ==> item is None && final(self)@ == old(self)@,
            old(self)@.len() > 0 ==> item is Some,
            item matches Some(r) ==> *r == old(self)@.last() && final(self)@ == old(self)@.update(
                old(self)@.len() - 1,
                *final(r),
            ),
    {
        let n = self.len();
        if n == 0 {
            None
        } else {
            Some(&mut self[n - 1])
        }
    }
}

} // verus!
