//! Access to the value that a native structure holds for the runtime.

use vstd::prelude::*;

verus! {

/// A native structure that holds one value of the runtime.
pub trait Rooted<T>: Sized {
    /// The value that is held.
    spec fn rooted(&self) -> T;

    /// The value that is held at present.
    fn get(&self) -> (r: &T)
        ensures
            *r == self.rooted(),
    ;

    /// A reference to hand to calls that only read the value.
    fn handle(&self) -> (r: &T)
        ensures
            *r == self.rooted(),
    ;

    /// A reference to hand to calls that may move the value; what is held
    /// afterwards is what the call left behind the reference.
    fn handle_mut(&mut self) -> (r: &mut T)
        ensures
            *r == old(self).rooted(),
            final(self).rooted() == *final(r),
    ;
}

} // verus!
