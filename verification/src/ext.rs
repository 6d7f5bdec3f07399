//! The cell in which native code keeps a value for the collector.

use vstd::prelude::*;

verus! {

/// A cell that holds one value of the runtime.  The collector reads the
/// cell when it traces, and writes to it when it moves what the value
/// refers to.
#[derive(Debug, PartialEq, Eq)]
pub struct Heap<T> {
    pub ptr: T,
}

/// Making a cell from the value that it is to hold.
pub trait HeapExt<T>: Sized {
    /// The value that the cell holds.
    spec fn held(&self) -> T;

    /// A cell that holds `v`.
    fn new(v: T) -> (r: Self)
        ensures
            r.held() == v,
    ;
}

impl<T> HeapExt<T> for Heap<T> {
    open spec fn held(&self) -> T {
        self.ptr
    }

    fn new(v: T) -> (r: Heap<T>) {
        Heap { ptr: v }
    }
}

} // verus!
