//! Errors of the threads of the system.
use vstd::prelude::*;

verus! {

/// An error of creating or inspecting a thread.
#[derive(Debug, Clone, Copy, PartialEq, Eq, Structural)]
pub enum ThreadError {
    /// The memory for the thread could not be allocated.
    AllocationFailed,
    /// The system did not create the thread.
    ThreadCreationFailed,
    /// The thread has no name.
    NullPointer,
    /// A name held a zero byte, at this position.
    InternalZeroByte(usize),
}

impl ThreadError {
    /// The message of the error, which is empty for every error.
    pub fn to_string(&self) -> (r: String)
        ensures
            r@ == Seq::<char>::empty(),
    {
        String::new()
    }
}

} // verus!
