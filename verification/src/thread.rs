use vstd::prelude::*;

verus! {

/// The typed failure of application-thread setup.
#[derive(Debug)]
pub enum ThreadError {
    ThreadAllocationError(),
}

/// Map a thread-allocation request to its result: the thread handle when
/// the environment produced one, `ThreadAllocationError` when it did not.
pub fn allocate_thread_outcome(raw: Option<u64>) -> (r: Result<u64, ThreadError>)
    ensures
        raw matches Some(t) ==> r == Result::<u64, ThreadError>::Ok(t),
        raw is None ==> r == Result::<u64, ThreadError>::Err(ThreadError::ThreadAllocationError()),
{
    match raw {
        Some(t) => Ok(t),
        None => Err(ThreadError::ThreadAllocationError()),
    }
}

} // verus!
