//! The contract that every policy meets.
use vstd::prelude::*;

verus! {

/// The capability to execute an operation under a policy: the policy calls
/// the operation as often as its rules ask, and hands back what the
/// operation returned last.
///
/// The operation is called at least once, and may be called many times.
pub trait Policy<O: FnMut() -> R, R> {
    /// Executes `operation` under this policy, and hands back the result
    /// of its last call as it is.
    fn execute(&self, operation: O) -> (result: R)
        requires
            call_requires(operation, ()),
        ensures
            call_ensures(operation, (), result),
    ;
}

} // verus!
