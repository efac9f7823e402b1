//! Retry policies: an operation is called again as long as its result
//! calls for it.
//!
//! A [`PolicyBuilder`] collects the matchers that say which results call
//! for another attempt, and makes a policy: one that grants a fixed number
//! of retries, or one that retries without a budget. A policy may tell an
//! observer of each retry, and make a pause before it. [`Policy::execute`]
//! runs an operation under a policy, and hands back what the operation
//! returned last.
//!
//! The executions are made on a journal, which logs each call of the
//! operation, each notification and each pause: their contracts say which
//! steps were made, and in which order.
use vstd::prelude::*;

pub mod builder;
pub mod laws;
pub mod log;
pub mod matcher;
pub mod observer;
pub mod retry;
pub mod run;
pub mod traits;
pub mod wait;

pub use builder::PolicyBuilder;
pub use traits::Policy;
