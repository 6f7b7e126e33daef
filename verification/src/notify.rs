//! Which notification a task sends or waits for.
//!
//! A buffer that parks waiting tasks keeps two lists of notifications: one
//! that announces newly posted jobs (dequeuers wait on it) and one that
//! announces newly freed space (enqueuers wait on it).
use vstd::prelude::*;

verus! {

/// One notification of a buffer.
#[derive(Debug, Clone, Copy, PartialEq, Eq, Structural)]
pub enum NotifyTarget {
    /// The job-posted notification at this index.
    JobPost(usize),
    /// The space-freed notification at this index.
    JobSpace(usize),
}

} // verus!
