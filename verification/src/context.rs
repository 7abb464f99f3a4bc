//! The registers a task switch saves and restores.

use vstd::prelude::*;

verus! {

/// Saved execution context of a task that is not running: the return
/// address, the stack pointer and the callee-saved registers. The scheduler
/// carries it along with the task and never looks inside.
#[derive(Clone, Copy, Debug, PartialEq, Eq)]
pub struct TaskContext {
    /// Address at which the task resumes.
    pub ra: usize,
    /// Stack pointer of the task.
    pub sp: usize,
    /// Callee-saved registers.
    pub s: [usize; 12],
}

} // verus!
