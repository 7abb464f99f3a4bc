//! Compile-time limits of the kernel that the scheduler depends on.

use vstd::prelude::*;

verus! {

/// Number of system-call ids for which every task keeps a counter.
pub const MAX_SYSCALL_NUM: usize = 500;

/// Stride charged for one dispatch to a task of priority 1; a task of
/// priority `p` is charged `BIG_STRIDE / p`.
pub const BIG_STRIDE: usize = 0x10_0000;

} // verus!
