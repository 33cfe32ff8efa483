use vstd::prelude::*;

verus! {

/// Size of a virtual or physical page, in bytes.
pub const PAGE_SIZE: usize = 4096;

/// Number of distinct system call ids whose use is counted per task.
pub const MAX_SYSCALL_NUM: usize = 500;

/// Size of each task's user stack, in bytes.
pub const USER_STACK_SIZE: usize = 8192;

/// Size of each task's kernel stack, in bytes.
pub const KERNEL_STACK_SIZE: usize = 8192;

/// Virtual address of the trampoline page, the highest page of every space.
pub const TRAMPOLINE: usize = usize::MAX - PAGE_SIZE + 1;

/// Virtual address of the page that holds a task's trap context.
pub const TRAP_CONTEXT_BASE: usize = TRAMPOLINE - PAGE_SIZE;

} // verus!
