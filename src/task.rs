use vstd::prelude::*;
use crate::config::{KERNEL_STACK_SIZE, MAX_SYSCALL_NUM, PAGE_SIZE, TRAMPOLINE};
use crate::mm::{
    MapArea, MemorySet, ProgramImage, PERM_R, PERM_U, PERM_W, area_of, areas_wf, can_grow, can_shrink, fits,
    has_span, image_ok, lemma_push_fits, lemma_span_unique, removed_span, resized, spans,
    stack_top_vpn, user_layout, vpn_ceil, vpn_floor,
};

verus! {

/// Life-cycle state of a task.
#[derive(Clone, Copy, Debug, PartialEq, Eq, Structural)]
pub enum TaskStatus {
    /// not yet schedulable
    UnInit,
    /// eligible to run
    Ready,
    /// running on the processor
    Running,
    /// terminated
    Exited,
}

/// The status changes a task may go through.
pub open spec fn can_transition(from: TaskStatus, to: TaskStatus) -> bool {
    match (from, to) {
        (TaskStatus::UnInit, TaskStatus::Ready) => true,
        (TaskStatus::Ready, TaskStatus::Running) => true,
        (TaskStatus::Running, TaskStatus::Ready) => true,
        (TaskStatus::Running, TaskStatus::Exited) => true,
        _ => false,
    }
}

/// `after` is `before` with the counter of system call `idx` one higher (but never
/// past `u32::MAX`), or unchanged when `idx` is past the table.
pub open spec fn counted(before: TaskInfo, idx: usize, after: TaskInfo) -> bool {
    if idx < MAX_SYSCALL_NUM {
        &&& after.status == before.status
        &&& after.time == before.time
        &&& after.syscall_times@ == before.syscall_times@.update(
            idx as int,
            if before.syscall_times@[idx as int] < u32::MAX {
                (before.syscall_times@[idx as int] + 1) as u32
            } else {
                u32::MAX
            },
        )
    } else {
        after == before
    }
}

/// No status change leads out of Exited.
pub proof fn lemma_exited_is_terminal(to: TaskStatus)
    ensures
        !can_transition(TaskStatus::Exited, to),
{
}

/// Two counted calls of the same system call add two to its counter, while it
/// stays below `u32::MAX`, and leave every other counter as it was.
pub proof fn lemma_counts_accumulate(a: TaskInfo, b: TaskInfo, c: TaskInfo, idx: usize)
    requires
        idx < MAX_SYSCALL_NUM,
        a.syscall_times@[idx as int] <= u32::MAX - 2,
        counted(a, idx, b),
        counted(b, idx, c),
    ensures
        c.syscall_times@[idx as int] == a.syscall_times@[idx as int] + 2,
        forall|j: int| 0 <= j < MAX_SYSCALL_NUM && j != idx ==> c.syscall_times@[j] == a.syscall_times@[j],
        c.status == a.status,
        c.time == a.time,
{
}

/// Accounting record of a task: its status, a counter per system call id,
/// and the time it has run.
#[derive(Clone, Copy)]
pub struct TaskInfo {
    pub status: TaskStatus,
    pub syscall_times: [u32; MAX_SYSCALL_NUM],
    pub time: usize,
}

impl TaskInfo {
    /// A record with the given status, every counter at zero and no time run.
    pub fn new(ts: TaskStatus) -> (r: Self)
        ensures
            r.status == ts,
            r.time == 0,
            forall|i: int| 0 <= i < MAX_SYSCALL_NUM ==> r.syscall_times@[i] == 0,
    {
        TaskInfo { status: ts, syscall_times: [0u32; MAX_SYSCALL_NUM], time: 0 }
    }

    pub fn set_status(&mut self, status: TaskStatus)
        ensures
            *final(self) == (TaskInfo { status, ..*old(self) }),
    {
        self.status = status;
    }

    /// Counts one more call of system call `idx`; ids past the table are ignored.
    /// A counter that has reached `u32::MAX` stays there.
    pub fn increase_syscall_time(&mut self, idx: usize)
        ensures
            counted(*old(self), idx, *final(self)),
    {
        if idx < MAX_SYSCALL_NUM {
            let c = self.syscall_times[idx];
            self.syscall_times[idx] = c.saturating_add(1);
        }
    }

    pub fn set_run_time(&mut self, t: usize)
        ensures
            *final(self) == (TaskInfo { time: t, ..*old(self) }),
    {
        self.time = t;
    }
}

/// The registers saved across a switch between two flows of control.
#[derive(Clone, Copy, Debug)]
pub struct TaskContext {
    pub ra: usize,
    pub sp: usize,
    pub s: [usize; 12],
}

impl TaskContext {
    /// A context with every register zero.
    pub fn zero_init() -> (r: Self)
        ensures
            r.ra == 0,
            r.sp == 0,
            forall|i: int| 0 <= i < 12 ==> r.s@[i] == 0,
    {
        TaskContext { ra: 0, sp: 0, s: [0usize; 12] }
    }

    /// A context that resumes at `trap_return` on the kernel stack whose top is `kstack_ptr`.
    pub fn goto_trap_return(kstack_ptr: usize, trap_return: usize) -> (r: Self)
        ensures
            r.ra == trap_return,
            r.sp == kstack_ptr,
            forall|i: int| 0 <= i < 12 ==> r.s@[i] == 0,
    {
        TaskContext { ra: trap_return, sp: kstack_ptr, s: [0usize; 12] }
    }
}

/// The user registers and the kernel's entry data saved on a trap.
#[derive(Clone, Copy, Debug)]
pub struct TrapContext {
    pub x: [usize; 32],
    /// Saved status register; zero holds "came from user mode".
    pub sstatus: usize,
    pub sepc: usize,
    pub kernel_satp: usize,
    pub kernel_sp: usize,
    pub trap_handler: usize,
}

impl TrapContext {
    /// The context with which a task first enters user mode: at `entry`, with its
    /// stack pointer (register 2) at `sp` and every other register zero.
    pub fn app_init_context(entry: usize, sp: usize, kernel_satp: usize, kernel_sp: usize, trap_handler: usize) -> (r: Self)
        ensures
            r.sepc == entry,
            r.x@[2] == sp,
            forall|i: int| 0 <= i < 32 && i != 2 ==> r.x@[i] == 0,
            r.sstatus == 0,
            r.kernel_satp == kernel_satp,
            r.kernel_sp == kernel_sp,
            r.trap_handler == trap_handler,
    {
        let mut x = [0usize; 32];
        x[2] = sp;
        TrapContext { x, sstatus: 0, sepc: entry, kernel_satp, kernel_sp, trap_handler }
    }
}

/// The kernel's own address space and the kernel entry points every task needs.
pub struct KernelSpace {
    pub memory_set: MemorySet,
    pub trap_handler: usize,
    pub trap_return: usize,
}

/// Top of the kernel stack of task `app_id`: stacks sit below the trampoline,
/// each with a guard page under it.
pub open spec fn kernel_stack_top(app_id: int) -> int {
    TRAMPOLINE - app_id * (KERNEL_STACK_SIZE + PAGE_SIZE)
}

/// The kernel stack of task `app_id` lies inside the address space.
pub open spec fn kernel_stack_fits(app_id: int) -> bool {
    kernel_stack_top(app_id) - KERNEL_STACK_SIZE >= 0
}

/// The kernel-space area that holds the kernel stack of task `app_id`.
pub open spec fn kernel_stack_area(app_id: int) -> MapArea {
    area_of(kernel_stack_top(app_id) - KERNEL_STACK_SIZE, kernel_stack_top(app_id), PERM_R | PERM_W)
}

/// Bottom and top of the kernel stack of task `app_id`, or `None` when it would
/// fall below address zero.
pub fn kernel_stack_position(app_id: usize) -> (r: Option<(usize, usize)>)
    ensures
        r.is_some() <==> kernel_stack_fits(app_id as int),
        r matches Some((bottom, top)) ==> top == kernel_stack_top(app_id as int) && bottom == top - KERNEL_STACK_SIZE,
{
    let slot: usize = KERNEL_STACK_SIZE + PAGE_SIZE;
    let room: usize = TRAMPOLINE - KERNEL_STACK_SIZE;
    if app_id > room / slot {
        proof {
            assert(app_id * slot > room) by (nonlinear_arith)
                requires app_id > room as int / slot as int, slot > 0;
        }
        return None;
    }
    proof {
        assert(app_id * slot <= room) by (nonlinear_arith)
            requires app_id <= room as int / slot as int, slot > 0;
    }
    let top = TRAMPOLINE - app_id * slot;
    Some((top - KERNEL_STACK_SIZE, top))
}

/// The task control block: everything the kernel keeps about one task.
pub struct TaskControlBlock {
    pub task_info: TaskInfo,
    /// registers saved while the task is switched out
    pub task_cx: TaskContext,
    pub task_status: TaskStatus,
    /// the task's address space
    pub memory_set: MemorySet,
    /// the task's trap context page
    pub trap_cx: TrapContext,
    /// top of the program as loaded
    pub base_size: usize,
    pub heap_bottom: usize,
    pub program_brk: usize,
    /// time of first dispatch, in milliseconds; 0 until then
    pub task_start_time: usize,
    /// whether the task has been dispatched yet
    pub started: bool,
}

/// The heap end that a change of `size` bytes asks for.
pub open spec fn brk_target(t: TaskControlBlock, size: i32) -> int {
    t.program_brk + size
}

/// A change of the break by `size` bytes succeeds: the break stays at or above the
/// heap bottom, and the heap area, the one that spans the pages from the heap bottom
/// to the current break, can be shrunk or grown to the new break.
pub open spec fn brk_ok(t: TaskControlBlock, size: i32) -> bool {
    let n = brk_target(t, size);
    let lo = vpn_floor(t.heap_bottom as int);
    let cur = vpn_ceil(t.program_brk as int);
    let hi = vpn_ceil(n);
    &&& t.heap_bottom <= n <= usize::MAX
    &&& if size < 0 {
        can_shrink(t.memory_set.areas@, lo, cur, hi)
    } else {
        can_grow(t.memory_set.areas@, lo, cur, hi)
    }
}

/// The permission bits a mapping request's protection word turns into: its read,
/// write and execute bits, shifted into place, and user access.
pub open spec fn mmap_perm(port: usize) -> u8 {
    (((port as u8) << 1u8) | PERM_U) as u8
}

/// A mapping request names a page-aligned start and a protection word with some
/// and only read, write and execute bits, and its range fits the address space.
pub open spec fn map_args_ok(start: usize, len: usize, port: usize) -> bool {
    &&& start % PAGE_SIZE == 0
    &&& 1 <= port <= 7
    &&& start + len <= usize::MAX
}

/// The area a mapping request asks for.
pub open spec fn mmap_area(start: usize, len: usize, port: usize) -> MapArea {
    area_of(start as int, start + len, mmap_perm(port))
}

/// `map_region` succeeds on `areas`.
pub open spec fn map_ok(areas: Seq<MapArea>, start: usize, len: usize, port: usize) -> bool {
    map_args_ok(start, len, port) && fits(areas, mmap_area(start, len, port))
}

/// An unmapping request names a page-aligned start and length, and its range fits
/// the address space.
pub open spec fn unmap_args_ok(start: usize, len: usize) -> bool {
    &&& start % PAGE_SIZE == 0
    &&& len % PAGE_SIZE == 0
    &&& start + len <= usize::MAX
}

/// `unmap_region` succeeds on `areas`: the request is valid and some area spans
/// exactly its pages.
pub open spec fn unmap_ok(areas: Seq<MapArea>, start: usize, len: usize) -> bool {
    unmap_args_ok(start, len) && has_span(areas, vpn_floor(start as int), vpn_ceil(start + len))
}

/// What a mapping request does to a task: it returns 0 and adds the requested area
/// when `map_ok` holds, and otherwise returns -1 and changes nothing.
pub open spec fn mapped(before: TaskControlBlock, start: usize, len: usize, port: usize, r: isize, after: TaskControlBlock) -> bool {
    if map_ok(before.memory_set.areas@, start, len, port) {
        &&& r == 0
        &&& after.memory_set.areas@ == before.memory_set.areas@.push(mmap_area(start, len, port))
        &&& after.memory_set.page_table_root == before.memory_set.page_table_root
        &&& after == (TaskControlBlock { memory_set: after.memory_set, ..before })
    } else {
        r == -1 && after == before
    }
}

/// What an unmapping request does to a task: it returns 0 and drops the area that
/// spans the range when `unmap_ok` holds, and otherwise returns -1 and changes nothing.
pub open spec fn unmapped(before: TaskControlBlock, start: usize, len: usize, r: isize, after: TaskControlBlock) -> bool {
    if unmap_ok(before.memory_set.areas@, start, len) {
        &&& r == 0
        &&& removed_span(before.memory_set.areas@, vpn_floor(start as int), vpn_ceil(start + len), after.memory_set.areas@)
        &&& after.memory_set.page_table_root == before.memory_set.page_table_root
        &&& after == (TaskControlBlock { memory_set: after.memory_set, ..before })
    } else {
        r == -1 && after == before
    }
}

impl TaskControlBlock {
    pub open spec fn wf(&self) -> bool {
        &&& self.memory_set.wf()
        &&& self.heap_bottom <= self.program_brk
    }

    /// Whether the task is well-formed: its address space is, and its break is not
    /// below its heap bottom.
    pub fn is_wf(&self) -> (r: bool)
        ensures
            r == self.wf(),
    {
        self.heap_bottom <= self.program_brk && self.memory_set.is_wf()
    }

    /// The task's trap context, to be read or filled in place.
    pub fn get_trap_cx(&mut self) -> (r: &mut TrapContext)
        ensures
            *r == old(self).trap_cx,
            final(self).trap_cx == *final(r),
            final(self).task_info == old(self).task_info,
            final(self).task_cx == old(self).task_cx,
            final(self).task_status == old(self).task_status,
            final(self).memory_set == old(self).memory_set,
            final(self).base_size == old(self).base_size,
            final(self).heap_bottom == old(self).heap_bottom,
            final(self).program_brk == old(self).program_brk,
            final(self).task_start_time == old(self).task_start_time,
            final(self).started == old(self).started,
    {
        &mut self.trap_cx
    }

    /// The identifier that installs the task's address space on the hardware.
    pub fn get_user_token(&self) -> (r: usize)
        ensures
            r == self.memory_set.page_table_root,
    {
        self.memory_set.token()
    }

    /// Builds a task from `image`: lays out its address space rooted at page `root`,
    /// maps kernel stack `app_id` in the kernel's space, and prepares the context that
    /// first enters the program. The task starts Ready with zeroed accounting.
    /// Returns `None`, leaving the kernel's space as it was, when the image is malformed,
    /// the stack would lie outside the address space, or it clashes with a mapped area.
    pub fn new(image: &ProgramImage, app_id: usize, root: usize, kernel: &mut KernelSpace) -> (r: Option<Self>)
        requires
            old(kernel).memory_set.wf(),
        ensures
            final(kernel).memory_set.wf(),
            final(kernel).memory_set.page_table_root == old(kernel).memory_set.page_table_root,
            final(kernel).trap_handler == old(kernel).trap_handler,
            final(kernel).trap_return == old(kernel).trap_return,
            r.is_some() <==> {
                &&& image_ok(image.segments@)
                &&& kernel_stack_fits(app_id as int)
                &&& fits(old(kernel).memory_set.areas@, kernel_stack_area(app_id as int))
            },
            r.is_none() ==> final(kernel).memory_set.areas@ == old(kernel).memory_set.areas@,
            r matches Some(t) ==> {
                let user_sp = stack_top_vpn(image.segments@) * PAGE_SIZE;
                let kstack_top = kernel_stack_top(app_id as int);
                &&& final(kernel).memory_set.areas@ == old(kernel).memory_set.areas@.push(kernel_stack_area(app_id as int))
                &&& t.wf()
                &&& t.task_status == TaskStatus::Ready
                &&& t.task_info.status == TaskStatus::Ready
                &&& t.task_info.time == 0
                &&& forall|i: int| 0 <= i < MAX_SYSCALL_NUM ==> t.task_info.syscall_times@[i] == 0
                &&& t.memory_set.page_table_root == root
                &&& t.memory_set.areas@ == user_layout(image.segments@)
                &&& t.base_size == user_sp
                &&& t.heap_bottom == user_sp
                &&& t.program_brk == user_sp
                &&& t.task_start_time == 0
                &&& !t.started
                &&& t.task_cx.ra == old(kernel).trap_return
                &&& t.task_cx.sp == kstack_top
                &&& forall|i: int| 0 <= i < 12 ==> t.task_cx.s@[i] == 0
                &&& forall|i: int| 0 <= i < 32 && i != 2 ==> t.trap_cx.x@[i] == 0
                &&& t.trap_cx.sepc == image.entry
                &&& t.trap_cx.x@[2] == user_sp
                &&& t.trap_cx.sstatus == 0
                &&& t.trap_cx.kernel_satp == old(kernel).memory_set.page_table_root
                &&& t.trap_cx.kernel_sp == kstack_top
                &&& t.trap_cx.trap_handler == old(kernel).trap_handler
            },
    {
        let (memory_set, user_sp, entry_point) = match MemorySet::from_image(image, root) {
            Some(v) => v,
            None => return None,
        };
        let (kernel_stack_bottom, kernel_stack_top) = match kernel_stack_position(app_id) {
            Some(v) => v,
            None => return None,
        };
        if kernel.memory_set.insert_framed_area(kernel_stack_bottom, kernel_stack_top, PERM_R | PERM_W) != 0 {
            return None;
        }
        let task_status = TaskStatus::Ready;
        let mut task_control_block = TaskControlBlock {
            task_info: TaskInfo::new(task_status),
            task_cx: TaskContext::goto_trap_return(kernel_stack_top, kernel.trap_return),
            task_status,
            memory_set,
            trap_cx: TrapContext::app_init_context(0, 0, 0, 0, 0),
            base_size: user_sp,
            heap_bottom: user_sp,
            program_brk: user_sp,
            task_start_time: 0,
            started: false,
        };
        let trap_cx = task_control_block.get_trap_cx();
        *trap_cx = TrapContext::app_init_context(
            entry_point,
            user_sp,
            kernel.memory_set.token(),
            kernel_stack_top,
            kernel.trap_handler,
        );
        Some(task_control_block)
    }

    /// Moves the program break by `size` bytes, growing or shrinking the heap area
    /// with it. Returns the previous break, or `None` when the break would fall below
    /// the heap bottom or the address space cannot follow; then nothing changes.
    pub fn change_program_brk(&mut self, size: i32) -> (r: Option<usize>)
        requires
            old(self).wf(),
        ensures
            final(self).wf(),
            r == if brk_ok(*old(self), size) { Some(old(self).program_brk) } else { None::<usize> },
            brk_ok(*old(self), size) ==> {
                &&& final(self).program_brk == brk_target(*old(self), size)
                &&& resized(
                    old(self).memory_set.areas@,
                    vpn_floor(old(self).heap_bottom as int),
                    vpn_ceil(old(self).program_brk as int),
                    vpn_ceil(brk_target(*old(self), size)),
                    final(self).memory_set.areas@,
                )
                &&& final(self).memory_set.page_table_root == old(self).memory_set.page_table_root
                &&& final(self).task_info == old(self).task_info
                &&& final(self).task_cx == old(self).task_cx
                &&& final(self).task_status == old(self).task_status
                &&& final(self).trap_cx == old(self).trap_cx
                &&& final(self).base_size == old(self).base_size
                &&& final(self).heap_bottom == old(self).heap_bottom
                &&& final(self).task_start_time == old(self).task_start_time
                &&& final(self).started == old(self).started
            },
            !brk_ok(*old(self), size) ==> *final(self) == *old(self),
    {
        let old_break = self.program_brk;
        let new_brk: usize;
        if size < 0 {
            let d: usize = (-(size as i64)) as usize;
            if d > self.program_brk - self.heap_bottom {
                return None;
            }
            new_brk = self.program_brk - d;
        } else {
            let d: usize = size as usize;
            if self.program_brk > usize::MAX - d {
                return None;
            }
            new_brk = self.program_brk + d;
        }
        let result = if size < 0 {
            self.memory_set.shrink_to(self.heap_bottom, self.program_brk, new_brk)
        } else {
            self.memory_set.append_to(self.heap_bottom, self.program_brk, new_brk)
        };
        if result {
            self.program_brk = new_brk;
            Some(old_break)
        } else {
            None
        }
    }

    /// Maps `[start, start + len)` with the permission drawn from the protection word
    /// `port` (bit 0 read, bit 1 write, bit 2 execute), reachable from user mode.
    /// Returns 0, or -1 when `start` is not page-aligned, `port` has no bit or a bit
    /// beyond these three, the range runs past the address space, or it clashes with a
    /// mapped area, that is, shares a page with it (an empty range shares no page, and
    /// clashes only with an empty area of the very same bounds); then nothing changes.
    pub fn m_map(&mut self, start: usize, len: usize, port: usize) -> (r: isize)
        requires
            old(self).wf(),
        ensures
            final(self).wf(),
            mapped(*old(self), start, len, port, r, *final(self)),
    {
        let recognized = port & !0x7usize == 0;
        let nonempty = port & 0x7usize != 0;
        proof {
            assert(recognized <==> port <= 7) by (bit_vector)
                requires recognized == (port & !0x7usize == 0);
            assert(port <= 7 ==> (nonempty <==> port >= 1)) by (bit_vector)
                requires nonempty == (port & 0x7usize != 0);
        }
        if start % PAGE_SIZE == 0 && recognized && nonempty && start <= usize::MAX - len {
            let perm: u8 = (((port as u8) << 1u8) | PERM_U) as u8;
            self.memory_set.insert_framed_area(start, start + len, perm)
        } else {
            -1
        }
    }

    /// Unmaps the area that spans exactly the pages of `[start, start + len)`.
    /// Returns 0, or -1 when `start` or `len` is not page-aligned, the range runs past
    /// the address space, or no area has exactly those bounds; then nothing changes.
    pub fn m_unmap(&mut self, start: usize, len: usize) -> (r: isize)
        requires
            old(self).wf(),
        ensures
            final(self).wf(),
            unmapped(*old(self), start, len, r, *final(self)),
    {
        if start % PAGE_SIZE == 0 && len % PAGE_SIZE == 0 && start <= usize::MAX - len {
            self.memory_set.remove_area(start, start + len)
        } else {
            -1
        }
    }
}

/// Mapping a range and then unmapping the same page-aligned range succeeds and gives
/// back exactly the areas that were mapped before.
pub proof fn lemma_map_unmap_round_trip(areas: Seq<MapArea>, start: usize, len: usize, port: usize)
    requires
        areas_wf(areas),
        map_ok(areas, start, len, port),
        len % PAGE_SIZE == 0,
    ensures
        unmap_ok(areas.push(mmap_area(start, len, port)), start, len),
        forall|after: Seq<MapArea>|
            #[trigger] removed_span(areas.push(mmap_area(start, len, port)), vpn_floor(start as int), vpn_ceil(start + len), after)
                ==> after == areas,
{
    let a = mmap_area(start, len, port);
    let t = areas.push(a);
    let s = vpn_floor(start as int);
    let e = vpn_ceil(start + len);
    lemma_push_fits(areas, a);
    assert(spans(t, areas.len() as int, s, e));
    assert forall|after: Seq<MapArea>| removed_span(t, s, e, after) implies after == areas by {
        let i = choose|i: int| spans(t, i, s, e) && after == t.remove(i);
        lemma_span_unique(t, i, areas.len() as int, s, e);
        assert(t.remove(i) =~= areas);
    }
}

/// A change that would take the break below the heap bottom fails.
pub proof fn lemma_brk_below_heap_fails(t: TaskControlBlock, size: i32)
    requires
        t.program_brk + size < t.heap_bottom,
    ensures
        !brk_ok(t, size),
{
}

} // verus!
