use os_task::config::{KERNEL_STACK_SIZE, MAX_SYSCALL_NUM, PAGE_SIZE, TRAMPOLINE};
use os_task::mm::{MapArea, MemorySet, ProgramImage, Segment, PERM_R, PERM_U, PERM_W, PERM_X};
use os_task::task::{kernel_stack_position, KernelSpace, TaskControlBlock, TaskInfo, TaskStatus};

fn kernel() -> KernelSpace {
    KernelSpace { memory_set: MemorySet::new_bare(1), trap_handler: 0xaaa0, trap_return: 0xbbb0 }
}

fn image_at(va: usize) -> ProgramImage {
    ProgramImage { entry: va, segments: vec![Segment { start_va: va, end_va: va + 0x1000, perm: PERM_R | PERM_X }] }
}

fn task() -> TaskControlBlock {
    let mut k = kernel();
    TaskControlBlock::new(&image_at(0x10000), 0, 5, &mut k).unwrap()
}

#[test]
fn task_info_starts_zeroed() {
    let info = TaskInfo::new(TaskStatus::Ready);
    assert_eq!(info.status, TaskStatus::Ready);
    assert_eq!(info.time, 0);
    assert!(info.syscall_times.iter().all(|c| *c == 0));
}

#[test]
fn syscall_counts_grow_by_one() {
    let mut info = TaskInfo::new(TaskStatus::Running);
    for _ in 0..3 {
        info.increase_syscall_time(64);
    }
    info.increase_syscall_time(MAX_SYSCALL_NUM - 1);
    assert_eq!(info.syscall_times[64], 3);
    assert_eq!(info.syscall_times[MAX_SYSCALL_NUM - 1], 1);
    assert_eq!(info.syscall_times.iter().map(|c| *c as u64).sum::<u64>(), 4);
}

#[test]
fn syscall_ids_past_the_table_are_ignored() {
    let mut info = TaskInfo::new(TaskStatus::Running);
    info.increase_syscall_time(MAX_SYSCALL_NUM);
    info.increase_syscall_time(usize::MAX);
    assert!(info.syscall_times.iter().all(|c| *c == 0));
    assert_eq!(info.status, TaskStatus::Running);
}

#[test]
fn syscall_count_stays_at_max() {
    let mut info = TaskInfo::new(TaskStatus::Running);
    info.syscall_times[3] = u32::MAX;
    info.increase_syscall_time(3);
    assert_eq!(info.syscall_times[3], u32::MAX);
}

#[test]
fn status_and_run_time_setters() {
    let mut info = TaskInfo::new(TaskStatus::UnInit);
    info.set_status(TaskStatus::Exited);
    info.set_run_time(42);
    assert_eq!(info.status, TaskStatus::Exited);
    assert_eq!(info.time, 42);
}

#[test]
fn kernel_stacks_sit_below_the_trampoline() {
    assert_eq!(kernel_stack_position(0), Some((TRAMPOLINE - KERNEL_STACK_SIZE, TRAMPOLINE)));
    let top1 = TRAMPOLINE - (KERNEL_STACK_SIZE + PAGE_SIZE);
    assert_eq!(kernel_stack_position(1), Some((top1 - KERNEL_STACK_SIZE, top1)));
    assert_eq!(kernel_stack_position(usize::MAX), None);
}

#[test]
fn new_task_is_ready_with_initial_contexts() {
    let mut k = kernel();
    let mut t = TaskControlBlock::new(&image_at(0x10000), 0, 5, &mut k).unwrap();
    assert_eq!(t.task_status, TaskStatus::Ready);
    assert_eq!(t.task_info.status, TaskStatus::Ready);
    assert_eq!(t.task_start_time, 0);
    assert_eq!(t.base_size, 0x14000);
    assert_eq!(t.heap_bottom, 0x14000);
    assert_eq!(t.program_brk, 0x14000);
    assert_eq!(t.get_user_token(), 5);
    assert_eq!(t.task_cx.ra, 0xbbb0);
    assert_eq!(t.task_cx.sp, TRAMPOLINE);
    assert_eq!(t.task_cx.s, [0; 12]);
    assert!(!t.started);
    assert!(t.is_wf());
    assert_eq!(
        k.memory_set.areas,
        vec![MapArea { start_vpn: (TRAMPOLINE - KERNEL_STACK_SIZE) / PAGE_SIZE, end_vpn: TRAMPOLINE / PAGE_SIZE, perm: PERM_R | PERM_W }]
    );
    let cx = t.get_trap_cx();
    assert_eq!(cx.sepc, 0x10000);
    assert_eq!(cx.x[2], 0x14000);
    assert_eq!(cx.kernel_satp, 1);
    assert_eq!(cx.kernel_sp, TRAMPOLINE);
    assert_eq!(cx.trap_handler, 0xaaa0);
    assert!(cx.x.iter().enumerate().all(|(i, r)| i == 2 || *r == 0));
    cx.x[10] = 99;
    assert_eq!(t.trap_cx.x[10], 99);
}

#[test]
fn new_task_fails_on_a_taken_kernel_stack() {
    let mut k = kernel();
    assert!(TaskControlBlock::new(&image_at(0x10000), 3, 5, &mut k).is_some());
    assert!(TaskControlBlock::new(&image_at(0x10000), 3, 6, &mut k).is_none());
    assert_eq!(k.memory_set.areas.len(), 1);
    let bad = ProgramImage { entry: 0, segments: vec![Segment { start_va: 0x2000, end_va: 0x1000, perm: PERM_R }] };
    assert!(TaskControlBlock::new(&bad, 4, 6, &mut k).is_none());
    assert_eq!(k.memory_set.areas.len(), 1);
}

#[test]
fn program_break_grows_and_shrinks() {
    let mut t = task();
    assert_eq!(t.change_program_brk(0x1800), Some(0x14000));
    assert_eq!(t.program_brk, 0x15800);
    assert_eq!(t.memory_set.areas[2].end_vpn, 0x16);
    assert_eq!(t.change_program_brk(-0x1000), Some(0x15800));
    assert_eq!(t.program_brk, 0x14800);
    assert_eq!(t.memory_set.areas[2].end_vpn, 0x15);
    assert_eq!(t.change_program_brk(0), Some(0x14800));
    assert_eq!(t.program_brk, 0x14800);
}

#[test]
fn program_break_never_drops_below_heap_bottom() {
    let mut t = task();
    assert_eq!(t.change_program_brk(-1), None);
    assert_eq!(t.program_brk, 0x14000);
    assert_eq!(t.change_program_brk(0x2000), Some(0x14000));
    assert_eq!(t.change_program_brk(-0x2001), None);
    assert_eq!(t.program_brk, 0x16000);
    assert_eq!(t.memory_set.areas[2].end_vpn, 0x16);
}

#[test]
fn program_break_cannot_grow_into_a_mapping() {
    let mut t = task();
    assert_eq!(t.m_map(0x16000, 0x1000, 1), 0);
    assert_eq!(t.change_program_brk(0x4000), None);
    assert_eq!(t.program_brk, 0x14000);
    assert_eq!(t.change_program_brk(0x3000), None);
    assert_eq!(t.change_program_brk(0x2000), Some(0x14000));
}

#[test]
fn map_then_overlapping_map_fails() {
    let mut t = task();
    assert_eq!(t.m_map(0x1000, 0x1000, 0b011), 0);
    let before = t.memory_set.areas.clone();
    assert_eq!(t.m_map(0x1000, 0x1000, 0b001), -1);
    assert_eq!(t.memory_set.areas, before);
    assert_eq!(*t.memory_set.areas.last().unwrap(), MapArea { start_vpn: 1, end_vpn: 2, perm: PERM_R | PERM_W | PERM_U });
}

#[test]
fn map_rejects_bad_arguments() {
    let mut t = task();
    let before = t.memory_set.areas.clone();
    assert_eq!(t.m_map(0x1001, 0x1000, 1), -1);
    assert_eq!(t.m_map(0x1000, 0x1000, 0), -1);
    assert_eq!(t.m_map(0x1000, 0x1000, 8), -1);
    assert_eq!(t.m_map(0x1000, 0x1000, 0x9), -1);
    assert_eq!(t.m_map(0x1000, usize::MAX, 1), -1);
    assert_eq!(t.memory_set.areas, before);
}

#[test]
fn map_rounds_length_up_to_pages() {
    let mut t = task();
    assert_eq!(t.m_map(0x2000, 0x1001, 0b100), 0);
    assert_eq!(*t.memory_set.areas.last().unwrap(), MapArea { start_vpn: 2, end_vpn: 4, perm: PERM_X | PERM_U });
}

#[test]
fn map_then_unmap_restores_areas() {
    let mut t = task();
    let before = t.memory_set.areas.clone();
    assert_eq!(t.m_map(0x40000, 0x3000, 0b110), 0);
    assert_eq!(t.m_unmap(0x40000, 0x3000), 0);
    assert_eq!(t.memory_set.areas, before);
}

#[test]
fn unmap_rejects_bad_or_unmatched_ranges() {
    let mut t = task();
    assert_eq!(t.m_map(0x40000, 0x3000, 1), 0);
    let before = t.memory_set.areas.clone();
    assert_eq!(t.m_unmap(0x40000, 0x2fff), -1);
    assert_eq!(t.m_unmap(0x40001, 0x3000), -1);
    assert_eq!(t.m_unmap(0x40000, 0x2000), -1);
    assert_eq!(t.m_unmap(0x41000, 0x2000), -1);
    assert_eq!(t.m_unmap(0x50000, 0x1000), -1);
    assert_eq!(t.memory_set.areas, before);
}

#[test]
fn read_only_mapping_is_not_executable() {
    let mut t = task();
    assert_eq!(t.m_map(0x1000, 0x1000, 0b001), 0);
    let area = *t.memory_set.areas.last().unwrap();
    assert_eq!(area.perm, PERM_R | PERM_U);
    assert_eq!(area.perm & PERM_X, 0);
}

#[test]
fn mapping_at_the_heap_start_is_accepted() {
    let mut t = task();
    let heap_bottom = t.heap_bottom;
    assert_eq!(t.m_map(heap_bottom, 0x1000, 0b011), 0);
    assert_eq!(
        *t.memory_set.areas.last().unwrap(),
        MapArea { start_vpn: heap_bottom / PAGE_SIZE, end_vpn: heap_bottom / PAGE_SIZE + 1, perm: PERM_R | PERM_W | PERM_U }
    );
    assert_eq!(t.change_program_brk(0x1000), None);
    assert_eq!(t.program_brk, heap_bottom);
    assert_eq!(t.change_program_brk(0), Some(heap_bottom));
}

#[test]
fn clashing_areas_are_not_well_formed() {
    let mut ms = MemorySet::new_bare(0);
    assert!(ms.is_wf());
    assert_eq!(ms.insert_framed_area(0x1000, 0x3000, PERM_R), 0);
    assert!(ms.is_wf());
    ms.areas.push(MapArea { start_vpn: 2, end_vpn: 4, perm: PERM_R });
    assert!(!ms.is_wf());
    let mut reversed = MemorySet::new_bare(0);
    reversed.areas.push(MapArea { start_vpn: 4, end_vpn: 2, perm: PERM_R });
    assert!(!reversed.is_wf());
}
