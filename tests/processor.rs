use os_task::mm::{MemorySet, ProgramImage, Segment, PERM_R, PERM_X};
use os_task::processor::{Dispatch, Processor};
use os_task::task::{KernelSpace, TaskControlBlock, TaskStatus};

fn tasks(n: usize) -> Vec<TaskControlBlock> {
    let mut k = KernelSpace { memory_set: MemorySet::new_bare(1), trap_handler: 0, trap_return: 0 };
    (0..n)
        .map(|i| {
            let image = ProgramImage {
                entry: 0x10000,
                segments: vec![Segment { start_va: 0x10000, end_va: 0x11000, perm: PERM_R | PERM_X }],
            };
            TaskControlBlock::new(&image, i, 100 + i, &mut k).unwrap()
        })
        .collect()
}

#[test]
fn new_processor_is_empty() {
    let p = Processor::new();
    assert!(p.current().is_none());
    assert_eq!(p.idle_task_cx.s, [0; 12]);
}

#[test]
fn dispatch_without_work_is_idle() {
    let mut p = Processor::new();
    assert!(matches!(p.run_next(None, 5), Dispatch::Idle));
    assert!(p.current().is_none());
}

#[test]
fn first_dispatch_runs_task_and_sets_start_time() {
    let mut p = Processor::new();
    let t = tasks(1).pop().unwrap();
    assert!(matches!(p.run_next(Some(t), 250), Dispatch::Switch));
    let cur = p.current().unwrap();
    assert_eq!(cur.task_status, TaskStatus::Running);
    assert_eq!(cur.task_start_time, 250);
    let info = p.get_current_task_info(250);
    assert_eq!(info.time, 0);
    assert_eq!(info.status, TaskStatus::Running);
    let info = p.get_current_task_info(300);
    assert_eq!(info.time, 50);
    assert_eq!(p.current().unwrap().task_info.time, 50);
}

#[test]
fn yield_then_next_task_runs() {
    let mut p = Processor::new();
    let mut ts = tasks(2);
    let second = ts.pop().unwrap();
    let first = ts.pop().unwrap();
    assert!(matches!(p.run_next(Some(first), 10), Dispatch::Switch));
    let first = p.yield_current().unwrap();
    assert_eq!(first.task_status, TaskStatus::Ready);
    assert_eq!(first.task_start_time, 10);
    assert!(p.current().is_none());
    assert!(matches!(p.run_next(Some(second), 20), Dispatch::Switch));
    assert_eq!(p.current().unwrap().get_user_token(), 101);
    let second = p.take_current().unwrap();
    assert!(p.current().is_none());
    assert_eq!(second.task_start_time, 20);
    assert!(matches!(p.run_next(Some(first), 30), Dispatch::Switch));
    assert_eq!(p.current().unwrap().task_start_time, 10);
}

#[test]
fn exited_task_is_never_selected_again() {
    let mut p = Processor::new();
    let t = tasks(1).pop().unwrap();
    assert!(matches!(p.run_next(Some(t), 1), Dispatch::Switch));
    let t = p.exit_current().unwrap();
    assert_eq!(t.task_status, TaskStatus::Exited);
    assert!(p.current().is_none());
    match p.run_next(Some(t), 2) {
        Dispatch::Rejected(t) => assert_eq!(t.task_status, TaskStatus::Exited),
        _ => panic!("an exited task was dispatched"),
    }
    assert!(p.current().is_none());
    assert!(p.exit_current().is_none());
    assert!(p.yield_current().is_none());
}

#[test]
fn uninitialized_task_is_rejected() {
    let mut p = Processor::new();
    let mut t = tasks(1).pop().unwrap();
    t.task_status = TaskStatus::UnInit;
    assert!(matches!(p.run_next(Some(t), 1), Dispatch::Rejected(_)));
    assert!(p.current().is_none());
}

#[test]
fn syscalls_are_counted_on_the_current_task() {
    let mut p = Processor::new();
    let t = tasks(1).pop().unwrap();
    assert!(matches!(p.run_next(Some(t), 0), Dispatch::Switch));
    p.refresh_task_info(93, true);
    p.refresh_task_info(93, true);
    p.refresh_task_info(93, false);
    p.refresh_task_info(100_000, true);
    let cur = p.current().unwrap();
    assert_eq!(cur.task_info.syscall_times[93], 2);
    assert_eq!(cur.task_info.status, TaskStatus::Running);
    assert_eq!(cur.task_info.syscall_times.iter().map(|c| *c as u64).sum::<u64>(), 2);
}

#[test]
fn map_requests_reach_the_current_task() {
    let mut p = Processor::new();
    let t = tasks(1).pop().unwrap();
    assert!(matches!(p.run_next(Some(t), 0), Dispatch::Switch));
    assert_eq!(p.current_task_m_map(0x1000, 0x1000, 3), 0);
    assert_eq!(p.current_task_m_map(0x1000, 0x1000, 1), -1);
    assert_eq!(p.current_task_m_unmap(0x1000, 0x800), -1);
    assert_eq!(p.current_task_m_unmap(0x1000, 0x1000), 0);
    assert_eq!(p.current_task_m_unmap(0x1000, 0x1000), -1);
}

#[test]
fn idle_context_is_reachable_for_switching() {
    let mut p = Processor::new();
    let cx = p.get_idle_task_cx();
    assert_eq!(cx.ra, 0);
    cx.sp = 0x8000;
    assert_eq!(p.idle_task_cx.sp, 0x8000);
}

#[test]
fn start_time_zero_is_kept_on_later_dispatch() {
    let mut p = Processor::new();
    let t = tasks(1).pop().unwrap();
    assert!(matches!(p.run_next(Some(t), 0), Dispatch::Switch));
    let t = p.yield_current().unwrap();
    assert!(t.started);
    assert!(matches!(p.run_next(Some(t), 40), Dispatch::Switch));
    assert_eq!(p.current().unwrap().task_start_time, 0);
    assert_eq!(p.get_current_task_info(40).time, 40);
}
