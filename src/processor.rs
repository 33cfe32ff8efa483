use vstd::prelude::*;
use crate::task::{
    TaskContext, TaskControlBlock, TaskInfo, TaskStatus, can_transition, counted, mapped, unmapped,
};

verus! {

/// What the dispatcher does with the task the ready queue handed it.
pub enum Dispatch {
    /// The task was installed as current and marked Running: switch to it.
    Switch,
    /// The ready queue had no task.
    Idle,
    /// The task is not Ready, so it may not run; it is handed back untouched.
    Rejected(TaskControlBlock),
}

/// The single processor: the task running on it, if any, and the dispatcher's own
/// saved registers.
pub struct Processor {
    /// the task currently executing, if any
    pub current: Option<TaskControlBlock>,
    /// the dispatcher's saved registers, anchor of every switch
    pub idle_task_cx: TaskContext,
}

/// A task leaving the processor through `from` changes only its status, to `to`.
pub open spec fn left_as(from: Option<TaskControlBlock>, to: TaskStatus, r: Option<TaskControlBlock>) -> bool {
    match from {
        Some(t) => r == Some(TaskControlBlock { task_status: to, ..t }),
        None => r.is_none(),
    }
}

impl Processor {
    /// The current task, if any, is well-formed and Running.
    pub open spec fn wf(&self) -> bool {
        self.current matches Some(t) ==> t.wf() && t.task_status == TaskStatus::Running
    }

    /// The current task, which must exist.
    pub open spec fn cur(&self) -> TaskControlBlock {
        self.current->Some_0
    }

    /// A processor with no current task.
    pub fn new() -> (r: Self)
        ensures
            r.wf(),
            r.current.is_none(),
            r.idle_task_cx.ra == 0,
            r.idle_task_cx.sp == 0,
            forall|i: int| 0 <= i < 12 ==> r.idle_task_cx.s@[i] == 0,
    {
        Processor { current: None, idle_task_cx: TaskContext::zero_init() }
    }

    /// The dispatcher's saved registers, for the switch primitive.
    pub fn get_idle_task_cx(&mut self) -> (r: &mut TaskContext)
        ensures
            *r == old(self).idle_task_cx,
            final(self).idle_task_cx == *final(r),
            final(self).current == old(self).current,
    {
        &mut self.idle_task_cx
    }

    /// Moves the current task out, leaving the slot empty.
    pub fn take_current(&mut self) -> (r: Option<TaskControlBlock>)
        ensures
            r == old(self).current,
            final(self).current.is_none(),
            final(self).idle_task_cx == old(self).idle_task_cx,
    {
        self.current.take()
    }

    /// The current task, left in place.
    pub fn current(&self) -> (r: Option<&TaskControlBlock>)
        ensures
            match r {
                Some(t) => self.current == Some(*t),
                None => self.current.is_none(),
            },
    {
        match &self.current {
            Some(t) => Some(t),
            None => None,
        }
    }

    /// Copies the current task's status into its accounting record and, when
    /// `refresh_flag` is set, counts one call of system call `syscall_idx`.
    pub fn refresh_task_info(&mut self, syscall_idx: usize, refresh_flag: bool)
        requires
            old(self).wf(),
            old(self).current.is_some(),
        ensures
            final(self).wf(),
            final(self).idle_task_cx == old(self).idle_task_cx,
            final(self).current is Some,
            ({
                let t = old(self).cur();
                let synced = TaskInfo { status: t.task_status, ..t.task_info };
                let u = final(self).cur();
                &&& u == (TaskControlBlock { task_info: u.task_info, ..t })
                &&& if refresh_flag { counted(synced, syscall_idx, u.task_info) } else { u.task_info == synced }
            }),
    {
        let mut current_task = self.current.take().unwrap();
        let status = current_task.task_status;
        current_task.task_info.set_status(status);
        if refresh_flag {
            current_task.task_info.increase_syscall_time(syscall_idx);
        }
        self.current = Some(current_task);
    }

    /// Recomputes the current task's running time as `now_ms` less the time it was
    /// first dispatched, syncs its status into its accounting record, and returns a
    /// copy of that record.
    pub fn get_current_task_info(&mut self, now_ms: usize) -> (r: TaskInfo)
        requires
            old(self).wf(),
            old(self).current.is_some(),
            now_ms >= old(self).cur().task_start_time,
        ensures
            final(self).wf(),
            final(self).idle_task_cx == old(self).idle_task_cx,
            final(self).current is Some,
            ({
                let t = old(self).cur();
                &&& r == (TaskInfo { status: t.task_status, time: (now_ms - t.task_start_time) as usize, ..t.task_info })
                &&& final(self).cur() == (TaskControlBlock { task_info: r, ..t })
            }),
    {
        let mut current_task = self.current.take().unwrap();
        let run_time = now_ms - current_task.task_start_time;
        let status = current_task.task_status;
        current_task.task_info.set_status(status);
        current_task.task_info.set_run_time(run_time);
        let current_task_info = current_task.task_info;
        self.current = Some(current_task);
        current_task_info
    }

    /// Maps a range in the current task's address space, as `TaskControlBlock::m_map`.
    pub fn current_task_m_map(&mut self, start: usize, len: usize, port: usize) -> (r: isize)
        requires
            old(self).wf(),
            old(self).current.is_some(),
        ensures
            final(self).wf(),
            final(self).idle_task_cx == old(self).idle_task_cx,
            final(self).current is Some,
            mapped(old(self).cur(), start, len, port, r, final(self).cur()),
    {
        let mut current_task = self.current.take().unwrap();
        let r = current_task.m_map(start, len, port);
        self.current = Some(current_task);
        r
    }

    /// Unmaps a range of the current task's address space, as `TaskControlBlock::m_unmap`.
    pub fn current_task_m_unmap(&mut self, start: usize, len: usize) -> (r: isize)
        requires
            old(self).wf(),
            old(self).current.is_some(),
        ensures
            final(self).wf(),
            final(self).idle_task_cx == old(self).idle_task_cx,
            final(self).current is Some,
            unmapped(old(self).cur(), start, len, r, final(self).cur()),
    {
        let mut current_task = self.current.take().unwrap();
        let r = current_task.m_unmap(start, len);
        self.current = Some(current_task);
        r
    }

    /// One selection of the dispatch loop, on the task the ready queue returned.
    /// A Ready task becomes Running and current, and takes `now_ms` as its start time
    /// when this is its first dispatch; a task in any other status is handed back.
    pub fn run_next(&mut self, next: Option<TaskControlBlock>, now_ms: usize) -> (r: Dispatch)
        requires
            old(self).wf(),
            old(self).current.is_none(),
            next matches Some(t) ==> t.wf(),
        ensures
            final(self).wf(),
            final(self).idle_task_cx == old(self).idle_task_cx,
            match next {
                None => r is Idle && final(self).current.is_none(),
                Some(t) => if t.task_status == TaskStatus::Ready {
                    &&& r is Switch
                    &&& can_transition(t.task_status, TaskStatus::Running)
                    &&& final(self).current == Some(TaskControlBlock {
                        task_status: TaskStatus::Running,
                        task_start_time: if t.started { t.task_start_time } else { now_ms },
                        started: true,
                        ..t
                    })
                } else {
                    r == Dispatch::Rejected(t) && final(self).current.is_none()
                },
            },
    {
        match next {
            None => Dispatch::Idle,
            Some(mut task) => {
                if task.task_status != TaskStatus::Ready {
                    return Dispatch::Rejected(task);
                }
                task.task_status = TaskStatus::Running;
                if !task.started {
                    task.task_start_time = now_ms;
                    task.started = true;
                }
                self.current = Some(task);
                Dispatch::Switch
            },
        }
    }

    /// The current task yields: it leaves the slot, back to Ready, for the caller to
    /// queue again before switching to the dispatcher.
    pub fn yield_current(&mut self) -> (r: Option<TaskControlBlock>)
        requires
            old(self).wf(),
        ensures
            final(self).wf(),
            final(self).current.is_none(),
            final(self).idle_task_cx == old(self).idle_task_cx,
            left_as(old(self).current, TaskStatus::Ready, r),
            old(self).current matches Some(t) ==> can_transition(t.task_status, TaskStatus::Ready),
    {
        match self.current.take() {
            Some(mut task) => {
                task.task_status = TaskStatus::Ready;
                Some(task)
            },
            None => None,
        }
    }

    /// The current task exits: it leaves the slot, marked Exited, for the caller to
    /// reclaim before switching to the dispatcher.
    pub fn exit_current(&mut self) -> (r: Option<TaskControlBlock>)
        requires
            old(self).wf(),
        ensures
            final(self).wf(),
            final(self).current.is_none(),
            final(self).idle_task_cx == old(self).idle_task_cx,
            left_as(old(self).current, TaskStatus::Exited, r),
            old(self).current matches Some(t) ==> can_transition(t.task_status, TaskStatus::Exited),
    {
        match self.current.take() {
            Some(mut task) => {
                task.task_status = TaskStatus::Exited;
                Some(task)
            },
            None => None,
        }
    }
}

/// Every method of `Processor` keeps it well-formed, so in any history of calls the
/// current slot holds a task only while that task is Running: it is empty before a
/// selection (which `run_next` requires) and after a yield or an exit.
pub proof fn lemma_current_is_running(p: Processor)
    requires
        p.wf(),
    ensures
        p.current matches Some(t) ==> t.task_status == TaskStatus::Running && t.wf(),
{
}

} // verus!
