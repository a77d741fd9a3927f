//! The changes that the kernel can make to its tasks.

use vstd::prelude::*;

use crate::config::{MAX_SYSCALL_NUM, NUM_REGISTERS};
use crate::mm::VirtAddr;
use crate::task::{AppImage, ManagerView, TaskStatus, TaskView};

verus! {

/// One change that the kernel can make to its tasks once the first one runs.
pub enum Step {
    /// The current task lets `next` run.
    Suspend { next: int, now: usize },
    /// The current task ends, and `heir` runs if there is one.
    Exit { exit_code: i32, heir: Option<int>, now: usize },
    /// The current task forks.
    Fork { pid: usize, token: usize },
    /// The current task starts over as another application.
    Exec { image: AppImage },
    /// The current task starts another application as its child.
    Spawn { image: AppImage, pid: usize },
    /// The current task waits for `wanted`, and finds its child at `k`.
    Wait { wanted: isize, k: int },
    /// The current task maps memory.
    Mmap { start: usize, len: usize, port: usize },
    /// The current task unmaps memory.
    Munmap { start: usize, len: usize },
    /// The kernel maps an area into the current task's address space.
    InsertArea { va_start: VirtAddr, va_end: VirtAddr, flags: u8 },
    /// The kernel unmaps an area from the current task's address space.
    RemoveArea { va_start: VirtAddr, va_end: VirtAddr },
    /// The current task moves its program break.
    Sbrk { size: i32 },
    /// The current task sets its priority.
    SetPriority { prio: u8 },
    /// The kernel counts a system call of the current task.
    CountCall { syscall_id: int },
    /// The kernel changes the registers of the current task.
    SetRegisters { registers: Seq<usize> },
}

impl Step {
    /// The task that runs after the step, if the step is a switch.
    pub open spec fn switched_to(self) -> Option<int> {
        match self {
            Step::Suspend { next, .. } => Some(next),
            Step::Exit { heir, .. } => heir,
            _ => None,
        }
    }

    /// Whether the step ends the last task that could run.
    pub open spec fn ends_all(self) -> bool {
        self matches Step::Exit { heir, .. } && heir is None
    }
}

impl ManagerView {
    /// Whether `step` can lead from these tasks to those of `post`.
    pub open spec fn steps_to(self, step: Step, post: ManagerView) -> bool {
        match step {
            Step::Suspend { next, now } => {
                let marked = self.with_cur_status(TaskStatus::Ready);
                marked.is_next(next) && post == marked.dispatched(next, now)
            },
            Step::Exit { exit_code, heir, now } => {
                let marked = self.exited(exit_code);
                match heir {
                    Some(id) => marked.is_next(id) && post == marked.dispatched(id, now),
                    None => marked.none_ready() && post == marked,
                }
            },
            Step::Fork { pid, token } => post == self.with_child(
                self.cur().forked(pid, token).returning_zero(),
            ),
            Step::Exec { image } => post == self.with_cur(self.cur().replaced_by(image)),
            Step::Spawn { image, pid } => post == self.with_child(
                TaskView::from_image(image, pid).returning_zero(),
            ),
            Step::Wait { wanted, k } => self.reaped_first(wanted, k) && post == self.without_child(k),
            Step::Mmap { start, len, port } => self.can_mmap(start, len, port) && post
                == self.mmapped(start, len, port),
            Step::Munmap { start, len } => self.can_munmap(start, len) && post == self.munmapped(
                start,
                len,
            ),
            Step::InsertArea { va_start, va_end, flags } => post == self.with_area(
                va_start,
                va_end,
                flags,
            ),
            Step::RemoveArea { va_start, va_end } => post == self.without_area(va_start, va_end),
            Step::Sbrk { size } => self.cur().can_move_brk(size as int) && post == self.with_cur(
                self.cur().moved_brk(size as int),
            ),
            Step::SetPriority { prio } => post == self.with_cur(
                TaskView { priority: prio, ..self.cur() },
            ),
            Step::CountCall { syscall_id } => 0 <= syscall_id < MAX_SYSCALL_NUM
                && self.cur_info().syscall_counter[syscall_id] < u32::MAX && post
                == self.with_call_counted(syscall_id),
            Step::SetRegisters { registers } => registers.len() == NUM_REGISTERS && post
                == self.with_cur_registers(registers),
        }
    }

    /// Whether `step` is the current task's wait for its child `id`.
    pub open spec fn reaps(self, step: Step, id: int) -> bool {
        step matches Step::Wait { k, .. } && self.cur().children[k] == id
    }

    /// Whether the current task is running, and no other is.
    pub open spec fn one_running(self) -> bool {
        &&& self.valid(self.current)
        &&& forall|id: int|
            self.valid(id) ==> ((#[trigger] self.tasks[id]).status == TaskStatus::Running <==> id
                == self.current)
    }
}

} // verus!
