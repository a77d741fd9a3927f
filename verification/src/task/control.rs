//! What the kernel keeps of one task.

use vstd::prelude::*;

use crate::config::{DEFAULT_PRIORITY, NUM_REGISTERS, RESULT_REGISTER};
use crate::mm::{MapPermission, MemorySet, SpaceView, VPNRange, VirtAddr, VirtPageNum};

verus! {

/// Where a task stands in its life cycle.
#[derive(Clone, Copy, Debug, PartialEq, Eq, Structural)]
pub enum TaskStatus {
    /// There is no task: its place in the task list is free.
    UnInit,
    /// Waits to be run.
    Ready,
    /// Has the processor.
    Running,
    /// Has ended, and is never run again.
    Exited,
}

/// The registers of a task that is in the kernel.
pub struct TrapContext {
    pub x: [usize; NUM_REGISTERS],
}

/// An application ready to run, as loaded from its file.
pub struct AppImage {
    /// The pages of the application.
    pub memory_set: MemorySet,
    /// The registers it starts with.
    pub trap_cx: TrapContext,
    /// Where its data segment ends at the start.
    pub heap_bottom: usize,
}

/// What the kernel keeps of one task.
pub struct TaskControlBlock {
    /// Process id.
    pub pid: usize,
    /// Where the task stands in its life cycle.
    pub task_status: TaskStatus,
    /// The registers of the task.
    pub trap_cx: TrapContext,
    /// The address space of the task.
    pub memory_set: MemorySet,
    /// The lowest program break.
    pub heap_bottom: usize,
    /// The program break: where the data segment ends.
    pub program_brk: usize,
    /// Scheduling priority.
    pub priority: u8,
    /// What the task ended with.
    pub exit_code: i32,
    /// The ids of the child tasks that have not been waited for, oldest first.
    pub children: Vec<usize>,
}

/// A task as a mathematical value.
#[verifier::ext_equal]
pub struct TaskView {
    pub pid: usize,
    pub status: TaskStatus,
    pub registers: Seq<usize>,
    pub space: SpaceView,
    pub heap_bottom: usize,
    pub program_brk: usize,
    pub priority: u8,
    pub exit_code: i32,
    pub children: Seq<usize>,
}

impl View for TaskControlBlock {
    type V = TaskView;

    open spec fn view(&self) -> TaskView {
        TaskView {
            pid: self.pid,
            status: self.task_status,
            registers: self.trap_cx.x@,
            space: self.memory_set@,
            heap_bottom: self.heap_bottom,
            program_brk: self.program_brk,
            priority: self.priority,
            exit_code: self.exit_code,
            children: self.children@,
        }
    }
}

impl TaskView {
    /// A task that has just been made from `image`.
    pub open spec fn from_image(image: AppImage, pid: usize) -> TaskView {
        TaskView {
            pid,
            status: TaskStatus::Ready,
            registers: image.trap_cx.x@,
            space: image.memory_set@,
            heap_bottom: image.heap_bottom,
            program_brk: image.heap_bottom,
            priority: DEFAULT_PRIORITY,
            exit_code: 0,
            children: Seq::empty(),
        }
    }

    /// The child that the task forks: the same program at the same point, ready to
    /// run, in an address space of its own and without children.
    pub open spec fn forked(self, pid: usize, token: usize) -> TaskView {
        TaskView {
            pid,
            status: TaskStatus::Ready,
            space: SpaceView { token, ..self.space },
            exit_code: 0,
            children: Seq::empty(),
            ..self
        }
    }

    /// The task after it has started over as `image`.
    pub open spec fn replaced_by(self, image: AppImage) -> TaskView {
        TaskView {
            registers: image.trap_cx.x@,
            space: image.memory_set@,
            heap_bottom: image.heap_bottom,
            program_brk: image.heap_bottom,
            ..self
        }
    }

    /// The task with 0 in the register that carries a system call's result.
    pub open spec fn returning_zero(self) -> TaskView {
        TaskView { registers: self.registers.update(RESULT_REGISTER as int, 0), ..self }
    }

    /// What a place in the task list holds while there is no task.
    pub open spec fn vacant() -> TaskView {
        TaskView {
            pid: 0,
            status: TaskStatus::UnInit,
            registers: Seq::new(NUM_REGISTERS as nat, |i: int| 0usize),
            space: SpaceView { token: 0, pages: Map::empty() },
            heap_bottom: 0,
            program_brk: 0,
            priority: DEFAULT_PRIORITY,
            exit_code: 0,
            children: Seq::empty(),
        }
    }

    /// The pages that the data segment has above the break `low` when it ends at `high`.
    pub open spec fn brk_pages(low: int, high: int) -> VPNRange {
        VPNRange {
            start: VirtPageNum(VirtAddr::page_after(low) as usize),
            end: VirtPageNum(VirtAddr::page_after(high) as usize),
        }
    }

    /// Whether the program break can move by `size`: it stays at or above the lowest
    /// break, and no page that the data segment gains is in use already.
    pub open spec fn can_move_brk(self, size: int) -> bool {
        let new_brk = self.program_brk + size;
        &&& self.heap_bottom <= new_brk <= usize::MAX
        &&& self.space.none_mapped(Self::brk_pages(self.program_brk as int, new_brk))
    }

    /// The task with its program break moved by `size`. The pages that the data
    /// segment gains are mapped for reading and writing; those it loses are unmapped.
    pub open spec fn moved_brk(self, size: int) -> TaskView {
        let new_brk = self.program_brk + size;
        TaskView {
            program_brk: new_brk as usize,
            space: if size < 0 {
                self.space.unmap_range(Self::brk_pages(new_brk, self.program_brk as int))
            } else {
                self.space.map_range(
                    Self::brk_pages(self.program_brk as int, new_brk),
                    MapPermission::of_heap(),
                )
            },
            ..self
        }
    }
}

impl TrapContext {
    /// A copy of the registers.
    pub fn copied(&self) -> (r: TrapContext)
        ensures
            r.x@ == self.x@,
    {
        TrapContext { x: self.x }
    }
}

impl TaskControlBlock {
    /// A task that starts as `image`.
    pub fn new(image: AppImage, pid: usize) -> (r: TaskControlBlock)
        ensures
            r@ == TaskView::from_image(image, pid),
    {
        TaskControlBlock {
            pid,
            task_status: TaskStatus::Ready,
            trap_cx: image.trap_cx,
            memory_set: image.memory_set,
            heap_bottom: image.heap_bottom,
            program_brk: image.heap_bottom,
            priority: DEFAULT_PRIORITY,
            exit_code: 0,
            children: Vec::new(),
        }
    }

    /// What a place in the task list holds while there is no task.
    pub(crate) fn vacant() -> (r: TaskControlBlock)
        ensures
            r@ == TaskView::vacant(),
    {
        let r = TaskControlBlock {
            pid: 0,
            task_status: TaskStatus::UnInit,
            trap_cx: TrapContext { x: [0; NUM_REGISTERS] },
            memory_set: MemorySet::new_bare(0),
            heap_bottom: 0,
            program_brk: 0,
            priority: DEFAULT_PRIORITY,
            exit_code: 0,
            children: Vec::new(),
        };
        assert(r@ =~= TaskView::vacant());
        r
    }

    /// Process id.
    pub fn getpid(&self) -> (r: usize)
        ensures
            r == self@.pid,
    {
        self.pid
    }

    /// Whether the task has ended.
    pub fn is_zombie(&self) -> (r: bool)
        ensures
            r == (self@.status == TaskStatus::Exited),
    {
        self.task_status == TaskStatus::Exited
    }

    /// The token of the task's page table.
    pub fn get_user_token(&self) -> (r: usize)
        ensures
            r == self@.space.token,
    {
        self.memory_set.token()
    }

    /// The registers of the task.
    pub fn get_trap_cx(&mut self) -> (r: &mut TrapContext)
        ensures
            r.x@ == old(self)@.registers,
            final(self)@ == (TaskView { registers: final(r).x@, ..old(self)@ }),
    {
        &mut self.trap_cx
    }

    /// The child that the task forks, with the pid and the page table made for it.
    pub fn fork(&self, pid: usize, token: usize) -> (r: TaskControlBlock)
        ensures
            r@ == self@.forked(pid, token),
    {
        TaskControlBlock {
            pid,
            task_status: TaskStatus::Ready,
            trap_cx: self.trap_cx.copied(),
            memory_set: MemorySet::from_existed_user(&self.memory_set, token),
            heap_bottom: self.heap_bottom,
            program_brk: self.program_brk,
            priority: self.priority,
            exit_code: 0,
            children: Vec::new(),
        }
    }

    /// Starts over as `image`.
    pub fn exec(&mut self, image: AppImage)
        ensures
            final(self)@ == old(self)@.replaced_by(image),
    {
        self.trap_cx = image.trap_cx;
        self.memory_set = image.memory_set;
        self.heap_bottom = image.heap_bottom;
        self.program_brk = image.heap_bottom;
    }

    /// Moves the program break by `size` bytes, and gives the break before the move.
    pub fn change_program_brk(&mut self, size: i32) -> (r: Option<usize>)
        ensures
            r == (if old(self)@.can_move_brk(size as int) {
                Some(old(self)@.program_brk)
            } else {
                None
            }),
            final(self)@ == (if old(self)@.can_move_brk(size as int) {
                old(self)@.moved_brk(size as int)
            } else {
                old(self)@
            }),
    {
        let old_brk: usize = self.program_brk;
        let wide_brk: i128 = old_brk as i128 + size as i128;
        if wide_brk < self.heap_bottom as i128 || wide_brk > usize::MAX as i128 {
            return None;
        }
        let new_brk: usize = wide_brk as usize;
        let old_end: VirtPageNum = VirtAddr::from(old_brk).ceil();
        let new_end: VirtPageNum = VirtAddr::from(new_brk).ceil();
        if size < 0 {
            self.memory_set.unmap_pages(VPNRange::new(new_end, old_end));
        } else {
            let gained = VPNRange::new(old_end, new_end);
            if self.memory_set.any_page_mapped(gained) {
                return None;
            }
            self.memory_set.map_pages(gained, MapPermission::heap());
        }
        self.program_brk = new_brk;
        Some(old_brk)
    }
}

} // verus!
