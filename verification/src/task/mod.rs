//! Tasks and their scheduling.
//!
//! A [`TaskManager`] controls all the tasks. The functions of this module are its
//! interface for the rest of the kernel. Those that change which task runs hand back
//! the context switch to make: the switch itself is the caller's.

mod control;
mod manager;

use vstd::prelude::*;

use crate::config::MAX_SYSCALL_NUM;
use crate::mm::VirtAddr;
use crate::step::Step;

pub use control::{AppImage, TaskControlBlock, TaskStatus, TaskView, TrapContext};
pub use manager::{InfoView, ManagerView, Switch, TaskInfo, TaskManager};

verus! {

/// Makes the first task in the task list the running one, and gives its id: the caller
/// switches to its context.
pub fn run_first_task(manager: &mut TaskManager, now: usize) -> (r: usize)
    requires
        old(manager).live(),
    ensures
        final(manager).live(),
        r == 0,
        final(manager)@ == old(manager)@.first_dispatched(now),
{
    manager.run_first_task(now)
}

/// Suspends the current `Running` task and runs the next task in the task list. There
/// always is one: the suspended task itself, if no other waits to be run.
pub fn suspend_current_and_run_next(manager: &mut TaskManager, now: usize) -> (r: Switch)
    requires
        old(manager).live(),
    ensures
        final(manager).live(),
        r.from == old(manager)@.current,
        old(manager)@.with_cur_status(TaskStatus::Ready).is_next(r.to as int),
        final(manager)@ == old(manager)@.with_cur_status(TaskStatus::Ready).dispatched(
            r.to as int,
            now,
        ),
        old(manager)@.steps_to(Step::Suspend { next: r.to as int, now }, final(manager)@),
{
    manager.mark_current_suspended();
    assert(manager@.ready(manager@.current));
    manager.run_next_task(now).unwrap()
}

/// Exits the current `Running` task and runs the next task in the task list. Gives
/// nothing if there is none: all applications have completed.
pub fn exit_current_and_run_next(manager: &mut TaskManager, now: usize) -> (r: Option<Switch>)
    requires
        old(manager).live(),
    ensures
        final(manager).live(),
        match r {
            Some(switch) => {
                &&& switch.from == old(manager)@.current
                &&& old(manager)@.with_cur_status(TaskStatus::Exited).is_next(switch.to as int)
                &&& final(manager)@ == old(manager)@.with_cur_status(
                    TaskStatus::Exited,
                ).dispatched(switch.to as int, now)
            },
            None => {
                &&& old(manager)@.with_cur_status(TaskStatus::Exited).none_ready()
                &&& final(manager)@ == old(manager)@.with_cur_status(TaskStatus::Exited)
            },
        },
        old(manager)@.steps_to(
            Step::Exit {
                exit_code: old(manager)@.cur().exit_code,
                heir: match r {
                    Some(switch) => Some(switch.to as int),
                    None => None,
                },
                now,
            },
            final(manager)@,
        ),
{
    manager.mark_current_exited();
    assert(manager@ == old(manager)@.exited(old(manager)@.cur().exit_code));
    manager.run_next_task(now)
}

/// Counts one more call of the system call `syscall_id` by the current task.
pub fn increase_syscall_counter(manager: &mut TaskManager, syscall_id: usize)
    requires
        old(manager).live(),
        syscall_id < MAX_SYSCALL_NUM,
        old(manager)@.cur_info().syscall_counter[syscall_id as int] < u32::MAX,
    ensures
        final(manager).live(),
        final(manager)@ == old(manager)@.with_call_counted(syscall_id as int),
        old(manager)@.steps_to(
            Step::CountCall { syscall_id: syscall_id as int },
            final(manager)@,
        ),
{
    manager.increase_syscall_counter(syscall_id);
}

/// Information about the current task.
pub fn get_task_info(manager: &TaskManager) -> (r: TaskInfo)
    requires
        manager.live(),
    ensures
        r@ == manager@.cur_info(),
{
    manager.get_task_info()
}

/// The token of the current `Running` task's page table.
pub fn current_user_token(manager: &TaskManager) -> (r: usize)
    requires
        manager.live(),
    ensures
        r == manager@.cur().space.token,
{
    manager.get_current_token()
}

/// The registers of the current `Running` task.
pub fn current_trap_cx(manager: &mut TaskManager) -> (r: &mut TrapContext)
    requires
        old(manager).live(),
    ensures
        final(manager).live(),
        r.x@ == old(manager)@.cur().registers,
        final(manager)@ == old(manager)@.with_cur_registers(final(r).x@),
        old(manager)@.steps_to(
            Step::SetRegisters { registers: final(r).x@ },
            final(manager)@,
        ),
{
    manager.get_current_trap_cx()
}

/// Changes the current `Running` task's program break by `size` bytes, and gives the
/// break before the change.
pub fn change_program_brk(manager: &mut TaskManager, size: i32) -> (r: Option<usize>)
    requires
        old(manager).live(),
    ensures
        final(manager).live(),
        r == (if old(manager)@.cur().can_move_brk(size as int) {
            Some(old(manager)@.cur().program_brk)
        } else {
            None
        }),
        final(manager)@ == (if old(manager)@.cur().can_move_brk(size as int) {
            old(manager)@.with_cur(old(manager)@.cur().moved_brk(size as int))
        } else {
            old(manager)@
        }),
        r is Some ==> old(manager)@.steps_to(Step::Sbrk { size }, final(manager)@),
{
    manager.change_current_program_brk(size)
}

/// Maps the pages from `va_start` up to `va_end` into the current task's address space,
/// with the permission that `flags` asks for.
pub fn insert_to_memset(
    manager: &mut TaskManager,
    va_start: VirtAddr,
    va_end: VirtAddr,
    flags: u8,
)
    requires
        old(manager).live(),
    ensures
        final(manager).live(),
        final(manager)@ == old(manager)@.with_area(va_start, va_end, flags),
        old(manager)@.steps_to(
            Step::InsertArea { va_start, va_end, flags },
            final(manager)@,
        ),
{
    manager.insert_to_memset(va_start, va_end, flags);
}

/// Unmaps the pages from `va_start` up to `va_end` from the current task's address
/// space.
pub fn remove_from_memset(manager: &mut TaskManager, va_start: VirtAddr, va_end: VirtAddr)
    requires
        old(manager).live(),
    ensures
        final(manager).live(),
        final(manager)@ == old(manager)@.without_area(va_start, va_end),
        old(manager)@.steps_to(Step::RemoveArea { va_start, va_end }, final(manager)@),
{
    manager.remove_from_memset(va_start, va_end);
}

} // verus!
