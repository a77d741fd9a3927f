//! Process management syscalls.
//!
//! What a call needs of the machine (the time, a fresh page table, an application's
//! file) is an argument, and what it asks of the machine (a context switch, a write to
//! user memory) is part of its result.

use vstd::prelude::*;

use crate::config::{MAX_SYSCALL_NUM, MICRO_PER_SEC, PAGE_SIZE, RESULT_REGISTER};
use crate::mm::{MapPermission, VPNRange, VirtAddr};
use crate::step::Step;
use crate::task::{
    change_program_brk, current_user_token, exit_current_and_run_next, get_task_info,
    insert_to_memset, remove_from_memset, suspend_current_and_run_next, AppImage, ManagerView,
    Switch, TaskControlBlock, TaskManager, TaskStatus, TaskView,
};

verus! {

/// A point in time.
#[derive(Debug)]
pub struct TimeVal {
    pub sec: usize,
    pub usec: usize,
}

/// Task information.
pub struct TaskInfo {
    /// Task status in its life cycle.
    pub status: TaskStatus,
    /// The numbers of syscalls called by the task.
    pub syscall_times: [u32; MAX_SYSCALL_NUM],
    /// Total running time of the task.
    pub time: usize,
}

/// A value to be written to user memory.
pub struct UserWrite<T> {
    /// The token of the page table to write through.
    pub token: usize,
    /// The virtual address of the value.
    pub va: usize,
    /// The value.
    pub content: T,
}

/// A file to be opened for reading.
pub struct OpenRequest {
    /// The token of the page table to read the path through.
    pub token: usize,
    /// The virtual address of the path.
    pub path: usize,
}

/// A child that has been waited for.
pub struct Reaped {
    /// The id that the child had.
    pub id: usize,
    /// The child, to be dropped.
    pub child: TaskControlBlock,
    /// Its exit code, for its parent.
    pub write: UserWrite<i32>,
}

impl ManagerView {
    /// The current task's child at `k`.
    pub open spec fn child(self, k: int) -> TaskView {
        self.tasks[self.cur().children[k] as int]
    }

    /// Whether the current task's child at `k` is one that a wait for `pid` is about:
    /// any child for -1, otherwise the child with that pid.
    pub open spec fn awaited(self, pid: isize, k: int) -> bool {
        &&& 0 <= k < self.cur().children.len()
        &&& pid == -1 || pid as usize == self.child(k).pid
    }

    /// Whether such a child has ended.
    pub open spec fn reapable(self, pid: isize, k: int) -> bool {
        self.awaited(pid, k) && self.child(k).status == TaskStatus::Exited
    }

    /// Whether the current task's child at `k` is the oldest of those.
    pub open spec fn reaped_first(self, pid: isize, k: int) -> bool {
        &&& self.reapable(pid, k)
        &&& forall|j: int| #[trigger] self.reapable(pid, j) ==> k <= j
    }

    /// Whether the current task may map `len` bytes at `start` with the flags `port`:
    /// at least one of the flags read, write and execute and no other, a page boundary,
    /// and no page that is mapped already.
    pub open spec fn can_mmap(self, start: usize, len: usize, port: usize) -> bool {
        &&& 1 <= port <= 7
        &&& start % PAGE_SIZE == 0
        &&& self.cur().space.none_mapped(VPNRange::touched(start as int, start + len))
    }

    /// The same with those bytes mapped.
    pub open spec fn mmapped(self, start: usize, len: usize, port: usize) -> ManagerView {
        self.with_cur_space(
            self.cur().space.map_range(
                VPNRange::touched(start as int, start + len),
                MapPermission::of_flags(port as u8),
            ),
        )
    }

    /// Whether the current task may unmap `len` bytes at `start`: a page boundary, and
    /// no page that is not mapped.
    pub open spec fn can_munmap(self, start: usize, len: usize) -> bool {
        &&& start % PAGE_SIZE == 0
        &&& self.cur().space.all_mapped(VPNRange::touched(start as int, start + len))
    }

    /// The same with those bytes unmapped.
    pub open spec fn munmapped(self, start: usize, len: usize) -> ManagerView {
        self.with_cur_space(
            self.cur().space.unmap_range(VPNRange::touched(start as int, start + len)),
        )
    }

    /// The same with the current task ended by `exit_code`.
    pub open spec fn exited(self, exit_code: i32) -> ManagerView {
        self.with_cur(TaskView { status: TaskStatus::Exited, exit_code, ..self.cur() })
    }
}

/// Ends the current task with `exit_code` and runs the next one. Gives nothing if there
/// is none: all applications have completed.
pub fn sys_exit(manager: &mut TaskManager, exit_code: i32, now: usize) -> (r: Option<Switch>)
    requires
        old(manager).live(),
    ensures
        final(manager).live(),
        match r {
            Some(switch) => {
                &&& switch.from == old(manager)@.current
                &&& old(manager)@.exited(exit_code).is_next(switch.to as int)
                &&& final(manager)@ == old(manager)@.exited(exit_code).dispatched(
                    switch.to as int,
                    now,
                )
            },
            None => {
                &&& old(manager)@.exited(exit_code).none_ready()
                &&& final(manager)@ == old(manager)@.exited(exit_code)
            },
        },
        old(manager)@.steps_to(
            Step::Exit {
                exit_code,
                heir: match r {
                    Some(switch) => Some(switch.to as int),
                    None => None,
                },
                now,
            },
            final(manager)@,
        ),
{
    manager.current_task_mut().exit_code = exit_code;
    assert(manager@.with_cur_status(TaskStatus::Exited) =~= old(manager)@.exited(exit_code));
    exit_current_and_run_next(manager, now)
}

/// Lets another task run. Gives the switch to make, and what the call returns once the
/// task runs again.
pub fn sys_yield(manager: &mut TaskManager, now: usize) -> (r: (Switch, isize))
    requires
        old(manager).live(),
    ensures
        final(manager).live(),
        r.0.from == old(manager)@.current,
        old(manager)@.with_cur_status(TaskStatus::Ready).is_next(r.0.to as int),
        final(manager)@ == old(manager)@.with_cur_status(TaskStatus::Ready).dispatched(
            r.0.to as int,
            now,
        ),
        old(manager)@.steps_to(Step::Suspend { next: r.0.to as int, now }, final(manager)@),
        r.1 == 0,
{
    let switch = suspend_current_and_run_next(manager, now);
    (switch, 0)
}

/// The current task's pid.
pub fn sys_getpid(manager: &TaskManager) -> (r: isize)
    requires
        manager.live(),
    ensures
        r == manager@.cur().pid as isize,
{
    manager.current_task().getpid() as isize
}

/// Forks the current task. The child gets the given pid and page table; it finds 0 as
/// the result of the call, its parent the child's pid.
pub fn sys_fork(manager: &mut TaskManager, pid: usize, token: usize) -> (r: isize)
    requires
        old(manager).live(),
    ensures
        final(manager).live(),
        r == pid as isize,
        final(manager)@ == old(manager)@.with_child(
            old(manager)@.cur().forked(pid, token).returning_zero(),
        ),
        old(manager)@.steps_to(Step::Fork { pid, token }, final(manager)@),
{
    let mut new_task = manager.current_task().fork(pid, token);
    let new_pid: usize = new_task.getpid();
    // The child returns from the call when it is first switched to: for it, fork
    // returns 0.
    let trap_cx = new_task.get_trap_cx();
    trap_cx.x[RESULT_REGISTER] = 0;
    manager.add_task(new_task);
    new_pid as isize
}

/// The file of the application that `sys_exec` or `sys_spawn` is to run: the path is
/// the string at `path` in the current task's memory.
pub fn app_file(manager: &TaskManager, path: usize) -> (r: OpenRequest)
    requires
        manager.live(),
    ensures
        r.token == manager@.cur().space.token,
        r.path == path,
{
    OpenRequest { token: current_user_token(manager), path }
}

/// Starts the current task over as `app`, or returns -1 if there is no such file.
pub fn sys_exec(manager: &mut TaskManager, app: Option<AppImage>) -> (r: isize)
    requires
        old(manager).live(),
    ensures
        final(manager).live(),
        match app {
            Some(image) => {
                &&& r == 0
                &&& final(manager)@ == old(manager)@.with_cur(
                    old(manager)@.cur().replaced_by(image),
                )
                &&& old(manager)@.steps_to(Step::Exec { image }, final(manager)@)
            },
            None => r == -1 && final(manager)@ == old(manager)@,
        },
{
    match app {
        Some(image) => {
            manager.current_task_mut().exec(image);
            0
        },
        None => -1,
    }
}

/// If there is not a child process whose pid is same as given, returns -1.
/// Else if there is a child process but it is still running, returns -2.
/// Else takes the oldest such child that has ended out of the children and out of the
/// task list, returns its pid, and hands it and its exit code to the caller. The pid -1 stands for any child.
pub fn sys_waitpid(manager: &mut TaskManager, pid: isize, exit_code_ptr: usize) -> (r: (
    isize,
    Option<Reaped>,
))
    requires
        old(manager).live(),
    ensures
        final(manager).live(),
        (forall|k: int| !#[trigger] old(manager)@.awaited(pid, k)) ==> {
            &&& r.0 == -1
            &&& r.1 is None
            &&& final(manager)@ == old(manager)@
        },
        (exists|k: int| #[trigger] old(manager)@.awaited(pid, k)) && (forall|k: int|
            !#[trigger] old(manager)@.reapable(pid, k)) ==> {
            &&& r.0 == -2
            &&& r.1 is None
            &&& final(manager)@ == old(manager)@
        },
        forall|k: int| #[trigger]
            old(manager)@.reaped_first(pid, k) ==> {
                &&& r.0 == old(manager)@.child(k).pid as isize
                &&& r.1 matches Some(reaped) && {
                    &&& reaped.id == old(manager)@.cur().children[k]
                    &&& reaped.child@ == old(manager)@.child(k)
                    &&& reaped.write == (UserWrite {
                        token: old(manager)@.cur().space.token,
                        va: exit_code_ptr,
                        content: old(manager)@.child(k).exit_code,
                    })
                }
                &&& final(manager)@ == old(manager)@.without_child(k)
                &&& old(manager)@.steps_to(Step::Wait { wanted: pid, k }, final(manager)@)
            },
        (exists|k: int| #[trigger] old(manager)@.reapable(pid, k)) ==> exists|k: int| #[trigger]
            old(manager)@.reaped_first(pid, k),
{
    let count: usize = manager.current_task().children.len();
    // Find a child process.
    let mut found: bool = false;
    let mut i: usize = 0;
    while i < count && !found
        invariant
            manager.live(),
            manager@ == old(manager)@,
            count == manager@.cur().children.len(),
            i <= count,
            found ==> exists|k: int| #[trigger] manager@.awaited(pid, k),
            !found ==> forall|k: int| k < i ==> !#[trigger] manager@.awaited(pid, k),
        decreases count - i + (if found { 0int } else { 1 }),
    {
        let id: usize = manager.current_task().children[i];
        let child = manager.task(id);
        if pid == -1 || pid as usize == child.getpid() {
            assert(manager@.awaited(pid, i as int));
            found = true;
        } else {
            i = i + 1;
        }
    }
    if !found {
        return (-1, None);
    }
    let mut idx: usize = 0;
    while idx < count
        invariant
            manager.live(),
            manager@ == old(manager)@,
            count == manager@.cur().children.len(),
            idx <= count,
            exists|k: int| #[trigger] manager@.awaited(pid, k),
            forall|k: int| k < idx ==> !#[trigger] manager@.reapable(pid, k),
        decreases count - idx,
    {
        let id: usize = manager.current_task().children[idx];
        let child = manager.task(id);
        if child.is_zombie() && (pid == -1 || pid as usize == child.getpid()) {
            let found_pid: usize = child.getpid();
            let exit_code: i32 = child.exit_code;
            let token: usize = manager.current_task().get_user_token();
            assert(manager@.reaped_first(pid, idx as int));
            let child = manager.remove_child(idx);
            return (
                found_pid as isize,
                Some(
                    Reaped {
                        id,
                        child,
                        write: UserWrite { token, va: exit_code_ptr, content: exit_code },
                    },
                ),
            );
        }
        idx = idx + 1;
    }
    (-2, None)
}

/// The time `us`, in microseconds, as seconds and microseconds, to be written to `ts`.
pub fn sys_get_time(manager: &TaskManager, ts: usize, _tz: usize, us: usize) -> (r: (
    isize,
    UserWrite<TimeVal>,
))
    requires
        manager.live(),
    ensures
        r.0 == 0,
        r.1.token == manager@.cur().space.token,
        r.1.va == ts,
        r.1.content.sec * MICRO_PER_SEC + r.1.content.usec == us,
        r.1.content.usec < MICRO_PER_SEC,
{
    let content = TimeVal { sec: us / MICRO_PER_SEC, usec: us % MICRO_PER_SEC };
    let token: usize = current_user_token(manager);
    (0, UserWrite { token, va: ts, content })
}

/// Information about the current task at the time `now`, in milliseconds, to be written
/// to `ti`.
pub fn sys_task_info(manager: &TaskManager, ti: usize, now: usize) -> (r: (
    isize,
    UserWrite<TaskInfo>,
))
    requires
        manager.live(),
        manager@.cur_info().first_scheduled_time matches Some(t) && t <= now,
    ensures
        r.0 == 0,
        r.1.token == manager@.cur().space.token,
        r.1.va == ti,
        r.1.content.status == TaskStatus::Running,
        r.1.content.time == now - manager@.cur_info().first_scheduled_time->0,
        r.1.content.syscall_times@ == manager@.cur_info().syscall_counter,
{
    let info = get_task_info(manager);
    let first_scheduled_time: usize = info.first_scheduled_time.unwrap();
    let content = TaskInfo {
        status: TaskStatus::Running,
        time: now - first_scheduled_time,
        syscall_times: info.syscall_counter,
    };
    let token: usize = current_user_token(manager);
    (0, UserWrite { token, va: ti, content })
}

/// Maps `len` bytes at `start` into the current task's address space, with the flags
/// `port`: bit 0 is read, bit 1 is write and bit 2 is execute.
pub fn sys_mmap(manager: &mut TaskManager, start: usize, len: usize, port: usize) -> (r: isize)
    requires
        old(manager).live(),
        1 <= port <= 7 ==> start + len <= usize::MAX,
    ensures
        final(manager).live(),
        r == (if old(manager)@.can_mmap(start, len, port) {
            0int
        } else {
            -1
        }),
        final(manager)@ == (if old(manager)@.can_mmap(start, len, port) {
            old(manager)@.mmapped(start, len, port)
        } else {
            old(manager)@
        }),
        r == 0 ==> old(manager)@.steps_to(Step::Mmap { start, len, port }, final(manager)@),
{
    assert((port & !0x7 == 0 && port & 0x7 != 0) == (1 <= port <= 7)) by (bit_vector);
    if port & !0x7 != 0 || port & 0x7 == 0 {
        return -1;
    }
    let va_start = VirtAddr::from(start);
    let va_end = VirtAddr::from(start + len);
    if !va_start.aligned() {
        return -1;
    }
    let vpn_range = VPNRange::new(va_start.floor(), va_end.ceil());
    if manager.current_task().memory_set.any_page_mapped(vpn_range) {
        return -1;
    }
    insert_to_memset(manager, va_start, va_end, port as u8);
    0
}

/// Unmaps `len` bytes at `start` from the current task's address space.
pub fn sys_munmap(manager: &mut TaskManager, start: usize, len: usize) -> (r: isize)
    requires
        old(manager).live(),
        start + len <= usize::MAX,
    ensures
        final(manager).live(),
        r == (if old(manager)@.can_munmap(start, len) {
            0int
        } else {
            -1
        }),
        final(manager)@ == (if old(manager)@.can_munmap(start, len) {
            old(manager)@.munmapped(start, len)
        } else {
            old(manager)@
        }),
        r == 0 ==> old(manager)@.steps_to(Step::Munmap { start, len }, final(manager)@),
{
    let va_start = VirtAddr::from(start);
    let va_end = VirtAddr::from(start + len);
    if !va_start.aligned() {
        return -1;
    }
    let vpn_range = VPNRange::new(va_start.floor(), va_end.ceil());
    if !manager.current_task().memory_set.all_pages_mapped(vpn_range) {
        return -1;
    }
    remove_from_memset(manager, va_start, va_end);
    0
}

/// Changes the data segment size by `size` bytes. Returns the program break before the
/// change, or -1 if it cannot be made.
pub fn sys_sbrk(manager: &mut TaskManager, size: i32) -> (r: isize)
    requires
        old(manager).live(),
    ensures
        final(manager).live(),
        r == (if old(manager)@.cur().can_move_brk(size as int) {
            old(manager)@.cur().program_brk as isize as int
        } else {
            -1
        }),
        final(manager)@ == (if old(manager)@.cur().can_move_brk(size as int) {
            old(manager)@.with_cur(old(manager)@.cur().moved_brk(size as int))
        } else {
            old(manager)@
        }),
        old(manager)@.cur().can_move_brk(size as int) ==> old(manager)@.steps_to(
            Step::Sbrk { size },
            final(manager)@,
        ),
{
    match change_program_brk(manager, size) {
        Some(old_brk) => old_brk as isize,
        None => -1,
    }
}

/// Runs `app` as a new child of the current task, with the given pid, and returns the
/// pid; or returns -1 if there is no such file.
pub fn sys_spawn(manager: &mut TaskManager, app: Option<AppImage>, pid: usize) -> (r: isize)
    requires
        old(manager).live(),
    ensures
        final(manager).live(),
        match app {
            Some(image) => {
                &&& r == pid as isize
                &&& final(manager)@ == old(manager)@.with_child(
                    TaskView::from_image(image, pid).returning_zero(),
                )
                &&& old(manager)@.steps_to(Step::Spawn { image, pid }, final(manager)@)
            },
            None => r == -1 && final(manager)@ == old(manager)@,
        },
{
    match app {
        Some(image) => {
            let mut child_task = TaskControlBlock::new(image, pid);
            let child_pid: usize = child_task.getpid();
            let trap_cx = child_task.get_trap_cx();
            trap_cx.x[RESULT_REGISTER] = 0;
            manager.add_task(child_task);
            child_pid as isize
        },
        None => -1,
    }
}

/// Sets the current task's priority to the low eight bits of `prio`, and returns
/// `prio`; or returns -1 if it is less than 2.
pub fn sys_set_priority(manager: &mut TaskManager, prio: isize) -> (r: isize)
    requires
        old(manager).live(),
    ensures
        final(manager).live(),
        r == (if prio > 1 {
            prio as int
        } else {
            -1
        }),
        final(manager)@ == (if prio > 1 {
            old(manager)@.with_cur(
                TaskView { priority: (prio % 256) as u8, ..old(manager)@.cur() },
            )
        } else {
            old(manager)@
        }),
        prio > 1 ==> old(manager)@.steps_to(
            Step::SetPriority { prio: (prio % 256) as u8 },
            final(manager)@,
        ),
{
    if prio > 1 {
        assert(prio > 1 ==> prio as u8 == prio % 256) by (bit_vector);
        manager.current_task_mut().priority = prio as u8;
        prio
    } else {
        -1
    }
}

} // verus!
