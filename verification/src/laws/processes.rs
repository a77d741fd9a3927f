//! What a task can rely on when it makes, replaces and waits for processes.

use vstd::prelude::*;

use crate::config::{DEFAULT_PRIORITY, MAX_SYSCALL_NUM, NUM_REGISTERS};
use crate::syscall::process::{
    app_file, sys_exec, sys_fork, sys_get_time, sys_getpid, sys_sbrk, sys_set_priority, sys_spawn,
    sys_task_info, sys_waitpid, OpenRequest, Reaped, TaskInfo, TimeVal, UserWrite,
};
use crate::task::{AppImage, ManagerView, TaskManager, TaskStatus, TaskView};

verus! {

/// Whether `post` is `pre` with one task more, at the place `id`: it is the youngest child
/// of the current task, waits to be run, has run at no time, has made no system call and
/// has no children. Its place is the first that was free.
pub open spec fn has_new_child(pre: ManagerView, post: ManagerView, id: int) -> bool {
    let me = pre.current;
    &&& 0 <= id < post.tasks.len()
    &&& id == pre.tasks.len() || (id < pre.tasks.len() && pre.tasks[id].status
        == TaskStatus::UnInit)
    &&& forall|other: int|
        0 <= other < id ==> (#[trigger] pre.tasks[other]).status != TaskStatus::UnInit
    &&& post.tasks[id].status == TaskStatus::Ready
    &&& post.tasks[id].children.len() == 0
    &&& post.tasks[id].exit_code == 0
    &&& post.infos[id].first_scheduled_time is None
    &&& post.infos[id].syscall_counter.len() == MAX_SYSCALL_NUM
    &&& forall|call: int|
        0 <= call < MAX_SYSCALL_NUM ==> #[trigger] post.infos[id].syscall_counter[call] == 0
    &&& post.current == me
    &&& post.tasks.len() == (if id < pre.tasks.len() {
        pre.tasks.len()
    } else {
        pre.tasks.len() + 1
    })
    &&& post.infos.len() == post.tasks.len()
    &&& forall|other: int|
        0 <= other < pre.tasks.len() && other != id && other != me ==> #[trigger] post.tasks[other]
            == pre.tasks[other]
    &&& forall|other: int|
        0 <= other < pre.tasks.len() && other != id ==> #[trigger] post.infos[other]
            == pre.infos[other]
    &&& post.tasks[me] == (TaskView {
        children: pre.tasks[me].children.push(id as usize),
        ..pre.tasks[me]
    })
}

/// The place of a new task is the first that is free.
proof fn lemma_first_free(tasks: ManagerView)
    requires
        tasks.live(),
    ensures
        0 <= tasks.free_place() <= tasks.tasks.len(),
        tasks.free_place() != tasks.current,
        tasks.free_place() < tasks.tasks.len() ==> tasks.tasks[tasks.free_place()].status
            == TaskStatus::UnInit,
        forall|other: int|
            0 <= other < tasks.free_place() ==> (#[trigger] tasks.tasks[other]).status
                != TaskStatus::UnInit,
{
    tasks.lemma_free_place_from(0);
    assert forall|other: int| 0 <= other < tasks.free_place() implies (
    #[trigger] tasks.tasks[other]).status != TaskStatus::UnInit by {
        assert(tasks.exists_task(other));
    }
}

/// The id of the current task's youngest child.
pub open spec fn youngest(tasks: ManagerView) -> int {
    tasks.tasks[tasks.current].children.last() as int
}

/// `fork` makes a child, and returns the child's pid to the parent.
pub proof fn law_fork_makes_a_child(m: &mut TaskManager, pid: usize, token: usize, r: isize)
    requires
        old(m).live(),
        old(m)@.tasks.len() <= usize::MAX,
        call_ensures(sys_fork, (m, pid, token), r),
    ensures
        r == pid as isize,
        has_new_child(old(m)@, final(m)@, youngest(final(m)@)),
        final(m)@.tasks[youngest(final(m)@)].pid == pid,
{
    lemma_first_free(m@);
}

/// The child of a `fork` is a copy of its parent: it has the same pages, the same break and
/// lowest break, the same priority and the same registers, but 0 in the register that
/// carries the result of the call. Only its page table is its own.
pub proof fn law_forked_child_is_a_copy(m: &mut TaskManager, pid: usize, token: usize, r: isize)
    requires
        old(m).live(),
        old(m)@.tasks.len() <= usize::MAX,
        call_ensures(sys_fork, (m, pid, token), r),
    ensures
        ({
            let parent = old(m)@.tasks[old(m)@.current];
            let child = final(m)@.tasks[youngest(final(m)@)];
            &&& child.space.pages == parent.space.pages
            &&& child.space.token == token
            &&& child.heap_bottom == parent.heap_bottom
            &&& child.program_brk == parent.program_brk
            &&& child.priority == parent.priority
            &&& child.registers.len() == NUM_REGISTERS
            &&& child.registers[10] == 0
            &&& forall|i: int|
                0 <= i < NUM_REGISTERS && i != 10 ==> #[trigger] child.registers[i]
                    == parent.registers[i]
        }),
{
    lemma_first_free(m@);
}

/// Whatever a forked child asks of its break, it gets the answer that its parent would have
/// got at the fork; for 0 that is its parent's break.
pub proof fn law_forked_child_has_its_parents_break(
    m: &mut TaskManager,
    pid: usize,
    token: usize,
    r: isize,
    by_child: &mut TaskManager,
    by_parent: &mut TaskManager,
    size: i32,
    r_child: isize,
    r_parent: isize,
)
    requires
        old(m).live(),
        old(m)@.tasks.len() <= usize::MAX,
        call_ensures(sys_fork, (m, pid, token), r),
        old(by_child).live(),
        old(by_child)@.current == youngest(final(m)@),
        old(by_child)@.tasks[youngest(final(m)@)] == (TaskView {
            status: TaskStatus::Running,
            ..final(m)@.tasks[youngest(final(m)@)]
        }),
        call_ensures(sys_sbrk, (by_child, size), r_child),
        old(by_parent).live(),
        old(by_parent)@ == old(m)@,
        call_ensures(sys_sbrk, (by_parent, size), r_parent),
    ensures
        r_child == r_parent,
        ({
            let parent = old(m)@.tasks[old(m)@.current];
            size == 0 && parent.heap_bottom <= parent.program_brk ==> r_child
                == parent.program_brk as isize
        }),
{
    law_forked_child_is_a_copy(m, pid, token, r);
    crate::laws::memory::law_sbrk_is_granted(by_child, size, r_child);
    crate::laws::memory::law_sbrk_is_granted(by_parent, size, r_parent);
}

/// `exec` makes the current task the program in the file: memory, registers, break and
/// lowest break are those of the file, whatever they were. The process stays the same:
/// pid, status, priority, exit code and children, and so does every other task. Without a
/// file it returns -1, and nothing changes.
pub proof fn law_exec_starts_the_file(m: &mut TaskManager, app: Option<AppImage>, r: isize)
    requires
        old(m).live(),
        call_ensures(sys_exec, (m, app), r),
    ensures
        ({
            let before = old(m)@.tasks[old(m)@.current];
            let after = final(m)@.tasks[old(m)@.current];
            match app {
                Some(image) => {
                    &&& r == 0
                    &&& after.space.pages == image.memory_set@.pages
                    &&& after.space.token == image.memory_set@.token
                    &&& after.registers == image.trap_cx.x@
                    &&& after.heap_bottom == image.heap_bottom
                    &&& after.program_brk == image.heap_bottom
                    &&& after.pid == before.pid
                    &&& after.status == before.status
                    &&& after.priority == before.priority
                    &&& after.exit_code == before.exit_code
                    &&& after.children == before.children
                    &&& final(m)@.current == old(m)@.current
                    &&& final(m)@.infos == old(m)@.infos
                    &&& final(m)@.tasks.len() == old(m)@.tasks.len()
                    &&& forall|id: int|
                        old(m)@.valid(id) && id != old(m)@.current
                            ==> #[trigger] final(m)@.tasks[id] == old(m)@.tasks[id]
                },
                None => r == -1 && final(m)@ == old(m)@,
            }
        }),
{
}

/// Right after an `exec` the break is the lowest one of the new program, whatever the break
/// was before: `sbrk` by 0 returns it.
pub proof fn law_exec_starts_with_its_own_break(
    m1: &mut TaskManager,
    m2: &mut TaskManager,
    image: AppImage,
    r1: isize,
    r2: isize,
)
    requires
        old(m1).live(),
        old(m2).live(),
        call_ensures(sys_exec, (m1, Some(image)), r1),
        old(m2)@ == final(m1)@,
        call_ensures(sys_sbrk, (m2, 0), r2),
    ensures
        r2 == image.heap_bottom as isize,
{
    law_exec_starts_the_file(m1, Some(image), r1);
    crate::laws::memory::law_sbrk_is_granted(m2, 0, r2);
}

/// What a program finds after an `exec` does not depend on the task that made the call: two
/// tasks that start the same file have the same memory, registers and break.
pub proof fn law_exec_forgets_the_old_program(
    m1: &mut TaskManager,
    m2: &mut TaskManager,
    image: AppImage,
    r1: isize,
    r2: isize,
)
    requires
        old(m1).live(),
        old(m2).live(),
        call_ensures(sys_exec, (m1, Some(image)), r1),
        call_ensures(sys_exec, (m2, Some(image)), r2),
    ensures
        r1 == r2,
        ({
            let one = final(m1)@.tasks[final(m1)@.current];
            let two = final(m2)@.tasks[final(m2)@.current];
            &&& one.space == two.space
            &&& one.registers == two.registers
            &&& one.heap_bottom == two.heap_bottom
            &&& one.program_brk == two.program_brk
        }),
{
    law_exec_starts_the_file(m1, Some(image), r1);
    law_exec_starts_the_file(m2, Some(image), r2);
}

/// `spawn` makes a child that is the program in the file, with nothing of its parent, and
/// returns the child's pid. Without a file it returns -1, and nothing changes.
pub proof fn law_spawn_starts_the_file(
    m: &mut TaskManager,
    app: Option<AppImage>,
    pid: usize,
    r: isize,
)
    requires
        old(m).live(),
        old(m)@.tasks.len() <= usize::MAX,
        call_ensures(sys_spawn, (m, app, pid), r),
    ensures
        match app {
            Some(image) => {
                let child = final(m)@.tasks[youngest(final(m)@)];
                &&& r == pid as isize
                &&& has_new_child(old(m)@, final(m)@, youngest(final(m)@))
                &&& child.pid == pid
                &&& child.space.pages == image.memory_set@.pages
                &&& child.space.token == image.memory_set@.token
                &&& child.heap_bottom == image.heap_bottom
                &&& child.program_brk == image.heap_bottom
                &&& child.priority == DEFAULT_PRIORITY
                &&& child.registers.len() == NUM_REGISTERS
                &&& child.registers[10] == 0
                &&& forall|i: int|
                    0 <= i < NUM_REGISTERS && i != 10 ==> #[trigger] child.registers[i]
                        == image.trap_cx.x@[i]
            },
            None => r == -1 && final(m)@ == old(m)@,
        },
{
    lemma_first_free(m@);
}

/// Whether the current task's child at `k` is meant by `pid`, where -1 means any child.
pub open spec fn meant(tasks: ManagerView, pid: isize, k: int) -> bool {
    let children = tasks.tasks[tasks.current].children;
    0 <= k < children.len() && (pid == -1 || tasks.tasks[children[k] as int].pid == pid as usize)
}

/// Whether the current task's child at `k` has ended.
pub open spec fn ended(tasks: ManagerView, k: int) -> bool {
    tasks.tasks[tasks.tasks[tasks.current].children[k] as int].status == TaskStatus::Exited
}

/// A wait returns -1 if no child is meant, and -2 if one is meant but none that is meant has
/// ended; nothing changes. Otherwise it takes a child.
pub proof fn law_wait_is_answered(
    m: &mut TaskManager,
    pid: isize,
    exit_code_ptr: usize,
    r: (isize, Option<Reaped>),
)
    requires
        old(m).live(),
        call_ensures(sys_waitpid, (m, pid, exit_code_ptr), r),
    ensures
        (forall|k: int| !#[trigger] meant(old(m)@, pid, k)) ==> r.0 == -1,
        (exists|k: int| #[trigger] meant(old(m)@, pid, k)) && (forall|k: int| #[trigger]
            meant(old(m)@, pid, k) ==> !ended(old(m)@, k)) ==> r.0 == -2,
        r.1 is None <==> (forall|k: int| #[trigger]
            meant(old(m)@, pid, k) ==> !ended(old(m)@, k)),
        r.1 is None ==> final(m)@ == old(m)@,
{
    let tasks = m@;
    assert forall|k: int| #[trigger] tasks.awaited(pid, k) <==> meant(tasks, pid, k) by {}
    assert forall|k: int| #[trigger] meant(tasks, pid, k) <==> tasks.awaited(pid, k) by {}
    assert forall|k: int| #[trigger]
        tasks.reapable(pid, k) <==> meant(tasks, pid, k) && ended(tasks, k) by {}
    if exists|k: int| #[trigger] meant(tasks, pid, k) && ended(tasks, k) {
        let k = choose|k: int| #[trigger] meant(tasks, pid, k) && ended(tasks, k);
        assert(tasks.reapable(pid, k));
    } else {
        assert forall|k: int| !#[trigger] tasks.reapable(pid, k) by {
            if tasks.reapable(pid, k) {
                assert(meant(tasks, pid, k) && ended(tasks, k));
            }
        }
        if exists|k: int| #[trigger] meant(tasks, pid, k) {
            let k = choose|k: int| #[trigger] meant(tasks, pid, k);
            assert(tasks.awaited(pid, k));
            assert(tasks.child(k) == tasks.tasks[tasks.tasks[tasks.current].children[k] as int]);
        }
    }
}

/// A wait takes the oldest child that is meant and has ended. It returns the child's pid
/// and hands over its exit code, to be written where the caller has said in the caller's
/// memory. The child leaves its parent's children, whose order stays, and the task list;
/// nothing else changes.
pub proof fn law_wait_takes_the_oldest_ended_child(
    m: &mut TaskManager,
    pid: isize,
    exit_code_ptr: usize,
    r: (isize, Option<Reaped>),
    k: int,
)
    requires
        old(m).live(),
        call_ensures(sys_waitpid, (m, pid, exit_code_ptr), r),
        meant(old(m)@, pid, k),
        ended(old(m)@, k),
        forall|j: int| #[trigger] meant(old(m)@, pid, j) && j < k ==> !ended(old(m)@, j),
    ensures
        ({
            let me = old(m)@.tasks[old(m)@.current];
            let id = me.children[k] as int;
            let child = old(m)@.tasks[id];
            &&& r.0 == child.pid as isize
            &&& r.1 matches Some(reaped) && {
                &&& reaped.id == id
                &&& reaped.child@ == child
                &&& reaped.write.token == me.space.token
                &&& reaped.write.va == exit_code_ptr
                &&& reaped.write.content == child.exit_code
            }
            &&& id != old(m)@.current
            &&& final(m)@.current == old(m)@.current
            &&& final(m)@.tasks.len() == old(m)@.tasks.len()
            &&& final(m)@.infos.len() == old(m)@.infos.len()
            &&& final(m)@.tasks[id].status == TaskStatus::UnInit
            &&& final(m)@.tasks[id].space.pages.dom() == Set::<usize>::empty()
            &&& final(m)@.tasks[id].children.len() == 0
            &&& final(m)@.tasks[old(m)@.current] == (TaskView {
                children: me.children.subrange(0, k) + me.children.subrange(
                    k + 1,
                    me.children.len() as int,
                ),
                ..me
            })
            &&& forall|other: int|
                old(m)@.valid(other) && other != id && other != old(m)@.current
                    ==> #[trigger] final(m)@.tasks[other] == old(m)@.tasks[other]
            &&& forall|other: int|
                old(m)@.valid(other) && other != id ==> #[trigger] final(m)@.infos[other]
                    == old(m)@.infos[other]
        }),
{
    let tasks = m@;
    let me = tasks.tasks[tasks.current];
    assert(tasks.reapable(pid, k));
    assert forall|j: int| #[trigger] tasks.reapable(pid, j) implies k <= j by {
        assert(meant(tasks, pid, j) && ended(tasks, j));
    }
    assert(tasks.reaped_first(pid, k));
    assert(tasks.exists_task(tasks.tasks[tasks.current].children[k] as int));
    assert(final(m)@ == tasks.without_child(k));
    assert(me.children.remove(k) =~= me.children.subrange(0, k) + me.children.subrange(
        k + 1,
        me.children.len() as int,
    ));
    assert(final(m)@.tasks[me.children[k] as int].space.pages.dom() =~= Set::<usize>::empty());
}

/// `getpid` tells the pid that the current task was made with: the child of a `fork` or a
/// `spawn` finds what the call has returned to its parent.
pub proof fn law_child_finds_the_pid_its_parent_got(
    m: &mut TaskManager,
    pid: usize,
    token: usize,
    r: isize,
    by_child: &TaskManager,
    r_child: isize,
)
    requires
        old(m).live(),
        old(m)@.tasks.len() <= usize::MAX,
        call_ensures(sys_fork, (m, pid, token), r),
        by_child.live(),
        by_child@.tasks[by_child@.current].pid == final(m)@.tasks[youngest(final(m)@)].pid,
        call_ensures(sys_getpid, (by_child,), r_child),
    ensures
        r_child == r,
{
    law_fork_makes_a_child(m, pid, token, r);
}

/// `getpid` returns the current task's pid.
pub proof fn law_getpid_tells_the_pid(m: &TaskManager, r: isize)
    requires
        call_ensures(sys_getpid, (m,), r),
    ensures
        r == m@.tasks[m@.current].pid as isize,
{
}

/// A priority from 2 on is set, as far as eight bits can hold it, and returned. Any other
/// is refused with -1, and nothing changes.
pub proof fn law_priority_is_set(m: &mut TaskManager, prio: isize, r: isize)
    requires
        old(m).live(),
        call_ensures(sys_set_priority, (m, prio), r),
    ensures
        prio >= 2 ==> {
            &&& r == prio
            &&& final(m)@.tasks[old(m)@.current].priority as int == prio as int % 256
            &&& final(m)@.tasks[old(m)@.current] == (TaskView {
                priority: final(m)@.tasks[old(m)@.current].priority,
                ..old(m)@.tasks[old(m)@.current]
            })
            &&& final(m)@.current == old(m)@.current
            &&& final(m)@.infos == old(m)@.infos
            &&& final(m)@.tasks.len() == old(m)@.tasks.len()
            &&& forall|id: int|
                old(m)@.valid(id) && id != old(m)@.current ==> #[trigger] final(m)@.tasks[id]
                    == old(m)@.tasks[id]
        },
        prio < 2 ==> r == -1 && final(m)@ == old(m)@,
{
}

/// The time is given in whole seconds and the microseconds beyond them, to be written where
/// the caller has said in the caller's memory.
pub proof fn law_time_is_split(
    m: &TaskManager,
    ts: usize,
    tz: usize,
    us: usize,
    r: (isize, UserWrite<TimeVal>),
)
    requires
        call_ensures(sys_get_time, (m, ts, tz, us), r),
    ensures
        r.0 == 0,
        r.1.token == m@.tasks[m@.current].space.token,
        r.1.va == ts,
        r.1.content.sec * 1_000_000 <= us < (r.1.content.sec + 1) * 1_000_000,
        r.1.content.usec == us - r.1.content.sec * 1_000_000,
{
}

/// Task information is about the current task: it runs, the time since it was first run,
/// and how often it has made each system call.
pub proof fn law_task_info_is_about_the_caller(
    m: &TaskManager,
    ti: usize,
    now: usize,
    r: (isize, UserWrite<TaskInfo>),
    first: usize,
)
    requires
        call_ensures(sys_task_info, (m, ti, now), r),
        m@.infos[m@.current].first_scheduled_time == Some(first),
        first <= now,
    ensures
        r.0 == 0,
        r.1.token == m@.tasks[m@.current].space.token,
        r.1.va == ti,
        r.1.content.status == TaskStatus::Running,
        first + r.1.content.time == now,
        r.1.content.syscall_times@ == m@.infos[m@.current].syscall_counter,
{
}

/// The file to be run is named in the memory of the current task.
pub proof fn law_path_is_read_from_the_caller(m: &TaskManager, path: usize, r: OpenRequest)
    requires
        call_ensures(app_file, (m, path), r),
    ensures
        r.token == m@.tasks[m@.current].space.token,
        r.path == path,
{
}

/// A task can make each of these calls at any time, with any arguments. Only task
/// information takes that the task has been scheduled, and not in the future.
pub proof fn law_processes_can_be_asked_for(
    m: &mut TaskManager,
    reader: &TaskManager,
    app: Option<AppImage>,
    pid: usize,
    token: usize,
    wanted: isize,
    ptr: usize,
    now: usize,
)
    requires
        old(m).live(),
        reader.live(),
    ensures
        call_requires(sys_fork, (m, pid, token)),
        call_requires(sys_exec, (m, app)),
        call_requires(sys_spawn, (m, app, pid)),
        call_requires(sys_waitpid, (m, wanted, ptr)),
        call_requires(sys_set_priority, (m, wanted)),
        call_requires(sys_getpid, (reader,)),
        call_requires(sys_get_time, (reader, ptr, token, now)),
        call_requires(app_file, (reader, ptr)),
        reader@.infos[reader@.current].first_scheduled_time matches Some(first) && first <= now
            ==> call_requires(sys_task_info, (reader, ptr, now)),
{
}

} // verus!
