//! Which task runs when, and what the kernel keeps of each.

use vstd::prelude::*;

use crate::config::{DEFAULT_PRIORITY, MAX_SYSCALL_NUM};
use crate::syscall::process::{sys_exit, sys_yield};
use crate::task::{
    current_trap_cx, current_user_token, exit_current_and_run_next, get_task_info,
    increase_syscall_counter, run_first_task, suspend_current_and_run_next, AppImage, ManagerView,
    Switch, TaskControlBlock, TaskInfo, TaskManager, TaskStatus, TaskView, TrapContext,
};

verus! {

/// Whether the task `id` waits to be run.
pub open spec fn waits(tasks: ManagerView, id: int) -> bool {
    0 <= id < tasks.tasks.len() && tasks.tasks[id].status == TaskStatus::Ready
}

/// Whether `id` comes before `next` when the tasks are looked at one after the other, from
/// the one behind the current task to the end and then from the first one on.
pub open spec fn comes_before(current: int, id: int, next: int) -> bool {
    if next > current {
        current < id < next
    } else {
        current < id || id < next
    }
}

/// Whether `post` is `pre` with the processor handed from the current task to the task
/// `next`: `left` is what becomes of the current task, `next` runs, and is first scheduled
/// `now` unless it was before. Every other task is as before.
pub open spec fn hands_over(
    pre: ManagerView,
    post: ManagerView,
    left: TaskView,
    next: int,
    now: usize,
) -> bool {
    let me = pre.current;
    let chosen = if next == me {
        left
    } else {
        pre.tasks[next]
    };
    &&& 0 <= next < pre.tasks.len()
    &&& post.current == next
    &&& post.tasks.len() == pre.tasks.len()
    &&& post.infos.len() == pre.infos.len()
    &&& post.tasks[next] == (TaskView { status: TaskStatus::Running, ..chosen })
    &&& next != me ==> post.tasks[me] == left
    &&& forall|id: int|
        0 <= id < pre.tasks.len() && id != me && id != next ==> #[trigger] post.tasks[id]
            == pre.tasks[id]
    &&& post.infos[next].syscall_counter == pre.infos[next].syscall_counter
    &&& pre.infos[next].first_scheduled_time is Some ==> post.infos[next].first_scheduled_time
        == pre.infos[next].first_scheduled_time
    &&& pre.infos[next].first_scheduled_time is None ==> post.infos[next].first_scheduled_time
        == Some(now)
    &&& forall|id: int|
        0 <= id < pre.tasks.len() && id != next ==> #[trigger] post.infos[id] == pre.infos[id]
}

/// A task that yields is ready again. The next task that is ready, in the order of the task
/// list behind the current one and then from the start, runs; the yielding task itself
/// comes last.
pub proof fn law_yield_runs_the_next_ready_task(
    m: &mut TaskManager,
    now: usize,
    r: (Switch, isize),
)
    requires
        old(m).live(),
        call_ensures(sys_yield, (m, now), r),
    ensures
        ({
            let me = old(m)@.current;
            let next = r.0.to as int;
            &&& r.1 == 0
            &&& r.0.from == me
            &&& next == me || waits(old(m)@, next)
            &&& forall|id: int| #[trigger]
                waits(old(m)@, id) && id != me ==> !comes_before(me, id, next)
            &&& hands_over(
                old(m)@,
                final(m)@,
                TaskView { status: TaskStatus::Ready, ..old(m)@.tasks[me] },
                next,
                now,
            )
        }),
{
    let me = m@.current;
    let marked = m@.with_cur_status(TaskStatus::Ready);
    let next = r.0.to as int;
    assert(marked.is_next(next));
    assert forall|id: int| #[trigger] waits(m@, id) && id != me implies !comes_before(
        me,
        id,
        next,
    ) by {
        assert(marked.ready(id));
        assert(marked.turn(next) <= marked.turn(id));
    }
}

/// Suspending is what `yield` does.
pub proof fn law_suspending_is_yielding(
    m1: &mut TaskManager,
    m2: &mut TaskManager,
    now: usize,
    r1: Switch,
    r2: (Switch, isize),
)
    requires
        old(m1).live(),
        old(m2).live(),
        old(m1)@ == old(m2)@,
        call_ensures(suspend_current_and_run_next, (m1, now), r1),
        call_ensures(sys_yield, (m2, now), r2),
    ensures
        r1 == r2.0,
        final(m1)@ == final(m2)@,
{
    let marked = m1@.with_cur_status(TaskStatus::Ready);
    m1@.lemma_wf_kept(marked);
    crate::laws::law_next_is_unique(marked, r1.to as int, r2.0.to as int);
}

/// A task that exits has ended, with its exit code. The next task that is ready runs; if
/// there is none, nothing is left to run, and only the exiting task has changed.
pub proof fn law_exit_ends_the_task(
    m: &mut TaskManager,
    exit_code: i32,
    now: usize,
    r: Option<Switch>,
)
    requires
        old(m).live(),
        call_ensures(sys_exit, (m, exit_code, now), r),
    ensures
        ({
            let me = old(m)@.current;
            let left = TaskView {
                status: TaskStatus::Exited,
                exit_code,
                ..old(m)@.tasks[me]
            };
            &&& r is Some <==> exists|id: int| #[trigger] waits(old(m)@, id) && id != me
            &&& r matches Some(switch) ==> {
                &&& switch.from == me
                &&& switch.to != me
                &&& waits(old(m)@, switch.to as int)
                &&& forall|id: int| #[trigger]
                    waits(old(m)@, id) && id != me ==> !comes_before(me, id, switch.to as int)
                &&& hands_over(old(m)@, final(m)@, left, switch.to as int, now)
            }
            &&& r is None ==> {
                &&& final(m)@.current == me
                &&& final(m)@.infos == old(m)@.infos
                &&& final(m)@.tasks.len() == old(m)@.tasks.len()
                &&& final(m)@.tasks[me] == left
                &&& forall|id: int|
                    0 <= id < old(m)@.tasks.len() && id != me ==> #[trigger] final(m)@.tasks[id]
                        == old(m)@.tasks[id]
            }
        }),
{
    let me = m@.current;
    let marked = m@.exited(exit_code);
    assert forall|id: int| #[trigger] waits(m@, id) && id != me implies marked.ready(id) by {}
    match r {
        Some(switch) => {
            let next = switch.to as int;
            assert(marked.is_next(next));
            assert(waits(m@, next) && next != me);
            assert forall|id: int| #[trigger] waits(m@, id) && id != me implies !comes_before(
                me,
                id,
                next,
            ) by {
                assert(marked.ready(id));
                assert(marked.turn(next) <= marked.turn(id));
            }
        },
        None => {
            assert(marked.none_ready());
        },
    }
}

/// Exiting without an exit code is exiting with the one that the task has.
pub proof fn law_exiting_keeps_the_exit_code(
    m1: &mut TaskManager,
    m2: &mut TaskManager,
    now: usize,
    r1: Option<Switch>,
    r2: Option<Switch>,
)
    requires
        old(m1).live(),
        old(m2).live(),
        old(m1)@ == old(m2)@,
        call_ensures(exit_current_and_run_next, (m1, now), r1),
        call_ensures(sys_exit, (m2, old(m1)@.tasks[old(m1)@.current].exit_code, now), r2),
    ensures
        r1 == r2,
        final(m1)@ == final(m2)@,
{
    let code = m1@.tasks[m1@.current].exit_code;
    let marked = m1@.with_cur_status(TaskStatus::Exited);
    assert(marked == m1@.exited(code));
    m1@.lemma_wf_kept(marked);
    if r1 is Some && r2 is Some {
        crate::laws::law_next_is_unique(marked, r1->0.to as int, r2->0.to as int);
    } else if r1 is Some {
        assert(marked.ready(r1->0.to as int));
    } else if r2 is Some {
        assert(marked.ready(r2->0.to as int));
    }
}

/// The first task is started as the first in the list: it runs, and is first scheduled now.
/// Every other task is as before.
pub proof fn law_first_task_is_started(m: &mut TaskManager, now: usize, r: usize)
    requires
        old(m).live(),
        call_ensures(run_first_task, (m, now), r),
    ensures
        r == 0,
        final(m)@.current == old(m)@.current,
        final(m)@.tasks.len() == old(m)@.tasks.len(),
        final(m)@.infos.len() == old(m)@.infos.len(),
        final(m)@.tasks[0] == (TaskView { status: TaskStatus::Running, ..old(m)@.tasks[0] }),
        final(m)@.infos[0].first_scheduled_time == Some(now),
        final(m)@.infos[0].syscall_counter == old(m)@.infos[0].syscall_counter,
        forall|id: int|
            0 < id < old(m)@.tasks.len() ==> #[trigger] final(m)@.tasks[id] == old(m)@.tasks[id],
        forall|id: int|
            0 < id < old(m)@.tasks.len() ==> #[trigger] final(m)@.infos[id] == old(m)@.infos[id],
{
}

/// A new task list has one task for each application, in their order: each with the
/// application's memory, registers and break, with its place as its pid, waiting to be run,
/// never run and without a system call. The first is the current one.
pub proof fn law_new_list_has_the_applications(images: Vec<AppImage>, r: TaskManager, i: int)
    requires
        call_ensures(TaskManager::new, (images,), r),
    ensures
        r.wf(),
        r@.current == 0,
        r@.tasks.len() == images@.len(),
        r@.infos.len() == images@.len(),
        0 <= i < images@.len() ==> {
            &&& r@.tasks[i].pid == i
            &&& r@.tasks[i].status == TaskStatus::Ready
            &&& r@.tasks[i].space == images@[i].memory_set@
            &&& r@.tasks[i].registers == images@[i].trap_cx.x@
            &&& r@.tasks[i].heap_bottom == images@[i].heap_bottom
            &&& r@.tasks[i].program_brk == images@[i].heap_bottom
            &&& r@.tasks[i].priority == DEFAULT_PRIORITY
            &&& r@.tasks[i].exit_code == 0
            &&& r@.tasks[i].children.len() == 0
            &&& r@.infos[i].first_scheduled_time is None
            &&& r@.infos[i].syscall_counter.len() == MAX_SYSCALL_NUM
            &&& forall|call: int|
                0 <= call < MAX_SYSCALL_NUM ==> #[trigger] r@.infos[i].syscall_counter[call] == 0
        },
{
    assert(images@.len() == images.len());
}

/// Counting a system call adds one to its count for the current task. No other count
/// changes, nor anything else.
pub proof fn law_call_is_counted(m: &mut TaskManager, syscall_id: usize)
    requires
        old(m).live(),
        syscall_id < MAX_SYSCALL_NUM,
        old(m)@.infos[old(m)@.current].syscall_counter[syscall_id as int] < u32::MAX,
        call_ensures(increase_syscall_counter, (m, syscall_id), ()),
    ensures
        ({
            let before = old(m)@.infos[old(m)@.current];
            let after = final(m)@.infos[old(m)@.current];
            &&& after.syscall_counter.len() == before.syscall_counter.len()
            &&& after.syscall_counter[syscall_id as int] == before.syscall_counter[syscall_id as int]
                + 1
            &&& forall|call: int|
                0 <= call < MAX_SYSCALL_NUM && call != syscall_id
                    ==> #[trigger] after.syscall_counter[call] == before.syscall_counter[call]
            &&& after.first_scheduled_time == before.first_scheduled_time
            &&& final(m)@.tasks == old(m)@.tasks
            &&& final(m)@.current == old(m)@.current
            &&& final(m)@.infos.len() == old(m)@.infos.len()
            &&& forall|id: int|
                0 <= id < old(m)@.infos.len() && id != old(m)@.current
                    ==> #[trigger] final(m)@.infos[id] == old(m)@.infos[id]
        }),
{
}

/// What the kernel reads of the current task is the current task's.
pub proof fn law_current_task_is_read(m: &TaskManager, token: usize, info: TaskInfo)
    requires
        call_ensures(current_user_token, (m,), token),
        call_ensures(get_task_info, (m,), info),
    ensures
        token == m@.tasks[m@.current].space.token,
        info.first_scheduled_time == m@.infos[m@.current].first_scheduled_time,
        info.syscall_counter@ == m@.infos[m@.current].syscall_counter,
{
}

/// The registers that the kernel hands out are the current task's, and what is written to
/// them changes nothing else.
pub proof fn law_registers_are_the_current_tasks(m: &mut TaskManager, r: &mut TrapContext)
    requires
        old(m).live(),
        call_ensures(current_trap_cx, (m,), r),
    ensures
        old(r).x@ == old(m)@.tasks[old(m)@.current].registers,
        final(m)@.tasks[old(m)@.current] == (TaskView {
            registers: final(r).x@,
            ..old(m)@.tasks[old(m)@.current]
        }),
        final(m)@.current == old(m)@.current,
        final(m)@.infos == old(m)@.infos,
        final(m)@.tasks.len() == old(m)@.tasks.len(),
        forall|id: int|
            0 <= id < old(m)@.tasks.len() && id != old(m)@.current
                ==> #[trigger] final(m)@.tasks[id] == old(m)@.tasks[id],
{
}

/// What a task manager tells of its tasks is so.
pub proof fn law_manager_tells_its_tasks(
    m: &TaskManager,
    count: usize,
    current: usize,
    id: usize,
    task: &TaskControlBlock,
    current_task: &TaskControlBlock,
)
    requires
        m.live(),
        call_ensures(TaskManager::num_app, (m,), count),
        call_ensures(TaskManager::current, (m,), current),
        call_ensures(TaskManager::task, (m, id), task),
        call_ensures(TaskManager::current_task, (m,), current_task),
    ensures
        count == m@.tasks.len(),
        current == m@.current,
        task@ == m@.tasks[id as int],
        current_task@ == m@.tasks[m@.current],
{
}

/// What a task tells of itself is so.
pub proof fn law_task_tells_of_itself(
    task: &TaskControlBlock,
    pid: usize,
    zombie: bool,
    token: usize,
)
    requires
        call_ensures(TaskControlBlock::getpid, (task,), pid),
        call_ensures(TaskControlBlock::is_zombie, (task,), zombie),
        call_ensures(TaskControlBlock::get_user_token, (task,), token),
    ensures
        pid == task.pid,
        zombie <==> task.task_status == TaskStatus::Exited,
        token == task@.space.token,
{
}

/// The kernel can switch tasks and count calls at any time. A new list of applications is
/// well-formed, and as soon as there is one it has a current task.
pub proof fn law_tasks_can_be_switched(
    m: &mut TaskManager,
    exit_code: i32,
    now: usize,
    syscall_id: usize,
    images: Vec<AppImage>,
    r: TaskManager,
)
    requires
        old(m).live(),
        call_ensures(TaskManager::new, (images,), r),
    ensures
        call_requires(sys_exit, (m, exit_code, now)),
        call_requires(sys_yield, (m, now)),
        call_requires(exit_current_and_run_next, (m, now)),
        call_requires(suspend_current_and_run_next, (m, now)),
        call_requires(run_first_task, (m, now)),
        call_requires(current_trap_cx, (m,)),
        syscall_id < MAX_SYSCALL_NUM && old(m)@.infos[old(
            m,
        )@.current].syscall_counter[syscall_id as int] < u32::MAX ==> call_requires(
            increase_syscall_counter,
            (m, syscall_id),
        ),
        call_requires(TaskManager::new, (images,)),
        images@.len() > 0 ==> r.live(),
{
}

} // verus!
