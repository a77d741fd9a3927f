//! What holds of the kernel as a whole.

pub mod memory;
pub mod processes;
pub mod scheduling;

use vstd::prelude::*;

use crate::config::{MAX_SYSCALL_NUM, NUM_REGISTERS, RESULT_REGISTER};
use crate::mm::{MapPermission, VPNRange, VirtAddr};
use crate::step::Step;
use crate::task::{InfoView, ManagerView, TaskStatus, TaskView};

verus! {

/// The round in which tasks are looked at has each task once: with `n` tasks it is
/// `current + 1`, `current + 2` and so on up to `current + n`, modulo `n`.
pub proof fn law_round_order(tasks: ManagerView, id: int)
    requires
        tasks.live(),
        tasks.valid(id),
    ensures
        0 <= tasks.turn(id) < tasks.tasks.len(),
        (tasks.current + 1 + tasks.turn(id)) % tasks.tasks.len() as int == id,
{
    let n = tasks.tasks.len() as int;
    if id > tasks.current {
        vstd::arithmetic::div_mod::lemma_small_mod(id as nat, n as nat);
    } else {
        vstd::arithmetic::div_mod::lemma_mod_add_multiples_vanish(id, n);
        vstd::arithmetic::div_mod::lemma_small_mod(id as nat, n as nat);
    }
}

/// At most one task is to be run next.
pub proof fn law_next_is_unique(tasks: ManagerView, a: int, b: int)
    requires
        tasks.live(),
        tasks.is_next(a),
        tasks.is_next(b),
    ensures
        a == b,
{
    law_round_order(tasks, a);
    law_round_order(tasks, b);
}

/// If a task waits to be run, there is one to be run next.
pub proof fn law_next_exists(tasks: ManagerView, id: int)
    requires
        tasks.live(),
        tasks.ready(id),
    ensures
        exists|next: int| #[trigger] tasks.is_next(next),
    decreases tasks.turn(id),
{
    law_round_order(tasks, id);
    if !tasks.is_next(id) {
        let earlier = choose|other: int| #[trigger]
            tasks.ready(other) && tasks.turn(other) < tasks.turn(id);
        law_round_order(tasks, earlier);
        law_next_exists(tasks, earlier);
    }
}

/// A task that waits while another is run comes nearer: its place in the round gets
/// strictly smaller.
pub proof fn law_waiting_task_advances(tasks: ManagerView, id: int, next: int, now: usize)
    requires
        tasks.live(),
        tasks.ready(id),
        tasks.is_next(next),
        next != id,
    ensures
        tasks.dispatched(next, now).ready(id),
        tasks.dispatched(next, now).turn(id) == tasks.turn(id) - tasks.turn(next) - 1,
        tasks.dispatched(next, now).turn(id) < tasks.turn(id),
{
    law_round_order(tasks, id);
    law_round_order(tasks, next);
}

/// A task that suspends itself is run again at once only if no other waits to be run.
pub proof fn law_suspended_task_comes_last(tasks: ManagerView, next: int)
    requires
        tasks.live(),
        tasks.with_cur_status(TaskStatus::Ready).is_next(next),
    ensures
        next == tasks.current ==> forall|id: int|
            id != tasks.current ==> !#[trigger] tasks.ready(id),
{
    let marked = tasks.with_cur_status(TaskStatus::Ready);
    if next == tasks.current {
        assert forall|id: int| id != tasks.current implies !#[trigger] tasks.ready(id) by {
            if tasks.ready(id) {
                assert(marked.ready(id));
                assert(marked.turn(next) <= marked.turn(id));
            }
        }
    }
}

/// Starting the first task of a new list makes it the one that runs.
pub proof fn law_first_task_runs(tasks: ManagerView, now: usize)
    requires
        tasks.live(),
        tasks.current == 0,
        forall|id: int| tasks.valid(id) ==> (#[trigger] tasks.tasks[id]).status == TaskStatus::Ready,
    ensures
        tasks.first_dispatched(now).one_running(),
        tasks.first_dispatched(now).live(),
{
    tasks.lemma_wf_kept(tasks.first_dispatched(now));
}

/// Every step keeps the tasks well-formed.
pub proof fn law_step_keeps_wf(pre: ManagerView, step: Step, post: ManagerView)
    requires
        pre.live(),
        pre.tasks.len() <= usize::MAX,
        pre.steps_to(step, post),
    ensures
        post.live(),
{
    match step {
        Step::Fork { pid, token } => {
            pre.lemma_wf_with_child(pre.cur().forked(pid, token).returning_zero());
        },
        Step::Spawn { image, pid } => {
            pre.lemma_wf_with_child(TaskView::from_image(image, pid).returning_zero());
        },
        Step::Wait { k, .. } => {
            pre.lemma_wf_without_child(k);
        },
        _ => {
            pre.lemma_wf_kept(post);
        },
    }
}

/// In every state exactly one task runs, the current one, until the last task ends.
pub proof fn law_step_keeps_one_running(pre: ManagerView, step: Step, post: ManagerView)
    requires
        pre.live(),
        pre.one_running(),
        pre.steps_to(step, post),
    ensures
        post.one_running() || (step matches Step::Exit { heir, .. } && heir is None
            && post.none_ready()),
{
    lemma_places(pre, step, post);
}

/// A run of the kernel: `steps[i]` leads from `states[i]` to `states[i + 1]`. It starts
/// while a task runs, and goes on until the last task ends at most. The tasks can be
/// counted by the machine at all times.
pub open spec fn is_run(states: Seq<ManagerView>, steps: Seq<Step>) -> bool {
    &&& states.len() == steps.len() + 1
    &&& states[0].live()
    &&& states[0].one_running()
    &&& forall|i: int|
        0 <= i < states.len() ==> (#[trigger] states[i]).tasks.len() <= usize::MAX
    &&& forall|i: int|
        0 <= i < steps.len() ==> states[i].steps_to(#[trigger] steps[i], states[i + 1])
    &&& forall|i: int| 0 <= i < steps.len() - 1 ==> !(#[trigger] steps[i]).ends_all()
}

/// How many of `steps` are switches.
pub open spec fn switches(steps: Seq<Step>) -> nat
    decreases steps.len(),
{
    if steps.len() == 0 {
        0
    } else {
        switches(steps.drop_last()) + (if steps.last().switched_to() is Some {
            1nat
        } else {
            0
        })
    }
}

/// In a run every state is well-formed, and in every state one task runs, unless the
/// step before has ended the last one.
pub proof fn law_run_keeps_invariant(states: Seq<ManagerView>, steps: Seq<Step>, i: int)
    requires
        is_run(states, steps),
        0 <= i <= steps.len(),
    ensures
        states[i].live(),
        states[i].one_running() || (i == steps.len() && i > 0 && steps[i - 1].ends_all()),
    decreases i,
{
    if i > 0 {
        law_run_keeps_invariant(states, steps, i - 1);
        assert(states[i - 1].steps_to(steps[i - 1], states[i]));
        law_step_keeps_wf(states[i - 1], steps[i - 1], states[i]);
        law_step_keeps_one_running(states[i - 1], steps[i - 1], states[i]);
    }
}

/// The wait of a task that is ready is bounded: as long as it is not run, it stays
/// ready, and there have been fewer switches to other tasks than there are tasks.
pub proof fn law_wait_is_bounded(states: Seq<ManagerView>, steps: Seq<Step>, id: int)
    requires
        is_run(states, steps),
        states[0].ready(id),
        forall|i: int| 0 <= i < steps.len() ==> (#[trigger] steps[i]).switched_to() != Some(id),
    ensures
        states.last().ready(id),
        switches(steps) < states.last().tasks.len(),
{
    lemma_waits_its_turn(states, steps, id, steps.len());
    assert(steps.take(steps.len() as int) =~= steps);
    law_run_keeps_invariant(states, steps, steps.len() as int);
    law_round_order(states[0], id);
    law_round_order(states.last(), id);
}

/// A task that waits comes nearer by one place at least with each switch to another
/// task, and is put back by one place at most with each new task.
proof fn lemma_waits_its_turn(states: Seq<ManagerView>, steps: Seq<Step>, id: int, count: nat)
    requires
        is_run(states, steps),
        count <= steps.len(),
        states[0].ready(id),
        forall|i: int| 0 <= i < steps.len() ==> (#[trigger] steps[i]).switched_to() != Some(id),
    ensures
        states[count as int].ready(id),
        states[count as int].turn(id) + switches(steps.take(count as int)) <= states[0].turn(id)
            + states[count as int].tasks.len() - states[0].tasks.len(),
    decreases count,
{
    if count > 0 {
        let last = count - 1;
        lemma_waits_its_turn(states, steps, id, last as nat);
        law_run_keeps_invariant(states, steps, last);
        let pre = states[last];
        let step = steps[last];
        let post = states[count as int];
        assert(pre.steps_to(step, post));
        lemma_places(pre, step, post);
        assert(steps.take(count as int).drop_last() =~= steps.take(last));
        assert(steps.take(count as int).last() == step);
        match step {
            Step::Suspend { next, now } => {
                let marked = pre.with_cur_status(TaskStatus::Ready);
                pre.lemma_wf_kept(marked);
                assert(marked.ready(id));
                law_waiting_task_advances(marked, id, next, now);
            },
            Step::Exit { exit_code, heir, now } => {
                let marked = pre.exited(exit_code);
                pre.lemma_wf_kept(marked);
                assert(marked.ready(id));
                law_waiting_task_advances(marked, id, heir->0, now);
            },
            _ => {},
        }
    }
}

/// A task that has ended stays as it is until it is waited for: no step runs it again.
pub proof fn law_ended_task_stays_ended(
    pre: ManagerView,
    step: Step,
    post: ManagerView,
    id: int,
)
    requires
        pre.live(),
        pre.one_running(),
        pre.steps_to(step, post),
        pre.valid(id),
        pre.tasks[id].status == TaskStatus::Exited,
        !pre.reaps(step, id),
    ensures
        post.valid(id),
        post.current != id,
        post.tasks[id] == pre.tasks[id],
{
    lemma_places(pre, step, post);
}

/// Only the current task can end, and only by its own exit.
pub proof fn law_only_current_task_ends(
    pre: ManagerView,
    step: Step,
    post: ManagerView,
    id: int,
)
    requires
        pre.live(),
        pre.steps_to(step, post),
        post.valid(id),
        post.tasks[id].status == TaskStatus::Exited,
    ensures
        pre.valid(id),
        pre.tasks[id].status != TaskStatus::Exited ==> id == pre.current && step is Exit,
{
    lemma_places(pre, step, post);
}

/// However long the kernel goes on, a task that has ended stays as it is, with its pid
/// and its exit code, and is not run again, until it is waited for. As long as its parent
/// is not waited for itself, it also stays the child of its parent.
pub proof fn law_ended_task_is_kept_for_parent(
    states: Seq<ManagerView>,
    steps: Seq<Step>,
    id: int,
    parent: int,
)
    requires
        is_run(states, steps),
        states[0].valid(id),
        states[0].tasks[id].status == TaskStatus::Exited,
        forall|i: int| 0 <= i < steps.len() ==> !#[trigger] states[i].reaps(steps[i], id),
    ensures
        states.last().valid(id),
        states.last().current != id,
        states.last().tasks[id] == states[0].tasks[id],
        states[0].exists_task(parent) && states[0].is_child(parent, id) && (forall|i: int|
            0 <= i < steps.len() ==> !#[trigger] states[i].reaps(steps[i], parent)) ==> {
            &&& states.last().exists_task(parent)
            &&& states.last().is_child(parent, id)
        },
    decreases steps.len(),
{
    if steps.len() > 0 {
        let last = steps.len() - 1;
        let states0 = states.drop_last();
        let steps0 = steps.drop_last();
        assert(is_run(states0, steps0)) by {
            assert forall|i: int| 0 <= i < steps0.len() implies states0[i].steps_to(
                #[trigger] steps0[i],
                states0[i + 1],
            ) by {
                assert(states[i].steps_to(steps[i], states[i + 1]));
            }
            assert forall|i: int| 0 <= i < steps0.len() - 1 implies !(
            #[trigger] steps0[i]).ends_all() by {
                assert(!steps[i].ends_all());
            }
        }
        assert forall|i: int| 0 <= i < steps0.len() implies !#[trigger] states0[i].reaps(
            steps0[i],
            id,
        ) by {
            assert(!states[i].reaps(steps[i], id));
        }
        law_ended_task_is_kept_for_parent(states0, steps0, id, parent);
        law_run_keeps_invariant(states, steps, last);
        let pre = states[last];
        let step = steps[last];
        let post = states.last();
        assert(states0.last() == pre);
        assert(pre.steps_to(step, post));
        assert(!pre.reaps(step, id));
        law_ended_task_stays_ended(pre, step, post, id);
        if states[0].exists_task(parent) && states[0].is_child(parent, id) && (forall|i: int|
            0 <= i < steps.len() ==> !#[trigger] states[i].reaps(steps[i], parent)) {
            assert forall|i: int| 0 <= i < steps0.len() implies !#[trigger] states0[i].reaps(
                steps0[i],
                parent,
            ) by {
                assert(!states[i].reaps(steps[i], parent));
            }
            assert(!pre.reaps(step, parent));
            lemma_child_is_kept(pre, step, post, id, parent);
        }
    }
}

/// A child stays the child of its parent as long as neither is waited for.
proof fn lemma_child_is_kept(
    pre: ManagerView,
    step: Step,
    post: ManagerView,
    id: int,
    parent: int,
)
    requires
        pre.live(),
        pre.steps_to(step, post),
        pre.exists_task(parent),
        pre.is_child(parent, id),
        !pre.reaps(step, id),
        !pre.reaps(step, parent),
    ensures
        post.exists_task(parent),
        post.is_child(parent, id),
{
    lemma_places(pre, step, post);
    let k = choose|k: int|
        0 <= k < pre.tasks[parent].children.len() && #[trigger] pre.tasks[parent].children[k] == id;
    if parent == pre.current {
        match step {
            Step::Wait { k: gone, .. } => {
                let k2 = if k > gone { k - 1 } else { k };
                assert(post.tasks[parent].children[k2] == id);
            },
            _ => {
                assert(post.tasks[parent].children[k] == id);
            },
        }
    } else {
        law_other_tasks_untouched(pre, step, post, parent);
        assert(post.tasks[parent].children[k] == id);
    }
}

/// A step that makes a task puts it where there is none, and a step that takes one out of
/// the task list takes out another than the current one.
proof fn lemma_places(pre: ManagerView, step: Step, post: ManagerView)
    requires
        pre.live(),
        pre.steps_to(step, post),
    ensures
        0 <= pre.free_place() <= pre.tasks.len(),
        !pre.exists_task(pre.free_place()),
        step matches Step::Wait { k, .. } ==> {
            &&& 0 <= k < pre.cur().children.len()
            &&& pre.exists_task(pre.cur().children[k] as int)
            &&& pre.cur().children[k] != pre.current
        },
{
    pre.lemma_free_place_from(0);
    if let Step::Wait { k, .. } = step {
        assert(pre.exists_task(pre.tasks[pre.current].children[k] as int));
    }
}

/// A step of the current task changes nothing of another task but its status, and
/// that only by running it: its memory, registers, program break, priority and
/// children are its own. Only a child that is waited for leaves the task list.
pub proof fn law_other_tasks_untouched(
    pre: ManagerView,
    step: Step,
    post: ManagerView,
    id: int,
)
    requires
        pre.live(),
        pre.steps_to(step, post),
        pre.exists_task(id),
        id != pre.current,
    ensures
        post.valid(id),
        pre.reaps(step, id) ==> pre.tasks[id].status == TaskStatus::Exited && post.tasks[id]
            == TaskView::vacant(),
        !pre.reaps(step, id) ==> post.tasks[id] == (TaskView {
            status: post.tasks[id].status,
            ..pre.tasks[id]
        }),
        !pre.reaps(step, id) && post.tasks[id].status != pre.tasks[id].status ==> {
            &&& pre.tasks[id].status == TaskStatus::Ready
            &&& post.tasks[id].status == TaskStatus::Running
            &&& post.current == id
        },
{
    lemma_places(pre, step, post);
}

/// A task stays in the task list and keeps its pid as long as it is not waited for.
pub proof fn law_pid_is_kept(pre: ManagerView, step: Step, post: ManagerView, id: int)
    requires
        pre.live(),
        pre.steps_to(step, post),
        pre.exists_task(id),
        !pre.reaps(step, id),
    ensures
        post.exists_task(id),
        post.tasks[id].pid == pre.tasks[id].pid,
{
    lemma_places(pre, step, post);
}

/// The first scheduled time of a task never changes as long as the task exists, and the
/// current task has one at all times from the start of the first task on.
pub proof fn law_first_scheduled_time_is_kept(
    pre: ManagerView,
    step: Step,
    post: ManagerView,
    id: int,
)
    requires
        pre.live(),
        pre.steps_to(step, post),
        pre.exists_task(id),
        !pre.reaps(step, id),
    ensures
        pre.infos[id].first_scheduled_time is Some ==> post.infos[id].first_scheduled_time
            == pre.infos[id].first_scheduled_time,
        pre.cur_info().first_scheduled_time is Some ==> post.cur_info().first_scheduled_time is Some,
{
    lemma_places(pre, step, post);
}

/// As long as a task exists, the count of a system call changes only if it is the current
/// task, and by one, when a call is counted.
pub proof fn law_counts_only_own_calls(
    pre: ManagerView,
    step: Step,
    post: ManagerView,
    id: int,
    syscall_id: int,
)
    requires
        pre.live(),
        pre.steps_to(step, post),
        pre.exists_task(id),
        !pre.reaps(step, id),
        0 <= syscall_id < MAX_SYSCALL_NUM,
    ensures
        post.infos[id].syscall_counter[syscall_id] == pre.infos[id].syscall_counter[syscall_id] + (
        if id == pre.current && step == (Step::CountCall { syscall_id }) {
            1int
        } else {
            0
        }),
{
    lemma_places(pre, step, post);
}

/// Unmapping what has just been mapped is allowed, and leaves everything as it was.
pub proof fn law_munmap_undoes_mmap(tasks: ManagerView, start: usize, len: usize, port: usize)
    requires
        tasks.live(),
        start + len <= usize::MAX,
        tasks.can_mmap(start, len, port),
    ensures
        tasks.mmapped(start, len, port).can_munmap(start, len),
        tasks.mmapped(start, len, port).munmapped(start, len) == tasks,
{
    let range = VPNRange::touched(start as int, start + len);
    let mapped = tasks.mmapped(start, len, port);
    assert forall|vpn: usize| range.has_page(vpn) implies #[trigger] mapped.cur().space.mapped(
        vpn,
    ) by {}
    let space = tasks.cur().space;
    let back = mapped.munmapped(start, len);
    assert forall|vpn: usize| #[trigger] space.pages.contains_key(vpn) implies !range.has_page(
        vpn,
    ) by {
        assert(space.mapped(vpn));
    }
    assert(back.cur().space.pages =~= space.pages);
    assert(back.tasks =~= tasks.tasks);
}

/// Memory that is mapped cannot be mapped again: a request that shares a page with it
/// is refused, whatever it asks for.
pub proof fn law_mapped_memory_is_not_mapped_again(
    tasks: ManagerView,
    start: usize,
    len: usize,
    port: usize,
    start2: usize,
    len2: usize,
    port2: usize,
    vpn: usize,
)
    requires
        tasks.live(),
        VPNRange::touched(start as int, start + len).has_page(vpn),
        VPNRange::touched(start2 as int, start2 + len2).has_page(vpn),
    ensures
        !tasks.mmapped(start, len, port).can_mmap(start2, len2, port2),
{
    assert(tasks.mmapped(start, len, port).cur().space.mapped(vpn));
}

/// Memory that has been unmapped is gone: a request to unmap any page of it is refused.
pub proof fn law_unmapped_memory_is_not_unmapped_again(
    tasks: ManagerView,
    start: usize,
    len: usize,
    start2: usize,
    len2: usize,
    vpn: usize,
)
    requires
        tasks.live(),
        VPNRange::touched(start as int, start + len).has_page(vpn),
        VPNRange::touched(start2 as int, start2 + len2).has_page(vpn),
    ensures
        !tasks.munmapped(start, len).can_munmap(start2, len2),
{
    assert(!tasks.munmapped(start, len).cur().space.mapped(vpn));
}

/// After `mmap` every byte that was asked for lies in a page with the permission that
/// was asked for, and every page that holds none of them is as before.
pub proof fn law_mmap_grants_what_was_asked(
    tasks: ManagerView,
    start: usize,
    len: usize,
    port: usize,
    addr: usize,
)
    requires
        tasks.live(),
        start + len <= usize::MAX,
        tasks.can_mmap(start, len, port),
    ensures
        ({
            let vpn = VirtAddr::page_of(addr as int) as usize;
            let after = tasks.mmapped(start, len, port).cur().space;
            &&& start <= addr < start + len ==> after.mapped(vpn) && after.pages[vpn]
                == MapPermission::of_flags(port as u8)
            &&& !VPNRange::touched(start as int, start + len).has_page(vpn) ==> (after.mapped(vpn)
                <==> tasks.cur().space.mapped(vpn)) && (after.mapped(vpn) ==> after.pages[vpn]
                == tasks.cur().space.pages[vpn])
        }),
{
}

/// Moving the program break by 0 is allowed, and changes nothing.
pub proof fn law_sbrk_zero_changes_nothing(task: TaskView)
    requires
        task.heap_bottom <= task.program_brk,
    ensures
        task.can_move_brk(0),
        task.moved_brk(0) == task,
{
    assert(task.moved_brk(0).space.pages =~= task.space.pages);
}

/// Moving the program break back by what it was moved up is allowed, and leaves the
/// task as it was.
pub proof fn law_sbrk_is_undone(task: TaskView, size: i32)
    requires
        size >= 0,
        task.heap_bottom <= task.program_brk,
        task.can_move_brk(size as int),
    ensures
        task.moved_brk(size as int).can_move_brk(-size),
        task.moved_brk(size as int).moved_brk(-size) == task,
{
    let grown = task.moved_brk(size as int);
    let range = TaskView::brk_pages(task.program_brk as int, task.program_brk + size);
    assert(grown.program_brk - size == task.program_brk);
    assert forall|vpn: usize| #[trigger] task.space.pages.contains_key(vpn) implies !range.has_page(
        vpn,
    ) by {
        assert(task.space.mapped(vpn));
    }
    assert(grown.moved_brk(-size).space.pages =~= task.space.pages);
}

/// The program break never falls below the lowest one.
pub proof fn law_brk_stays_above_bottom(
    pre: ManagerView,
    step: Step,
    post: ManagerView,
    id: int,
)
    requires
        pre.live(),
        pre.steps_to(step, post),
        forall|i: int|
            pre.valid(i) ==> (#[trigger] pre.tasks[i]).heap_bottom <= pre.tasks[i].program_brk,
        post.valid(id),
    ensures
        post.tasks[id].heap_bottom <= post.tasks[id].program_brk,
{
    lemma_places(pre, step, post);
}

/// A child that has been waited for is gone: it is in no children list any more, so it
/// can be waited for only once, and its place in the task list is free.
pub proof fn law_reaped_child_is_nobodys(
    pre: ManagerView,
    pid: isize,
    k: int,
    parent: int,
)
    requires
        pre.live(),
        pre.reaped_first(pid, k),
        pre.valid(parent),
    ensures
        !pre.without_child(k).is_child(parent, pre.cur().children[k] as int),
        pre.without_child(k).valid(pre.cur().children[k] as int),
        !pre.without_child(k).exists_task(pre.cur().children[k] as int),
{
    let post = pre.without_child(k);
    let id = pre.tasks[pre.current].children[k] as int;
    assert(pre.exists_task(id) && id != pre.current);
    if post.is_child(parent, id) {
        let j = choose|j: int|
            0 <= j < post.tasks[parent].children.len() && #[trigger] post.tasks[parent].children[j]
                == id;
        let j2 = if parent == pre.current && j >= k { j + 1 } else { j };
        assert(pre.tasks[parent].children[j2] == pre.tasks[pre.current].children[k]);
    }
}

/// A new task takes the place of a task that has been waited for: the task list grows
/// only when every place in it has a task.
pub proof fn law_places_are_used_again(tasks: ManagerView, child: TaskView)
    requires
        tasks.live(),
    ensures
        tasks.with_child(child).tasks.len() == tasks.tasks.len() <==> exists|id: int|
            tasks.valid(id) && !#[trigger] tasks.exists_task(id),
        tasks.with_child(child).tasks.len() <= tasks.tasks.len() + 1,
        tasks.with_child(child).tasks[tasks.free_place()] == child,
        tasks.with_child(child).infos[tasks.free_place()] == InfoView::fresh(),
        !tasks.exists_task(tasks.free_place()),
        forall|id: int| 0 <= id < tasks.free_place() ==> #[trigger] tasks.exists_task(id),
{
    tasks.lemma_free_place_from(0);
    if tasks.free_place() < tasks.tasks.len() {
        assert(!tasks.exists_task(tasks.free_place()));
    }
}

/// A pid that the kernel returns stands for the same pid when it is handed back, and is
/// the -1 that stands for any child only if it is the largest number.
pub proof fn law_pid_is_handed_back(pid: usize)
    ensures
        (pid as isize) as usize == pid,
        pid as isize == -1 <==> pid == usize::MAX,
{
    assert((pid as isize) as usize == pid) by (bit_vector);
    assert(pid as isize == -1 <==> pid == !0usize) by (bit_vector);
    let max = usize::MAX;
    assert(max <= !0usize) by (bit_vector);
}

/// If no two children have the same pid, a wait for the pid that another wait has
/// returned finds no child, whether the first was for that pid or for any child.
pub proof fn law_second_wait_finds_none(pre: ManagerView, pid: isize, k: int)
    requires
        pre.live(),
        pre.reaped_first(pid, k),
        pre.child(k).pid != usize::MAX,
        forall|i: int, j: int|
            0 <= i < j < pre.cur().children.len() ==> (#[trigger] pre.child(i)).pid != (
            #[trigger] pre.child(j)).pid,
    ensures
        forall|j: int|
            !#[trigger] pre.without_child(k).awaited(pre.child(k).pid as isize, j),
{
    let post = pre.without_child(k);
    let again = pre.child(k).pid as isize;
    assert(pre.exists_task(pre.tasks[pre.current].children[k] as int));
    law_pid_is_handed_back(pre.child(k).pid);
    assert forall|j: int| !#[trigger] post.awaited(again, j) by {
        if post.awaited(again, j) {
            let j2 = if j >= k { j + 1 } else { j };
            assert(post.cur().children[j] == pre.cur().children[j2]);
            assert(pre.tasks[pre.current].children[j2] != pre.tasks[pre.current].children[k]);
            assert(pre.exists_task(pre.tasks[pre.current].children[j2] as int));
            assert(post.child(j).pid == pre.child(j2).pid);
            assert(pre.child(k).pid == pre.child(j2).pid);
            if j2 < k {
                assert(pre.child(j2).pid != pre.child(k).pid);
            } else {
                assert(pre.child(k).pid != pre.child(j2).pid);
            }
        }
    }
}

/// A forked child is its parent all over, except in the result of the call: the same
/// memory and the same registers, but 0 in the one that carries the result. The parent
/// goes on as before, with a child more.
pub proof fn law_fork_differs_in_result(tasks: ManagerView, pid: usize, token: usize)
    requires
        tasks.live(),
    ensures
        ({
            let post = tasks.with_child(tasks.cur().forked(pid, token).returning_zero());
            let child = post.tasks[tasks.free_place()];
            &&& child.space.pages == tasks.cur().space.pages
            &&& child.registers.len() == NUM_REGISTERS
            &&& child.registers[RESULT_REGISTER as int] == 0
            &&& forall|i: int|
                0 <= i < NUM_REGISTERS && i != RESULT_REGISTER ==> #[trigger] child.registers[i]
                    == tasks.cur().registers[i]
            &&& post.cur() == (TaskView { children: post.cur().children, ..tasks.cur() })
            &&& post.current == tasks.current
        }),
{
    tasks.lemma_free_place_from(0);
}

/// A wait for a child that has just been forked or spawned finds it, and finds that it
/// has not ended.
pub proof fn law_new_child_is_awaited(tasks: ManagerView, child: TaskView)
    requires
        tasks.live(),
        tasks.tasks.len() <= usize::MAX,
        child.status == TaskStatus::Ready,
        child.pid != usize::MAX,
        forall|k: int|
            0 <= k < tasks.cur().children.len() ==> (#[trigger] tasks.child(k)).pid != child.pid,
    ensures
        tasks.with_child(child).awaited(child.pid as isize, tasks.cur().children.len() as int),
        forall|k: int| !#[trigger] tasks.with_child(child).reapable(child.pid as isize, k),
{
    let post = tasks.with_child(child);
    let last = tasks.cur().children.len() as int;
    tasks.lemma_free_place_from(0);
    law_pid_is_handed_back(child.pid);
    assert(post.cur().children[last] == tasks.free_place());
    assert(post.awaited(child.pid as isize, last));
    assert forall|k: int| !#[trigger] post.reapable(child.pid as isize, k) by {
        if post.reapable(child.pid as isize, k) && k < last {
            assert(post.cur().children[k] == tasks.cur().children[k]);
            assert(tasks.exists_task(tasks.tasks[tasks.current].children[k] as int));
            assert(post.child(k).pid == tasks.child(k).pid);
        }
    }
}

/// Whether a wait by the current task, for any child or for `pid`, can find the task `id`
/// as its child at `k`, ended with `exit_code`. If no other child has the pid, a wait
/// for it takes this very child.
pub open spec fn finds_ended(
    tasks: ManagerView,
    k: int,
    id: int,
    pid: usize,
    exit_code: i32,
) -> bool {
    &&& tasks.reapable(-1 as isize, k)
    &&& tasks.reapable(pid as isize, k)
    &&& tasks.cur().children[k] == id
    &&& tasks.child(k).pid == pid
    &&& tasks.child(k).exit_code == exit_code
    &&& pid != usize::MAX && (forall|j: int|
        0 <= j < tasks.cur().children.len() && j != k ==> (#[trigger] tasks.child(j)).pid != pid)
        ==> tasks.reaped_first(pid as isize, k)
}

/// When a task ends, its parent's wait finds it with the exit code it ended with,
/// whenever the parent runs, unless one of the two has been waited for before. If no
/// other child of the parent has its pid, a wait for the pid takes this very child.
pub proof fn law_exit_code_reaches_parent(
    states: Seq<ManagerView>,
    steps: Seq<Step>,
    exit_code: i32,
    parent: int,
)
    requires
        is_run(states, steps),
        steps.len() > 0,
        steps[0] matches Step::Exit { exit_code: code, .. } && code == exit_code,
        states[0].exists_task(parent),
        states[0].is_child(parent, states[0].current),
        forall|i: int|
            0 <= i < steps.len() ==> !#[trigger] states[i].reaps(steps[i], states[0].current),
        forall|i: int| 0 <= i < steps.len() ==> !#[trigger] states[i].reaps(steps[i], parent),
        states.last().current == parent,
    ensures
        exists|k: int| #[trigger]
            finds_ended(states.last(), k, states[0].current, states[0].cur().pid, exit_code),
{
    let id = states[0].current;
    let pid = states[0].cur().pid;
    let states1 = states.drop_first();
    let steps1 = steps.drop_first();
    let end = states.last();
    assert(states[0].steps_to(steps[0], states[1]));
    law_run_keeps_invariant(states, steps, 1);
    assert(is_run(states1, steps1)) by {
        assert forall|i: int| 0 <= i < states1.len() implies (#[trigger] states1[i]).tasks.len()
            <= usize::MAX by {
            assert(states[i + 1].tasks.len() <= usize::MAX);
        }
        assert forall|i: int| 0 <= i < steps1.len() implies states1[i].steps_to(
            #[trigger] steps1[i],
            states1[i + 1],
        ) by {
            assert(states[i + 1].steps_to(steps[i + 1], states[i + 2]));
        }
        assert forall|i: int| 0 <= i < steps1.len() - 1 implies !(#[trigger] steps1[i]).ends_all() by {
            assert(!steps[i + 1].ends_all());
        }
    }
    assert forall|i: int| 0 <= i < steps1.len() implies !#[trigger] states1[i].reaps(
        steps1[i],
        id,
    ) by {
        assert(!states[i + 1].reaps(steps[i + 1], id));
    }
    assert forall|i: int| 0 <= i < steps1.len() implies !#[trigger] states1[i].reaps(
        steps1[i],
        parent,
    ) by {
        assert(!states[i + 1].reaps(steps[i + 1], parent));
    }
    assert(!states[0].reaps(steps[0], id));
    lemma_child_is_kept(states[0], steps[0], states[1], id, parent);
    law_ended_task_is_kept_for_parent(states1, steps1, id, parent);
    assert(states1.last() == end);
    let k = choose|k: int|
        0 <= k < end.tasks[parent].children.len() && #[trigger] end.tasks[parent].children[k] == id;
    law_pid_is_handed_back(pid);
    assert(end.child(k) == end.tasks[id]);
    if pid != usize::MAX && (forall|j: int|
        0 <= j < end.cur().children.len() && j != k ==> (#[trigger] end.child(j)).pid != pid) {
        assert forall|j: int| #[trigger] end.reapable(pid as isize, j) implies k <= j by {
            if j != k {
                assert(end.child(j).pid != pid);
            }
        }
    }
    assert(finds_ended(end, k, id, pid, exit_code));
}

} // verus!
