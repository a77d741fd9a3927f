//! The task manager, where all the tasks are managed.

use vstd::prelude::*;

use super::control::{AppImage, TaskControlBlock, TaskStatus, TaskView, TrapContext};
use crate::config::{MAX_SYSCALL_NUM, NUM_REGISTERS};
use crate::mm::{MapPermission, SpaceView, VPNRange, VirtAddr};

verus! {

/// Information about a task.
#[derive(Clone, Copy)]
pub struct TaskInfo {
    /// When the task was first scheduled.
    pub first_scheduled_time: Option<usize>,
    /// How often the task made each system call.
    pub syscall_counter: [u32; MAX_SYSCALL_NUM],
}

/// Information about a task as a mathematical value.
#[verifier::ext_equal]
pub struct InfoView {
    pub first_scheduled_time: Option<usize>,
    pub syscall_counter: Seq<u32>,
}

impl View for TaskInfo {
    type V = InfoView;

    open spec fn view(&self) -> InfoView {
        InfoView {
            first_scheduled_time: self.first_scheduled_time,
            syscall_counter: self.syscall_counter@,
        }
    }
}

impl InfoView {
    /// A task that has not been scheduled and has made no system call.
    pub open spec fn fresh() -> InfoView {
        InfoView {
            first_scheduled_time: None,
            syscall_counter: Seq::new(MAX_SYSCALL_NUM as nat, |i: int| 0u32),
        }
    }
}

impl TaskInfo {
    /// A task that has not been scheduled and has made no system call.
    pub fn new() -> (r: TaskInfo)
        ensures
            r@ == InfoView::fresh(),
    {
        let r = TaskInfo { first_scheduled_time: None, syscall_counter: [0; MAX_SYSCALL_NUM] };
        assert(r@ =~= InfoView::fresh());
        r
    }
}

/// A context switch that the caller has to make: from the context of one task to the
/// context of another.
#[derive(Clone, Copy, Debug, PartialEq, Eq, Structural)]
pub struct Switch {
    pub from: usize,
    pub to: usize,
}

/// All tasks as a mathematical value.
#[verifier::ext_equal]
pub struct ManagerView {
    /// The task list; a task's id is its index.
    pub tasks: Seq<TaskView>,
    /// Information about each task.
    pub infos: Seq<InfoView>,
    /// The id of the current task.
    pub current: int,
}

impl ManagerView {
    /// Whether `id` is a place in the task list.
    pub open spec fn valid(self, id: int) -> bool {
        0 <= id < self.tasks.len()
    }

    /// Whether `id` is a task: a place in the task list that is not free.
    pub open spec fn exists_task(self, id: int) -> bool {
        self.valid(id) && self.tasks[id].status != TaskStatus::UnInit
    }

    /// The current task.
    pub open spec fn cur(self) -> TaskView {
        self.tasks[self.current]
    }

    /// Information about the current task.
    pub open spec fn cur_info(self) -> InfoView {
        self.infos[self.current]
    }

    /// The same with `task` in place of the current task.
    pub open spec fn with_cur(self, task: TaskView) -> ManagerView {
        ManagerView { tasks: self.tasks.update(self.current, task), ..self }
    }

    /// The same with the current task in another status.
    pub open spec fn with_cur_status(self, status: TaskStatus) -> ManagerView {
        self.with_cur(TaskView { status, ..self.cur() })
    }

    /// The same with other register contents for the current task.
    pub open spec fn with_cur_registers(self, registers: Seq<usize>) -> ManagerView {
        self.with_cur(TaskView { registers, ..self.cur() })
    }

    /// The same with another address space for the current task.
    pub open spec fn with_cur_space(self, space: SpaceView) -> ManagerView {
        self.with_cur(TaskView { space, ..self.cur() })
    }

    /// The same with the bytes from `va_start` up to `va_end` mapped into the current
    /// task's address space, with the permission that `flags` asks for.
    pub open spec fn with_area(self, va_start: VirtAddr, va_end: VirtAddr, flags: u8) -> ManagerView {
        self.with_cur_space(
            self.cur().space.map_range(
                VPNRange::touched(va_start.0 as int, va_end.0 as int),
                MapPermission::of_flags(flags),
            ),
        )
    }

    /// The same with the bytes from `va_start` up to `va_end` unmapped from the current
    /// task's address space.
    pub open spec fn without_area(self, va_start: VirtAddr, va_end: VirtAddr) -> ManagerView {
        self.with_cur_space(
            self.cur().space.unmap_range(VPNRange::touched(va_start.0 as int, va_end.0 as int)),
        )
    }

    /// Whether `id` is a task that waits to be run.
    pub open spec fn ready(self, id: int) -> bool {
        self.valid(id) && self.tasks[id].status == TaskStatus::Ready
    }

    /// How many tasks come before `id` in the round that starts behind the current
    /// task and ends with it.
    pub open spec fn turn(self, id: int) -> int {
        if id > self.current {
            id - self.current - 1
        } else {
            id - self.current - 1 + self.tasks.len()
        }
    }

    /// Whether `id` is to be run next: the first in the round that waits to be run.
    pub open spec fn is_next(self, id: int) -> bool {
        &&& self.ready(id)
        &&& forall|other: int| #[trigger] self.ready(other) ==> self.turn(id) <= self.turn(other)
    }

    /// Whether no task waits to be run.
    pub open spec fn none_ready(self) -> bool {
        forall|id: int| !#[trigger] self.ready(id)
    }

    /// The same with the task `next` running as the current task. Its first scheduled
    /// time becomes `now` unless it has one.
    pub open spec fn dispatched(self, next: int, now: usize) -> ManagerView {
        ManagerView {
            tasks: self.tasks.update(
                next,
                TaskView { status: TaskStatus::Running, ..self.tasks[next] },
            ),
            infos: self.infos.update(
                next,
                InfoView {
                    first_scheduled_time: match self.infos[next].first_scheduled_time {
                        Some(t) => Some(t),
                        None => Some(now),
                    },
                    ..self.infos[next]
                },
            ),
            current: next,
        }
    }

    /// The same with the first task running, scheduled first at `now`.
    pub open spec fn first_dispatched(self, now: usize) -> ManagerView {
        ManagerView {
            tasks: self.tasks.update(
                0,
                TaskView { status: TaskStatus::Running, ..self.tasks[0] },
            ),
            infos: self.infos.update(
                0,
                InfoView { first_scheduled_time: Some(now), ..self.infos[0] },
            ),
            ..self
        }
    }

    /// The same with one more call of `syscall_id` by the current task.
    pub open spec fn with_call_counted(self, syscall_id: int) -> ManagerView {
        let counter = self.cur_info().syscall_counter;
        ManagerView {
            infos: self.infos.update(
                self.current,
                InfoView {
                    syscall_counter: counter.update(
                        syscall_id,
                        (counter[syscall_id] + 1) as u32,
                    ),
                    ..self.cur_info()
                },
            ),
            ..self
        }
    }

    /// The first place from `from` on that is free, or else the end of the list.
    pub open spec fn free_place_from(self, from: int) -> int
        decreases self.tasks.len() - from,
    {
        if from >= self.tasks.len() || self.tasks[from].status == TaskStatus::UnInit {
            from
        } else {
            self.free_place_from(from + 1)
        }
    }

    /// The place that a new task gets: the first that is free, or else a new one at the
    /// end of the list.
    pub open spec fn free_place(self) -> int {
        self.free_place_from(0)
    }

    /// The same with `child` as a new task, the youngest child of the current one.
    pub open spec fn with_child(self, child: TaskView) -> ManagerView {
        let id = self.free_place();
        let parent = TaskView { children: self.cur().children.push(id as usize), ..self.cur() };
        let tasks = self.tasks.update(self.current, parent);
        if id < self.tasks.len() {
            ManagerView {
                tasks: tasks.update(id, child),
                infos: self.infos.update(id, InfoView::fresh()),
                ..self
            }
        } else {
            ManagerView {
                tasks: tasks.push(child),
                infos: self.infos.push(InfoView::fresh()),
                ..self
            }
        }
    }

    /// The same with the child at `index` taken out of the current task's children and
    /// out of the task list: its place is free.
    pub open spec fn without_child(self, index: int) -> ManagerView {
        let id = self.cur().children[index] as int;
        let parent = TaskView { children: self.cur().children.remove(index), ..self.cur() };
        ManagerView {
            tasks: self.tasks.update(self.current, parent).update(id, TaskView::vacant()),
            infos: self.infos.update(id, InfoView::fresh()),
            ..self
        }
    }

    /// Whether `id` occurs among the children of `parent`.
    pub open spec fn is_child(self, parent: int, id: int) -> bool {
        exists|k: int|
            0 <= k < self.tasks[parent].children.len() && #[trigger] self.tasks[parent].children[k]
                == id
    }

    /// Every child is another task, but never the first one, and no task is the child of
    /// two, nor twice of one.
    pub open spec fn family_wf(self) -> bool {
        &&& forall|p: int, k: int|
            #![trigger self.tasks[p].children[k]]
            self.valid(p) && 0 <= k < self.tasks[p].children.len() ==> self.exists_task(
                self.tasks[p].children[k] as int,
            ) && self.tasks[p].children[k] != p && self.tasks[p].children[k] != 0
        &&& forall|p: int, k: int, q: int, l: int|
            #![trigger self.tasks[p].children[k], self.tasks[q].children[l]]
            self.valid(p) && 0 <= k < self.tasks[p].children.len() && self.valid(q) && 0 <= l
                < self.tasks[q].children.len() && self.tasks[p].children[k]
                == self.tasks[q].children[l] ==> p == q && k == l
    }

    /// What holds of the tasks at all times.
    pub open spec fn wf(self) -> bool {
        &&& self.infos.len() == self.tasks.len()
        &&& self.tasks.len() > 0 ==> self.exists_task(self.current) && self.exists_task(0)
        &&& forall|id: int|
            self.valid(id) ==> (#[trigger] self.tasks[id]).registers.len() == NUM_REGISTERS
        &&& forall|id: int|
            self.valid(id) ==> (#[trigger] self.infos[id]).syscall_counter.len() == MAX_SYSCALL_NUM
        &&& self.family_wf()
    }

    /// What holds while there is a current task.
    pub open spec fn live(self) -> bool {
        self.wf() && self.tasks.len() > 0
    }

    /// A change that leaves the places in the task list, their children and the lengths
    /// of their tables alone keeps what holds at all times.
    pub proof fn lemma_wf_kept(self, other: ManagerView)
        requires
            self.wf(),
            other.tasks.len() == self.tasks.len(),
            other.infos.len() == self.infos.len(),
            other.exists_task(other.current) || other.current == self.current,
            forall|id: int|
                self.valid(id) ==> (#[trigger] other.tasks[id]).children == self.tasks[id].children
                    && other.tasks[id].registers.len() == self.tasks[id].registers.len() && (
                other.tasks[id].status == TaskStatus::UnInit <==> self.tasks[id].status
                    == TaskStatus::UnInit),
            forall|id: int|
                self.valid(id) ==> (#[trigger] other.infos[id]).syscall_counter.len()
                    == self.infos[id].syscall_counter.len(),
        ensures
            other.wf(),
    {
        assert forall|p: int, k: int|
            #![trigger other.tasks[p].children[k]]
            other.valid(p) && 0 <= k < other.tasks[p].children.len() implies other.exists_task(
            other.tasks[p].children[k] as int,
        ) && other.tasks[p].children[k] != p && other.tasks[p].children[k] != 0 by {
            assert(self.tasks[p].children[k] == other.tasks[p].children[k]);
        }
        assert forall|p: int, k: int, q: int, l: int|
            #![trigger other.tasks[p].children[k], other.tasks[q].children[l]]
            other.valid(p) && 0 <= k < other.tasks[p].children.len() && other.valid(q) && 0 <= l
                < other.tasks[q].children.len() && other.tasks[p].children[k]
                == other.tasks[q].children[l] implies p == q && k == l by {
            assert(self.tasks[p].children[k] == other.tasks[p].children[k]);
            assert(self.tasks[q].children[l] == other.tasks[q].children[l]);
        }
    }

    /// What `free_place_from` gives is free, and no place before it is.
    pub proof fn lemma_free_place_from(self, from: int)
        requires
            0 <= from <= self.tasks.len(),
        ensures
            from <= self.free_place_from(from) <= self.tasks.len(),
            self.valid(self.free_place_from(from)) ==> self.tasks[self.free_place_from(from)].status
                == TaskStatus::UnInit,
            forall|id: int| from <= id < self.free_place_from(from) ==> #[trigger] self.exists_task(id),
        decreases self.tasks.len() - from,
    {
        if from < self.tasks.len() && self.tasks[from].status != TaskStatus::UnInit {
            self.lemma_free_place_from(from + 1);
        }
    }

    /// A new task without children keeps what holds at all times.
    pub proof fn lemma_wf_with_child(self, child: TaskView)
        requires
            self.live(),
            self.tasks.len() <= usize::MAX,
            child.status != TaskStatus::UnInit,
            child.children.len() == 0,
            child.registers.len() == NUM_REGISTERS,
        ensures
            self.with_child(child).live(),
    {
        let other = self.with_child(child);
        let id = self.free_place();
        self.lemma_free_place_from(0);
        assert(id != self.current);
        assert forall|p: int, k: int|
            #![trigger other.tasks[p].children[k]]
            other.valid(p) && 0 <= k < other.tasks[p].children.len() implies other.exists_task(
            other.tasks[p].children[k] as int,
        ) && other.tasks[p].children[k] != p && other.tasks[p].children[k] != 0 && p != id && (
        other.tasks[p].children[k] == id ==> p == self.current && k == self.cur().children.len())
            && (other.tasks[p].children[k] != id ==> self.valid(p) && k
            < self.tasks[p].children.len() && self.tasks[p].children[k]
            == other.tasks[p].children[k]) by {
            if p == self.current && k == self.cur().children.len() {
            } else {
                assert(self.tasks[p].children[k] == other.tasks[p].children[k]);
            }
        }
        assert forall|p: int, k: int, q: int, l: int|
            #![trigger other.tasks[p].children[k], other.tasks[q].children[l]]
            other.valid(p) && 0 <= k < other.tasks[p].children.len() && other.valid(q) && 0 <= l
                < other.tasks[q].children.len() && other.tasks[p].children[k]
                == other.tasks[q].children[l] implies p == q && k == l by {
            if other.tasks[p].children[k] != id {
                assert(self.tasks[p].children[k] == other.tasks[p].children[k]);
                assert(self.tasks[q].children[l] == other.tasks[q].children[l]);
            }
        }
    }

    /// Taking a child out of the task list keeps what holds at all times.
    pub proof fn lemma_wf_without_child(self, index: int)
        requires
            self.live(),
            0 <= index < self.cur().children.len(),
        ensures
            self.without_child(index).wf(),
    {
        let other = self.without_child(index);
        let id = self.tasks[self.current].children[index] as int;
        assert(self.exists_task(id) && id != self.current);
        assert forall|p: int, k: int|
            #![trigger other.tasks[p].children[k]]
            other.valid(p) && 0 <= k < other.tasks[p].children.len() implies other.exists_task(
            other.tasks[p].children[k] as int,
        ) && other.tasks[p].children[k] != p && other.tasks[p].children[k] != 0
            && other.tasks[p].children[k] == self.tasks[p].children[if p == self.current && k >= index {
            k + 1
        } else {
            k
        }] by {
            let k2 = if p == self.current && k >= index { k + 1 } else { k };
            assert(other.tasks[p].children[k] == self.tasks[p].children[k2]);
            assert(self.tasks[p].children[k2] != self.tasks[self.current].children[index]);
        }
        assert forall|p: int, k: int, q: int, l: int|
            #![trigger other.tasks[p].children[k], other.tasks[q].children[l]]
            other.valid(p) && 0 <= k < other.tasks[p].children.len() && other.valid(q) && 0 <= l
                < other.tasks[q].children.len() && other.tasks[p].children[k]
                == other.tasks[q].children[l] implies p == q && k == l by {
            let k2 = if p == self.current && k >= index { k + 1 } else { k };
            let l2 = if q == self.current && l >= index { l + 1 } else { l };
            assert(self.tasks[p].children[k2] == self.tasks[q].children[l2]);
        }
    }
}

/// The task manager, where all the tasks are managed.
///
/// Its functions deal with all task state transitions. For convenience, you can find
/// functions around it in the module `task`.
pub struct TaskManager {
    /// Number of places in the task list.
    num_app: usize,
    /// The tasks themselves.
    inner: TaskManagerInner,
}

/// The tasks of a task manager.
struct TaskManagerInner {
    /// Task list.
    tasks: Vec<TaskControlBlock>,
    /// Id of the current `Running` task.
    current: usize,
    /// Task info list.
    infos: Vec<TaskInfo>,
}

impl View for TaskManager {
    type V = ManagerView;

    closed spec fn view(&self) -> ManagerView {
        ManagerView {
            tasks: self.inner.tasks@.map_values(|t: TaskControlBlock| t@),
            infos: self.inner.infos@.map_values(|i: TaskInfo| i@),
            current: self.inner.current as int,
        }
    }
}

impl TaskManager {
    /// Whether the number of places is that of the task list.
    pub closed spec fn counted(self) -> bool {
        self.num_app == self.inner.tasks@.len()
    }

    /// What holds of a task manager at all times.
    pub open spec fn wf(self) -> bool {
        self.counted() && self@.wf()
    }

    /// What holds of a task manager that has tasks, and so a current one.
    pub open spec fn live(self) -> bool {
        self.wf() && self@.tasks.len() > 0
    }

    /// The manager of one task for each of `images`, in their order. The pid of each is
    /// its id, and the first is the current task.
    pub fn new(images: Vec<AppImage>) -> (r: TaskManager)
        ensures
            r.wf(),
            r@ == (ManagerView {
                tasks: Seq::new(
                    images@.len(),
                    |i: int| TaskView::from_image(images@[i], i as usize),
                ),
                infos: Seq::new(images@.len(), |i: int| InfoView::fresh()),
                current: 0,
            }),
    {
        let mut tasks: Vec<TaskControlBlock> = Vec::new();
        let mut infos: Vec<TaskInfo> = Vec::new();
        let num_app: usize = images.len();
        let mut i: usize = 0;
        for image in it: images
            invariant
                i == it.index(),
                it.seq() == images@,
                num_app == images@.len(),
                tasks@.len() == i,
                infos@.len() == i,
                forall|j: int|
                    0 <= j < i ==> (#[trigger] tasks@[j])@ == TaskView::from_image(
                        images@[j],
                        j as usize,
                    ),
                forall|j: int| 0 <= j < i ==> (#[trigger] infos@[j])@ == InfoView::fresh(),
        {
            tasks.push(TaskControlBlock::new(image, i));
            infos.push(TaskInfo::new());
            i = i + 1;
        }
        TaskManager { num_app, inner: TaskManagerInner { tasks, current: 0, infos } }
    }

    /// The number of places in the task list.
    pub fn num_app(&self) -> (r: usize)
        requires
            self.wf(),
        ensures
            r == self@.tasks.len(),
    {
        self.num_app
    }

    /// The id of the current task.
    pub fn current(&self) -> (r: usize)
        ensures
            r == self@.current,
    {
        self.inner.current
    }

    /// Makes the first task in the task list the running one, and gives its id: the
    /// caller switches to its context.
    pub fn run_first_task(&mut self, now: usize) -> (r: usize)
        requires
            old(self).live(),
        ensures
            final(self).live(),
            r == 0,
            final(self)@ == old(self)@.first_dispatched(now),
    {
        self.inner.tasks[0].task_status = TaskStatus::Running;
        self.inner.infos[0].first_scheduled_time = Some(now);
        proof {
            assert(self@ =~= old(self)@.first_dispatched(now));
            old(self)@.lemma_wf_kept(self@);
        }
        0
    }

    /// Changes the status of the current `Running` task into `Ready`.
    pub(crate) fn mark_current_suspended(&mut self)
        requires
            old(self).live(),
        ensures
            final(self).live(),
            final(self)@ == old(self)@.with_cur_status(TaskStatus::Ready),
    {
        let current: usize = self.inner.current;
        self.inner.tasks[current].task_status = TaskStatus::Ready;
        proof {
            assert(self@ =~= old(self)@.with_cur_status(TaskStatus::Ready));
            old(self)@.lemma_wf_kept(self@);
        }
    }

    /// Changes the status of the current `Running` task into `Exited`.
    pub(crate) fn mark_current_exited(&mut self)
        requires
            old(self).live(),
        ensures
            final(self).live(),
            final(self)@ == old(self)@.with_cur_status(TaskStatus::Exited),
    {
        let current: usize = self.inner.current;
        self.inner.tasks[current].task_status = TaskStatus::Exited;
        proof {
            assert(self@ =~= old(self)@.with_cur_status(TaskStatus::Exited));
            old(self)@.lemma_wf_kept(self@);
        }
    }

    /// Finds the next task to run and gives its id.
    ///
    /// This is the first `Ready` task in the round that starts behind the current task
    /// and ends with it.
    pub fn find_next_task(&self) -> (r: Option<usize>)
        requires
            self.wf(),
        ensures
            match r {
                Some(id) => self@.is_next(id as int),
                None => self@.none_ready(),
            },
    {
        let num_app: usize = self.num_app;
        let mut id: usize = self.inner.current;
        let mut passed: usize = 0;
        while passed < num_app
            invariant
                self.wf(),
                num_app == self@.tasks.len(),
                num_app == self.inner.tasks@.len(),
                passed <= num_app,
                num_app > 0 ==> id < num_app,
                passed == 0 ==> id == self@.current,
                passed > 0 ==> self@.turn(id as int) == passed - 1,
                forall|other: int| #[trigger]
                    self@.ready(other) ==> passed <= self@.turn(other),
            decreases num_app - passed,
        {
            id = if id + 1 == num_app {
                0
            } else {
                id + 1
            };
            assert(self@.turn(id as int) == passed);
            if self.inner.tasks[id].task_status == TaskStatus::Ready {
                assert(self@.tasks[id as int].status == TaskStatus::Ready);
                return Some(id);
            }
            assert(self@.tasks[id as int].status != TaskStatus::Ready);
            passed = passed + 1;
        }
        assert forall|other: int| !#[trigger] self@.ready(other) by {
            assert(self@.valid(other) ==> self@.turn(other) < num_app);
        }
        None
    }

    /// Makes the next `Ready` task the running one and gives the switch to make, or
    /// nothing if all applications have completed.
    pub(crate) fn run_next_task(&mut self, now: usize) -> (r: Option<Switch>)
        requires
            old(self).wf(),
        ensures
            final(self).wf(),
            match r {
                Some(switch) => {
                    &&& switch.from == old(self)@.current
                    &&& old(self)@.is_next(switch.to as int)
                    &&& final(self)@ == old(self)@.dispatched(switch.to as int, now)
                },
                None => old(self)@.none_ready() && final(self)@ == old(self)@,
            },
    {
        match self.find_next_task() {
            Some(next) => {
                let current: usize = self.inner.current;
                assert(self@.ready(next as int));
                self.inner.tasks[next].task_status = TaskStatus::Running;
                let first: Option<usize> = self.inner.infos[next].first_scheduled_time;
                if first.is_none() {
                    self.inner.infos[next].first_scheduled_time = Some(now);
                }
                self.inner.current = next;
                proof {
                    assert(self@ =~= old(self)@.dispatched(next as int, now));
                    old(self)@.lemma_wf_kept(self@);
                }
                Some(Switch { from: current, to: next })
            },
            None => None,
        }
    }

    /// The token of the current `Running` task's page table.
    pub fn get_current_token(&self) -> (r: usize)
        requires
            self.live(),
        ensures
            r == self@.cur().space.token,
    {
        self.inner.tasks[self.inner.current].get_user_token()
    }

    /// The registers of the current `Running` task.
    pub fn get_current_trap_cx(&mut self) -> (r: &mut TrapContext)
        requires
            old(self).live(),
        ensures
            final(self).live(),
            r.x@ == old(self)@.cur().registers,
            final(self)@ == old(self)@.with_cur_registers(final(r).x@),
    {
        let current: usize = self.inner.current;
        proof {
            assert forall|after: TaskManager|
                after.num_app == self.num_app && after@ =~= self@.with_cur_registers(
                    after@.cur().registers,
                ) implies #[trigger] after.wf() by {
                let like = self@.with_cur_registers(after@.cur().registers);
                assert(after@ == like);
                assert(like.tasks.len() == self@.tasks.len());
                assert(after@.current == current);
                assert(after.inner.tasks@[current as int].trap_cx.x@.len() == NUM_REGISTERS);
                assert(after@.cur().registers.len() == NUM_REGISTERS);
                self@.lemma_wf_kept(after@);
            }
        }
        self.inner.tasks[current].get_trap_cx()
    }

    /// Changes the current `Running` task's program break by `size` bytes, and gives the
    /// break before the change.
    pub fn change_current_program_brk(&mut self, size: i32) -> (r: Option<usize>)
        requires
            old(self).live(),
        ensures
            final(self).live(),
            r == (if old(self)@.cur().can_move_brk(size as int) {
                Some(old(self)@.cur().program_brk)
            } else {
                None
            }),
            final(self)@ == (if old(self)@.cur().can_move_brk(size as int) {
                old(self)@.with_cur(old(self)@.cur().moved_brk(size as int))
            } else {
                old(self)@
            }),
    {
        let current: usize = self.inner.current;
        let r: Option<usize> = self.inner.tasks[current].change_program_brk(size);
        proof {
            assert(self@.tasks =~= old(self)@.tasks.update(
                current as int,
                self.inner.tasks@[current as int]@,
            ));
            assert(self@ =~= (if old(self)@.cur().can_move_brk(size as int) {
                old(self)@.with_cur(old(self)@.cur().moved_brk(size as int))
            } else {
                old(self)@
            }));
            old(self)@.lemma_wf_kept(self@);
        }
        r
    }

    /// Counts one more call of the system call `syscall_id` by the current task.
    pub fn increase_syscall_counter(&mut self, syscall_id: usize)
        requires
            old(self).live(),
            syscall_id < MAX_SYSCALL_NUM,
            old(self)@.cur_info().syscall_counter[syscall_id as int] < u32::MAX,
        ensures
            final(self).live(),
            final(self)@ == old(self)@.with_call_counted(syscall_id as int),
    {
        let current: usize = self.inner.current;
        let count: u32 = self.inner.infos[current].syscall_counter[syscall_id];
        assert(count == self@.cur_info().syscall_counter[syscall_id as int]);
        self.inner.infos[current].syscall_counter[syscall_id] = count + 1;
        proof {
            assert(self@ =~= old(self)@.with_call_counted(syscall_id as int));
            old(self)@.lemma_wf_kept(self@);
        }
    }

    /// Information about the current task.
    pub fn get_task_info(&self) -> (r: TaskInfo)
        requires
            self.live(),
        ensures
            r@ == self@.cur_info(),
    {
        self.inner.infos[self.inner.current]
    }

    /// Maps the pages from `va_start` up to `va_end` into the current task's address
    /// space, with the permission that `flags` asks for.
    pub fn insert_to_memset(&mut self, va_start: VirtAddr, va_end: VirtAddr, flags: u8)
        requires
            old(self).live(),
        ensures
            final(self).live(),
            final(self)@ == old(self)@.with_area(va_start, va_end, flags),
    {
        let mut perm: MapPermission = MapPermission::user_only();
        if (flags & 0x1) > 0 {
            perm.read = true;
        }
        if (flags & 0x2) > 0 {
            perm.write = true;
        }
        if (flags & 0x4) > 0 {
            perm.execute = true;
        }
        self.current_task_mut().memory_set.insert_framed_area(va_start, va_end, perm);
    }

    /// Unmaps the pages from `va_start` up to `va_end` from the current task's address
    /// space.
    pub fn remove_from_memset(&mut self, va_start: VirtAddr, va_end: VirtAddr)
        requires
            old(self).live(),
        ensures
            final(self).live(),
            final(self)@ == old(self)@.without_area(va_start, va_end),
    {
        self.current_task_mut().memory_set.remove_framed_area(va_start, va_end);
    }

    /// What is at the place `id` of the task list.
    pub fn task(&self, id: usize) -> (r: &TaskControlBlock)
        requires
            self.wf(),
            self@.valid(id as int),
        ensures
            r@ == self@.tasks[id as int],
    {
        &self.inner.tasks[id]
    }

    /// The current task.
    pub fn current_task(&self) -> (r: &TaskControlBlock)
        requires
            self.live(),
        ensures
            r@ == self@.cur(),
    {
        &self.inner.tasks[self.inner.current]
    }

    /// The current task, to be changed in all but its children; it stays a task.
    pub(crate) fn current_task_mut(&mut self) -> (r: &mut TaskControlBlock)
        requires
            old(self).live(),
        ensures
            r@ == old(self)@.cur(),
            final(self)@ == old(self)@.with_cur(final(r)@),
            final(r)@.children == old(self)@.cur().children && final(r)@.status
                != TaskStatus::UnInit ==> final(self).live(),
    {
        let current: usize = self.inner.current;
        proof {
            assert forall|after: TaskManager|
                after.num_app == self.num_app && after@ =~= self@.with_cur(after@.cur())
                    && after@.cur().children == self@.cur().children && after@.cur().status
                    != TaskStatus::UnInit implies #[trigger] after.wf() by {
                let like = self@.with_cur(after@.cur());
                assert(after@ == like);
                assert(like.tasks.len() == self@.tasks.len());
                assert(after@.current == current);
                assert(after.inner.tasks@[current as int].trap_cx.x@.len() == NUM_REGISTERS);
                assert(after@.cur().registers.len() == NUM_REGISTERS);
                self@.lemma_wf_kept(after@);
            }
        }
        &mut self.inner.tasks[current]
    }

    /// Finds the place in the task list that a new task gets.
    fn find_free_place(&self) -> (r: usize)
        requires
            self.wf(),
        ensures
            r == self@.free_place(),
    {
        let mut id: usize = 0;
        while id < self.num_app
            invariant
                self.wf(),
                id <= self.num_app,
                self.num_app == self.inner.tasks@.len(),
                self@.free_place() == self@.free_place_from(id as int),
            decreases self.num_app - id,
        {
            if self.inner.tasks[id].task_status == TaskStatus::UnInit {
                assert(self@.tasks[id as int].status == TaskStatus::UnInit);
                return id;
            }
            assert(self@.tasks[id as int].status != TaskStatus::UnInit);
            id = id + 1;
        }
        id
    }

    /// Adds `new_task` to the tasks to be scheduled, as the youngest child of the
    /// current task. It gets the first free place in the task list.
    pub(crate) fn add_task(&mut self, new_task: TaskControlBlock)
        requires
            old(self).live(),
            new_task@.status != TaskStatus::UnInit,
            new_task@.children.len() == 0,
        ensures
            final(self).live(),
            final(self)@ == old(self)@.with_child(new_task@),
    {
        let current: usize = self.inner.current;
        let id: usize = self.find_free_place();
        proof {
            self@.lemma_free_place_from(0);
        }
        self.inner.tasks[current].children.push(id);
        if id < self.num_app {
            self.inner.tasks[id] = new_task;
            self.inner.infos[id] = TaskInfo::new();
        } else {
            self.inner.tasks.push(new_task);
            self.inner.infos.push(TaskInfo::new());
            self.num_app = self.inner.tasks.len();
        }
        proof {
            assert(self@ =~= old(self)@.with_child(new_task@));
            old(self)@.lemma_wf_with_child(new_task@);
        }
    }

    /// Takes the child at `index` out of the current task's children and out of the task
    /// list, and hands it to the caller. Its place can be used again, and its own children
    /// have no parent any more.
    pub(crate) fn remove_child(&mut self, index: usize) -> (r: TaskControlBlock)
        requires
            old(self).live(),
            index < old(self)@.cur().children.len(),
        ensures
            final(self).live(),
            r@ == old(self)@.tasks[old(self)@.cur().children[index as int] as int],
            final(self)@ == old(self)@.without_child(index as int),
    {
        let current: usize = self.inner.current;
        assert(self@.exists_task(self@.tasks[current as int].children[index as int] as int));
        let id: usize = self.inner.tasks[current].children.remove(index);
        let mut child = TaskControlBlock::vacant();
        std::mem::swap(&mut self.inner.tasks[id], &mut child);
        self.inner.infos[id] = TaskInfo::new();
        proof {
            assert(self@ =~= old(self)@.without_child(index as int));
            old(self)@.lemma_wf_without_child(index as int);
        }
        child
    }
}

} // verus!
