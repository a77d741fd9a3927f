use kernel::mm::MemorySet;
use kernel::task::{
    current_trap_cx, current_user_token, exit_current_and_run_next, get_task_info,
    increase_syscall_counter, run_first_task, suspend_current_and_run_next, AppImage, Switch,
    TaskManager, TaskStatus, TrapContext,
};

fn image(token: usize) -> AppImage {
    AppImage {
        memory_set: MemorySet::new_bare(token),
        trap_cx: TrapContext { x: [token; 32] },
        heap_bottom: 0x10000,
    }
}

fn manager(n: usize) -> TaskManager {
    let mut images = Vec::new();
    for i in 0..n {
        images.push(image(100 + i));
    }
    TaskManager::new(images)
}

fn statuses(m: &TaskManager) -> Vec<TaskStatus> {
    (0..m.num_app()).map(|id| m.task(id).task_status).collect()
}

#[test]
fn new_manager_has_one_ready_task_per_image() {
    let m = manager(3);
    assert_eq!(m.num_app(), 3);
    assert_eq!(m.current(), 0);
    assert_eq!(statuses(&m), vec![TaskStatus::Ready; 3]);
    for id in 0..3 {
        assert_eq!(m.task(id).getpid(), id);
        assert_eq!(m.task(id).get_user_token(), 100 + id);
        assert_eq!(m.task(id).priority, 16);
        assert_eq!(m.task(id).program_brk, 0x10000);
        assert!(m.task(id).children.is_empty());
    }
    assert_eq!(get_task_info(&m).first_scheduled_time, None);
    assert_eq!(get_task_info(&m).syscall_counter, [0; 500]);
}

#[test]
fn empty_manager_has_nothing_to_run() {
    let m = manager(0);
    assert_eq!(m.num_app(), 0);
    assert_eq!(m.find_next_task(), None);
}

#[test]
fn first_task_runs() {
    let mut m = manager(2);
    assert_eq!(run_first_task(&mut m, 7), 0);
    assert_eq!(statuses(&m), vec![TaskStatus::Running, TaskStatus::Ready]);
    assert_eq!(get_task_info(&m).first_scheduled_time, Some(7));
}

#[test]
fn tasks_take_turns() {
    let mut m = manager(3);
    run_first_task(&mut m, 0);
    assert_eq!(suspend_current_and_run_next(&mut m, 1), Switch { from: 0, to: 1 });
    assert_eq!(
        statuses(&m),
        vec![TaskStatus::Ready, TaskStatus::Running, TaskStatus::Ready]
    );
    assert_eq!(suspend_current_and_run_next(&mut m, 2), Switch { from: 1, to: 2 });
    assert_eq!(suspend_current_and_run_next(&mut m, 3), Switch { from: 2, to: 0 });
    assert_eq!(suspend_current_and_run_next(&mut m, 4), Switch { from: 0, to: 1 });
    assert_eq!(m.current(), 1);
}

#[test]
fn task_alone_is_run_again() {
    let mut m = manager(1);
    run_first_task(&mut m, 0);
    assert_eq!(suspend_current_and_run_next(&mut m, 1), Switch { from: 0, to: 0 });
    assert_eq!(statuses(&m), vec![TaskStatus::Running]);
}

#[test]
fn ended_tasks_are_passed_over() {
    let mut m = manager(3);
    run_first_task(&mut m, 0);
    suspend_current_and_run_next(&mut m, 1);
    assert_eq!(exit_current_and_run_next(&mut m, 2), Some(Switch { from: 1, to: 2 }));
    assert_eq!(suspend_current_and_run_next(&mut m, 3), Switch { from: 2, to: 0 });
    assert_eq!(suspend_current_and_run_next(&mut m, 4), Switch { from: 0, to: 2 });
    assert_eq!(
        statuses(&m),
        vec![TaskStatus::Ready, TaskStatus::Exited, TaskStatus::Running]
    );
}

#[test]
fn nothing_runs_when_all_have_ended() {
    let mut m = manager(2);
    run_first_task(&mut m, 0);
    assert_eq!(exit_current_and_run_next(&mut m, 1), Some(Switch { from: 0, to: 1 }));
    assert_eq!(exit_current_and_run_next(&mut m, 2), None);
    assert_eq!(statuses(&m), vec![TaskStatus::Exited, TaskStatus::Exited]);
    assert_eq!(m.current(), 1);
}

#[test]
fn search_starts_behind_the_current_task() {
    let mut m = manager(3);
    run_first_task(&mut m, 0);
    assert_eq!(m.find_next_task(), Some(1));
    suspend_current_and_run_next(&mut m, 1);
    assert_eq!(m.find_next_task(), Some(2));
    exit_current_and_run_next(&mut m, 2);
    assert_eq!(m.find_next_task(), Some(0));
    exit_current_and_run_next(&mut m, 3);
    assert_eq!(m.find_next_task(), None);
}

#[test]
fn waiting_task_is_reached_within_one_round() {
    let mut m = manager(4);
    run_first_task(&mut m, 0);
    let mut switches = 0;
    while m.current() != 3 {
        suspend_current_and_run_next(&mut m, 1);
        switches += 1;
    }
    assert_eq!(switches, 3);
    assert!(switches < m.num_app());
}

#[test]
fn first_scheduled_time_is_set_once() {
    let mut m = manager(2);
    run_first_task(&mut m, 10);
    suspend_current_and_run_next(&mut m, 20);
    assert_eq!(get_task_info(&m).first_scheduled_time, Some(20));
    suspend_current_and_run_next(&mut m, 30);
    assert_eq!(get_task_info(&m).first_scheduled_time, Some(10));
    suspend_current_and_run_next(&mut m, 40);
    assert_eq!(get_task_info(&m).first_scheduled_time, Some(20));
}

#[test]
fn calls_are_counted_for_the_current_task() {
    let mut m = manager(2);
    run_first_task(&mut m, 0);
    increase_syscall_counter(&mut m, 64);
    increase_syscall_counter(&mut m, 64);
    increase_syscall_counter(&mut m, 499);
    let info = get_task_info(&m);
    assert_eq!(info.syscall_counter[64], 2);
    assert_eq!(info.syscall_counter[499], 1);
    assert_eq!(info.syscall_counter[0], 0);
    suspend_current_and_run_next(&mut m, 1);
    assert_eq!(get_task_info(&m).syscall_counter, [0; 500]);
}

#[test]
fn token_and_registers_are_those_of_the_current_task() {
    let mut m = manager(2);
    run_first_task(&mut m, 0);
    assert_eq!(current_user_token(&m), 100);
    suspend_current_and_run_next(&mut m, 1);
    assert_eq!(current_user_token(&m), 101);
    let cx = current_trap_cx(&mut m);
    assert_eq!(cx.x[17], 101);
    cx.x[17] = 5;
    assert_eq!(m.task(1).trap_cx.x[17], 5);
    assert_eq!(m.task(1).trap_cx.x[16], 101);
    assert_eq!(m.task(0).trap_cx.x[17], 100);
}
