use kernel::mm::{MapPermission, MemorySet, VPNRange, VirtPageNum};
use kernel::syscall::process::{
    app_file, sys_exec, sys_exit, sys_fork, sys_get_time, sys_getpid, sys_mmap, sys_munmap,
    sys_set_priority, sys_spawn, sys_task_info, sys_waitpid, sys_yield,
};
use kernel::task::{
    current_trap_cx, increase_syscall_counter, run_first_task, AppImage, Switch, TaskManager,
    TaskStatus, TrapContext,
};

fn image(token: usize, fill: usize) -> AppImage {
    let mut memory_set = MemorySet::new_bare(token);
    memory_set.map_pages(
        VPNRange::new(VirtPageNum(fill), VirtPageNum(fill + 1)),
        MapPermission::heap(),
    );
    AppImage {
        memory_set,
        trap_cx: TrapContext { x: [fill; 32] },
        heap_bottom: 0x1000 * fill,
    }
}

fn manager() -> TaskManager {
    let mut m = TaskManager::new(vec![image(100, 7)]);
    run_first_task(&mut m, 0);
    m
}

fn mapped(m: &TaskManager, id: usize, vpn: usize) -> bool {
    m.task(id).memory_set.virtual_page_mapped(VirtPageNum(vpn))
}

#[test]
fn getpid_is_the_pid_of_the_current_task() {
    let mut m = manager();
    assert_eq!(sys_getpid(&m), 0);
    sys_fork(&mut m, 42, 101);
    sys_yield(&mut m, 1);
    assert_eq!(sys_getpid(&m), 42);
}

#[test]
fn yield_returns_zero() {
    let mut m = manager();
    assert_eq!(sys_yield(&mut m, 1), (Switch { from: 0, to: 0 }, 0));
    sys_fork(&mut m, 1, 101);
    assert_eq!(sys_yield(&mut m, 2), (Switch { from: 0, to: 1 }, 0));
}

#[test]
fn fork_returns_pid_to_parent_and_zero_to_child() {
    let mut m = manager();
    current_trap_cx(&mut m).x[3] = 33;
    assert_eq!(sys_fork(&mut m, 5, 101), 5);
    assert_eq!(m.num_app(), 2);
    assert_eq!(m.current(), 0);
    let parent = m.task(0);
    assert_eq!(parent.children, vec![1]);
    assert_eq!(parent.trap_cx.x[10], 7);
    let child = m.task(1);
    assert_eq!(child.getpid(), 5);
    assert_eq!(child.task_status, TaskStatus::Ready);
    assert_eq!(child.trap_cx.x[10], 0);
    assert_eq!(child.trap_cx.x[3], 33);
    assert_eq!(child.trap_cx.x[11], 7);
    assert_eq!(child.get_user_token(), 101);
    assert!(child.children.is_empty());
    assert_eq!(child.heap_bottom, 0x7000);
}

#[test]
fn forked_memory_is_separate() {
    let mut m = manager();
    assert_eq!(sys_mmap(&mut m, 0x20000, 0x1000, 3), 0);
    sys_fork(&mut m, 1, 101);
    assert!(mapped(&m, 1, 7));
    assert!(mapped(&m, 1, 0x20));
    assert_eq!(sys_munmap(&mut m, 0x20000, 0x1000), 0);
    assert!(!mapped(&m, 0, 0x20));
    assert!(mapped(&m, 1, 0x20));
    sys_yield(&mut m, 1);
    assert_eq!(sys_mmap(&mut m, 0x30000, 0x1000, 3), 0);
    assert!(mapped(&m, 1, 0x30));
    assert!(!mapped(&m, 0, 0x30));
}

#[test]
fn exec_replaces_the_program_and_keeps_the_process() {
    let mut m = manager();
    sys_fork(&mut m, 9, 101);
    assert_eq!(sys_set_priority(&mut m, 5), 5);
    assert_eq!(sys_exec(&mut m, Some(image(200, 8))), 0);
    let task = m.current_task();
    assert_eq!(task.getpid(), 0);
    assert_eq!(task.children, vec![1]);
    assert_eq!(task.priority, 5);
    assert_eq!(task.task_status, TaskStatus::Running);
    assert_eq!(task.get_user_token(), 200);
    assert_eq!(task.trap_cx.x, [8; 32]);
    assert_eq!(task.program_brk, 0x8000);
    assert!(mapped(&m, 0, 8));
    assert!(!mapped(&m, 0, 7));
}

#[test]
fn exec_without_a_file_fails() {
    let mut m = manager();
    assert_eq!(sys_exec(&mut m, None), -1);
    assert_eq!(m.current_task().get_user_token(), 100);
}

#[test]
fn app_file_is_looked_up_in_the_current_memory() {
    let m = manager();
    let request = app_file(&m, 0x1234);
    assert_eq!(request.token, 100);
    assert_eq!(request.path, 0x1234);
}

#[test]
fn spawn_starts_a_child_from_its_file() {
    let mut m = manager();
    assert_eq!(sys_set_priority(&mut m, 5), 5);
    assert_eq!(sys_spawn(&mut m, Some(image(300, 9)), 6), 6);
    assert_eq!(m.task(0).children, vec![1]);
    let child = m.task(1);
    assert_eq!(child.getpid(), 6);
    assert_eq!(child.task_status, TaskStatus::Ready);
    assert_eq!(child.get_user_token(), 300);
    assert_eq!(child.priority, 16);
    assert_eq!(child.trap_cx.x[10], 0);
    assert_eq!(child.trap_cx.x[9], 9);
    assert!(mapped(&m, 1, 9));
    assert!(!mapped(&m, 1, 7));
}

#[test]
fn spawn_without_a_file_fails() {
    let mut m = manager();
    assert_eq!(sys_spawn(&mut m, None, 6), -1);
    assert_eq!(m.num_app(), 1);
    assert!(m.task(0).children.is_empty());
}

#[test]
fn wait_without_a_child_is_refused() {
    let mut m = manager();
    let (r, write) = sys_waitpid(&mut m, -1, 0x50);
    assert_eq!(r, -1);
    assert!(write.is_none());
    sys_fork(&mut m, 3, 101);
    assert_eq!(sys_waitpid(&mut m, 4, 0x50).0, -1);
    assert_eq!(sys_waitpid(&mut m, -2, 0x50).0, -1);
    assert_eq!(m.task(0).children, vec![1]);
}

#[test]
fn wait_for_a_running_child_is_put_off() {
    let mut m = manager();
    sys_fork(&mut m, 3, 101);
    let (r, write) = sys_waitpid(&mut m, 3, 0x50);
    assert_eq!(r, -2);
    assert!(write.is_none());
    assert_eq!(sys_waitpid(&mut m, -1, 0x50).0, -2);
    assert_eq!(m.task(0).children, vec![1]);
}

#[test]
fn wait_hands_over_the_exit_code_once() {
    let mut m = manager();
    sys_fork(&mut m, 3, 101);
    sys_yield(&mut m, 1);
    assert_eq!(sys_exit(&mut m, -77, 2), Some(Switch { from: 1, to: 0 }));
    assert_eq!(m.task(1).exit_code, -77);
    assert!(mapped(&m, 1, 7));
    let (r, write) = sys_waitpid(&mut m, 3, 0x50);
    assert_eq!(r, 3);
    let reaped = write.unwrap();
    assert_eq!(reaped.id, 1);
    assert_eq!(reaped.child.getpid(), 3);
    assert_eq!(reaped.child.get_user_token(), 101);
    assert_eq!(reaped.child.exit_code, -77);
    assert!(reaped.child.is_zombie());
    let write = reaped.write;
    assert_eq!(write.token, 100);
    assert_eq!(write.va, 0x50);
    assert_eq!(write.content, -77);
    assert!(m.task(0).children.is_empty());
    assert_eq!(m.task(1).task_status, TaskStatus::UnInit);
    assert!(!mapped(&m, 1, 7));
    assert!(mapped(&m, 0, 7));
    assert_eq!(sys_waitpid(&mut m, 3, 0x50).0, -1);
}

#[test]
fn place_of_a_child_waited_for_is_used_again() {
    let mut m = manager();
    for pid in 1..50 {
        assert_eq!(sys_fork(&mut m, pid, 100 + pid), pid as isize);
        assert_eq!(m.num_app(), 2);
        assert_eq!(m.task(0).children, vec![1]);
        assert_eq!(m.task(1).getpid(), pid);
        assert_eq!(m.task(1).get_user_token(), 100 + pid);
        assert_eq!(sys_yield(&mut m, pid).0, Switch { from: 0, to: 1 });
        increase_syscall_counter(&mut m, 4);
        let info = m.get_task_info();
        assert_eq!(info.first_scheduled_time, Some(pid));
        assert_eq!(info.syscall_counter[4], 1);
        sys_exit(&mut m, 0, pid);
        assert_eq!(sys_waitpid(&mut m, -1, 0).0, pid as isize);
    }
    assert_eq!(m.num_app(), 2);
}

#[test]
fn new_task_gets_the_first_free_place() {
    let mut m = manager();
    sys_fork(&mut m, 11, 101);
    sys_fork(&mut m, 12, 102);
    sys_fork(&mut m, 13, 103);
    for _ in 0..3 {
        sys_yield(&mut m, 1);
        sys_exit(&mut m, 0, 1);
        while sys_getpid(&m) != 0 {
            sys_yield(&mut m, 1);
        }
    }
    assert_eq!(sys_waitpid(&mut m, 13, 0).0, 13);
    assert_eq!(sys_waitpid(&mut m, 11, 0).0, 11);
    assert_eq!(m.task(0).children, vec![2]);
    sys_spawn(&mut m, Some(image(300, 9)), 14);
    assert_eq!(m.task(0).children, vec![2, 1]);
    sys_fork(&mut m, 15, 105);
    assert_eq!(m.task(0).children, vec![2, 1, 3]);
    assert_eq!(m.num_app(), 4);
    sys_fork(&mut m, 16, 106);
    assert_eq!(m.task(0).children, vec![2, 1, 3, 4]);
    assert_eq!(m.num_app(), 5);
    assert_eq!(m.task(2).getpid(), 12);
    assert_eq!(m.task(1).getpid(), 14);
}

#[test]
fn free_place_is_never_run() {
    let mut m = manager();
    sys_fork(&mut m, 1, 101);
    sys_fork(&mut m, 2, 102);
    sys_yield(&mut m, 1);
    sys_exit(&mut m, 0, 2);
    sys_yield(&mut m, 3);
    assert_eq!(sys_waitpid(&mut m, 1, 0).0, 1);
    assert_eq!(sys_yield(&mut m, 4).0, Switch { from: 0, to: 2 });
    assert_eq!(sys_yield(&mut m, 5).0, Switch { from: 2, to: 0 });
}

#[test]
fn wait_for_any_takes_the_oldest_ended_child() {
    let mut m = manager();
    sys_fork(&mut m, 11, 101);
    sys_fork(&mut m, 12, 102);
    sys_fork(&mut m, 13, 103);
    sys_yield(&mut m, 1);
    sys_yield(&mut m, 2);
    assert_eq!(sys_getpid(&m), 12);
    sys_exit(&mut m, 2, 3);
    assert_eq!(sys_getpid(&m), 13);
    sys_exit(&mut m, 3, 4);
    assert_eq!(sys_getpid(&m), 0);
    assert_eq!(sys_waitpid(&mut m, 11, 0).0, -2);
    let (r, write) = sys_waitpid(&mut m, -1, 0);
    assert_eq!(r, 12);
    assert_eq!(write.unwrap().write.content, 2);
    assert_eq!(m.task(0).children, vec![1, 3]);
    let (r, write) = sys_waitpid(&mut m, 13, 0);
    assert_eq!(r, 13);
    assert_eq!(write.unwrap().write.content, 3);
    assert_eq!(sys_waitpid(&mut m, -1, 0).0, -2);
}

#[test]
fn child_waited_for_as_any_is_not_found_by_its_pid() {
    let mut m = manager();
    sys_fork(&mut m, 21, 101);
    sys_fork(&mut m, 22, 102);
    sys_yield(&mut m, 1);
    sys_exit(&mut m, 4, 2);
    sys_yield(&mut m, 3);
    assert_eq!(sys_getpid(&m), 0);
    assert_eq!(sys_waitpid(&mut m, -1, 0).0, 21);
    assert_eq!(sys_waitpid(&mut m, 21, 0).0, -1);
    assert_eq!(sys_waitpid(&mut m, 22, 0).0, -2);
}

#[test]
fn exit_code_is_kept_until_the_parent_waits() {
    let mut m = manager();
    sys_fork(&mut m, 31, 101);
    sys_fork(&mut m, 32, 102);
    sys_yield(&mut m, 1);
    sys_exit(&mut m, 9, 2);
    assert_eq!(sys_getpid(&m), 32);
    sys_fork(&mut m, 33, 103);
    sys_yield(&mut m, 3);
    assert_eq!(sys_getpid(&m), 33);
    assert_eq!(sys_set_priority(&mut m, 7), 7);
    sys_yield(&mut m, 4);
    assert_eq!(sys_getpid(&m), 0);
    let (r, reaped) = sys_waitpid(&mut m, 31, 0);
    assert_eq!(r, 31);
    assert_eq!(reaped.unwrap().write.content, 9);
}

#[test]
fn last_exit_leaves_nothing_to_run() {
    let mut m = manager();
    assert_eq!(sys_exit(&mut m, 1, 5), None);
    assert_eq!(m.task(0).exit_code, 1);
    assert!(m.task(0).is_zombie());
}

#[test]
fn time_is_split_into_seconds_and_microseconds() {
    let m = manager();
    let (r, write) = sys_get_time(&m, 0x88, 0, 3_000_017);
    assert_eq!(r, 0);
    assert_eq!(write.token, 100);
    assert_eq!(write.va, 0x88);
    assert_eq!(write.content.sec, 3);
    assert_eq!(write.content.usec, 17);
    let (_, write) = sys_get_time(&m, 0x88, 1, 999_999);
    assert_eq!(write.content.sec, 0);
    assert_eq!(write.content.usec, 999_999);
}

#[test]
fn task_info_tells_time_and_calls() {
    let mut m = TaskManager::new(vec![image(100, 7)]);
    run_first_task(&mut m, 1000);
    increase_syscall_counter(&mut m, 410);
    let (r, write) = sys_task_info(&m, 0x99, 1500);
    assert_eq!(r, 0);
    assert_eq!(write.token, 100);
    assert_eq!(write.va, 0x99);
    assert_eq!(write.content.status, TaskStatus::Running);
    assert_eq!(write.content.time, 500);
    assert_eq!(write.content.syscall_times[410], 1);
    assert_eq!(write.content.syscall_times[411], 0);
}

#[test]
fn priority_is_set_from_two_on() {
    let mut m = manager();
    assert_eq!(sys_set_priority(&mut m, 2), 2);
    assert_eq!(m.current_task().priority, 2);
    assert_eq!(sys_set_priority(&mut m, 1), -1);
    assert_eq!(sys_set_priority(&mut m, 0), -1);
    assert_eq!(sys_set_priority(&mut m, -10), -1);
    assert_eq!(m.current_task().priority, 2);
}

#[test]
fn priority_keeps_its_low_byte() {
    let mut m = manager();
    assert_eq!(sys_set_priority(&mut m, 300), 300);
    assert_eq!(m.current_task().priority, 44);
    assert_eq!(sys_set_priority(&mut m, isize::MAX), isize::MAX);
    assert_eq!(m.current_task().priority, 255);
}
