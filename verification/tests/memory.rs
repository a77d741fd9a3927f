use kernel::mm::{MapPermission, MemorySet, VPNRange, VirtAddr, VirtPageNum};
use kernel::syscall::process::{sys_mmap, sys_munmap, sys_sbrk};
use kernel::task::{
    change_program_brk, insert_to_memset, remove_from_memset, run_first_task, AppImage,
    TaskManager, TrapContext,
};

const PAGE: usize = 4096;

fn manager() -> TaskManager {
    let mut m = TaskManager::new(vec![AppImage {
        memory_set: MemorySet::new_bare(1),
        trap_cx: TrapContext { x: [0; 32] },
        heap_bottom: 0x10000,
    }]);
    run_first_task(&mut m, 0);
    m
}

fn perm(m: &TaskManager, vpn: usize) -> Option<MapPermission> {
    m.current_task().memory_set.permission(VirtPageNum(vpn))
}

fn user(read: bool, write: bool, execute: bool) -> Option<MapPermission> {
    Some(MapPermission { read, write, execute, user: true })
}

#[test]
fn addresses_round_to_pages() {
    assert!(VirtAddr::from(0).aligned());
    assert!(VirtAddr::from(2 * PAGE).aligned());
    assert!(!VirtAddr::from(2 * PAGE + 1).aligned());
    assert_eq!(VirtAddr::from(2 * PAGE + 1).floor(), VirtPageNum(2));
    assert_eq!(VirtAddr::from(2 * PAGE + 1).ceil(), VirtPageNum(3));
    assert_eq!(VirtAddr::from(2 * PAGE).ceil(), VirtPageNum(2));
    assert_eq!(VirtAddr::from(0).ceil(), VirtPageNum(0));
    assert_eq!(VirtAddr::from(usize::MAX).ceil(), VirtPageNum(usize::MAX / PAGE + 1));
}

#[test]
fn mmap_maps_with_the_flags() {
    let mut m = manager();
    assert_eq!(sys_mmap(&mut m, PAGE, PAGE, 1), 0);
    assert_eq!(sys_mmap(&mut m, 2 * PAGE, PAGE, 2), 0);
    assert_eq!(sys_mmap(&mut m, 3 * PAGE, PAGE, 4), 0);
    assert_eq!(sys_mmap(&mut m, 4 * PAGE, PAGE, 7), 0);
    assert_eq!(perm(&m, 0), None);
    assert_eq!(perm(&m, 1), user(true, false, false));
    assert_eq!(perm(&m, 2), user(false, true, false));
    assert_eq!(perm(&m, 3), user(false, false, true));
    assert_eq!(perm(&m, 4), user(true, true, true));
    assert_eq!(perm(&m, 5), None);
}

#[test]
fn mmap_rounds_the_length_up() {
    let mut m = manager();
    assert_eq!(sys_mmap(&mut m, PAGE, PAGE + 1, 3), 0);
    assert_eq!(perm(&m, 1), user(true, true, false));
    assert_eq!(perm(&m, 2), user(true, true, false));
    assert_eq!(perm(&m, 3), None);
}

#[test]
fn mmap_of_nothing_succeeds() {
    let mut m = manager();
    assert_eq!(sys_mmap(&mut m, PAGE, 0, 3), 0);
    assert_eq!(perm(&m, 1), None);
}

#[test]
fn mmap_refuses_bad_flags() {
    let mut m = manager();
    assert_eq!(sys_mmap(&mut m, PAGE, PAGE, 0), -1);
    assert_eq!(sys_mmap(&mut m, PAGE, PAGE, 8), -1);
    assert_eq!(sys_mmap(&mut m, PAGE, PAGE, 9), -1);
    assert_eq!(sys_mmap(&mut m, PAGE, PAGE, 0x101), -1);
    assert_eq!(sys_mmap(&mut m, usize::MAX, usize::MAX, 8), -1);
    assert_eq!(perm(&m, 1), None);
}

#[test]
fn mmap_refuses_an_unaligned_start() {
    let mut m = manager();
    assert_eq!(sys_mmap(&mut m, PAGE + 1, PAGE, 3), -1);
    assert_eq!(perm(&m, 1), None);
    assert_eq!(perm(&m, 2), None);
}

#[test]
fn mmap_refuses_a_mapped_page_and_changes_nothing() {
    let mut m = manager();
    assert_eq!(sys_mmap(&mut m, 2 * PAGE, PAGE, 1), 0);
    assert_eq!(sys_mmap(&mut m, PAGE, 3 * PAGE, 2), -1);
    assert_eq!(perm(&m, 1), None);
    assert_eq!(perm(&m, 2), user(true, false, false));
    assert_eq!(perm(&m, 3), None);
}

#[test]
fn munmap_undoes_mmap() {
    let mut m = manager();
    assert_eq!(sys_mmap(&mut m, 2 * PAGE, 2 * PAGE, 3), 0);
    assert_eq!(sys_munmap(&mut m, 2 * PAGE, 2 * PAGE), 0);
    assert_eq!(perm(&m, 2), None);
    assert_eq!(perm(&m, 3), None);
    assert_eq!(sys_munmap(&mut m, 2 * PAGE, 2 * PAGE), -1);
    assert_eq!(sys_mmap(&mut m, 2 * PAGE, 2 * PAGE, 1), 0);
}

#[test]
fn munmap_can_take_a_part() {
    let mut m = manager();
    assert_eq!(sys_mmap(&mut m, PAGE, 3 * PAGE, 3), 0);
    assert_eq!(sys_munmap(&mut m, 2 * PAGE, 1), 0);
    assert_eq!(perm(&m, 1), user(true, true, false));
    assert_eq!(perm(&m, 2), None);
    assert_eq!(perm(&m, 3), user(true, true, false));
}

#[test]
fn munmap_refuses_an_unmapped_page_and_changes_nothing() {
    let mut m = manager();
    assert_eq!(sys_mmap(&mut m, PAGE, PAGE, 3), 0);
    assert_eq!(sys_munmap(&mut m, PAGE, 2 * PAGE), -1);
    assert_eq!(perm(&m, 1), user(true, true, false));
}

#[test]
fn munmap_refuses_an_unaligned_start() {
    let mut m = manager();
    assert_eq!(sys_mmap(&mut m, PAGE, PAGE, 3), 0);
    assert_eq!(sys_munmap(&mut m, PAGE + 8, 8), -1);
    assert_eq!(perm(&m, 1), user(true, true, false));
    assert_eq!(sys_munmap(&mut m, PAGE, 0), 0);
    assert_eq!(perm(&m, 1), user(true, true, false));
}

#[test]
fn areas_can_start_inside_a_page() {
    let mut m = manager();
    insert_to_memset(&mut m, VirtAddr::from(PAGE + 5), VirtAddr::from(2 * PAGE + 5), 0);
    assert_eq!(perm(&m, 1), user(false, false, false));
    assert_eq!(perm(&m, 2), user(false, false, false));
    assert_eq!(perm(&m, 3), None);
    remove_from_memset(&mut m, VirtAddr::from(PAGE + 5), VirtAddr::from(2 * PAGE));
    assert_eq!(perm(&m, 1), None);
    assert_eq!(perm(&m, 2), user(false, false, false));
}

#[test]
fn copied_space_is_separate() {
    let mut first = MemorySet::new_bare(3);
    first.map_pages(VPNRange::new(VirtPageNum(1), VirtPageNum(3)), MapPermission::heap());
    let mut second = MemorySet::from_existed_user(&first, 4);
    assert_eq!(first.token(), 3);
    assert_eq!(second.token(), 4);
    second.unmap_pages(VPNRange::new(VirtPageNum(1), VirtPageNum(2)));
    assert!(first.virtual_page_mapped(VirtPageNum(1)));
    assert!(!second.virtual_page_mapped(VirtPageNum(1)));
    assert!(second.virtual_page_mapped(VirtPageNum(2)));
}

#[test]
fn sbrk_moves_the_break() {
    let mut m = manager();
    assert_eq!(sys_sbrk(&mut m, 0), 0x10000);
    assert_eq!(sys_sbrk(&mut m, 1), 0x10000);
    assert_eq!(perm(&m, 16), user(true, true, false));
    assert_eq!(perm(&m, 17), None);
    assert_eq!(sys_sbrk(&mut m, 4096), 0x10001);
    assert_eq!(perm(&m, 17), user(true, true, false));
    assert_eq!(sys_sbrk(&mut m, -4097), 0x11001);
    assert_eq!(perm(&m, 16), None);
    assert_eq!(perm(&m, 17), None);
    assert_eq!(sys_sbrk(&mut m, 0), 0x10000);
}

#[test]
fn sbrk_refuses_a_break_below_the_lowest() {
    let mut m = manager();
    assert_eq!(sys_sbrk(&mut m, 16), 0x10000);
    assert_eq!(sys_sbrk(&mut m, -17), -1);
    assert_eq!(change_program_brk(&mut m, -17), None);
    assert_eq!(change_program_brk(&mut m, -16), Some(0x10010));
}

#[test]
fn sbrk_refuses_to_grow_into_mapped_memory() {
    let mut m = manager();
    assert_eq!(sys_mmap(&mut m, 0x11000, PAGE, 1), 0);
    assert_eq!(sys_sbrk(&mut m, 0x1001), -1);
    assert_eq!(perm(&m, 16), None);
    assert_eq!(perm(&m, 17), user(true, false, false));
    assert_eq!(sys_sbrk(&mut m, 0x1000), 0x10000);
}
