//! What a task can rely on when it asks for memory, in terms of bytes and pages.

use vstd::prelude::*;

use crate::config::PAGE_SIZE;
use crate::mm::{MapPermission, MemorySet, VPNRange, VirtAddr, VirtPageNum};
use crate::syscall::process::{sys_mmap, sys_munmap, sys_sbrk};
use crate::task::{
    change_program_brk, insert_to_memset, remove_from_memset, ManagerView, TaskManager, TaskView,
};

verus! {

/// The current task's pages.
pub open spec fn own_pages(tasks: ManagerView) -> Map<usize, MapPermission> {
    tasks.tasks[tasks.current].space.pages
}

/// Whether the page `vpn` ends after `start` and starts before `end`.
pub open spec fn spans(vpn: usize, start: int, end: int) -> bool {
    start < (vpn + 1) * PAGE_SIZE && vpn * PAGE_SIZE < end
}

/// Whether the page `vpn` holds one of the bytes from `start` up to `end`.
pub open spec fn holds_byte(vpn: usize, start: int, end: int) -> bool {
    start < end && spans(vpn, start, end)
}

/// Whether the first byte of the page `vpn` is one of those from `low` up to `high`.
pub open spec fn starts_within(vpn: usize, low: int, high: int) -> bool {
    low <= vpn * PAGE_SIZE < high
}

/// Whether the page `vpn` is the same in both: mapped with the same permission, or not
/// mapped.
pub open spec fn same_page(
    a: Map<usize, MapPermission>,
    b: Map<usize, MapPermission>,
    vpn: usize,
) -> bool {
    (a.contains_key(vpn) <==> b.contains_key(vpn)) && (a.contains_key(vpn) ==> a[vpn] == b[vpn])
}

/// Whether `post` is `pre` but for the current task's pages.
pub open spec fn only_pages_differ(pre: ManagerView, post: ManagerView) -> bool {
    &&& post.current == pre.current
    &&& post.infos == pre.infos
    &&& post.tasks.len() == pre.tasks.len()
    &&& forall|id: int|
        pre.valid(id) && id != pre.current ==> #[trigger] post.tasks[id] == pre.tasks[id]
    &&& post.tasks[pre.current].space.token == pre.tasks[pre.current].space.token
    &&& post.tasks[pre.current] == (TaskView {
        space: post.tasks[pre.current].space,
        ..pre.tasks[pre.current]
    })
}

/// The pages that an area takes up are those between its start and its end. If it starts
/// on a page boundary, or has a byte, they are those that hold its bytes.
proof fn lemma_touched(start: int, end: int, vpn: usize)
    requires
        0 <= start <= usize::MAX,
        0 <= end <= usize::MAX,
    ensures
        VPNRange::touched(start, end).has_page(vpn) <==> spans(vpn, start, end),
        start < end || (start == end && start % PAGE_SIZE as int == 0) ==> (spans(vpn, start, end)
            <==> holds_byte(vpn, start, end)),
{
}

/// The pages that a moving break crosses are those that start on its way.
proof fn lemma_brk_pages(low: int, high: int, vpn: usize)
    requires
        0 <= low <= high <= usize::MAX,
    ensures
        TaskView::brk_pages(low, high).has_page(vpn) <==> starts_within(vpn, low, high),
{
}

/// `mmap` is granted exactly if it asks for some of reading, writing and executing and
/// for nothing else, from a page boundary on, and if none of the bytes lies in a page
/// that is mapped. Otherwise it returns -1, and nothing changes.
pub proof fn law_mmap_is_granted(
    m: &mut TaskManager,
    start: usize,
    len: usize,
    port: usize,
    r: isize,
)
    requires
        old(m).live(),
        0 < port < 8 ==> start + len <= usize::MAX,
        call_ensures(sys_mmap, (m, start, len, port), r),
    ensures
        r == 0 || r == -1,
        r == 0 <==> {
            &&& 0 < port < 8
            &&& start % PAGE_SIZE == 0
            &&& forall|vpn: usize|
                holds_byte(vpn, start as int, start + len)
                    ==> !#[trigger] own_pages(old(m)@).contains_key(vpn)
        },
        r == -1 ==> final(m)@ == old(m)@,
{
    let range = VPNRange::touched(start as int, start + len);
    if 0 < port < 8 && start % PAGE_SIZE == 0 {
        assert forall|vpn: usize|
            range.has_page(vpn) <==> holds_byte(vpn, start as int, start + len) by {
            lemma_touched(start as int, start + len, vpn);
        }
        let space = m@.cur().space;
        assert forall|vpn: usize|
            #[trigger] space.mapped(vpn) <==> own_pages(m@).contains_key(vpn) by {}
        if space.none_mapped(range) {
            assert forall|vpn: usize|
                holds_byte(vpn, start as int, start + len) implies !#[trigger] own_pages(
                m@,
            ).contains_key(vpn) by {
                assert(!space.mapped(vpn));
            }
        }
    }
}

/// After a successful `mmap` each page that holds a byte that was asked for is mapped
/// for the user: for reading exactly if `port` is odd, for writing exactly if it is 2, 3,
/// 6 or 7, and for executing exactly if it is 4 or more. Every other page is as before,
/// and so is everything else.
pub proof fn law_mmap_gives_the_permission_asked_for(
    m: &mut TaskManager,
    start: usize,
    len: usize,
    port: usize,
    r: isize,
    vpn: usize,
)
    requires
        old(m).live(),
        start + len <= usize::MAX,
        call_ensures(sys_mmap, (m, start, len, port), r),
        r == 0,
    ensures
        only_pages_differ(old(m)@, final(m)@),
        holds_byte(vpn, start as int, start + len) ==> {
            let perm = own_pages(final(m)@)[vpn];
            &&& own_pages(final(m)@).contains_key(vpn)
            &&& perm.user
            &&& perm.read <==> port % 2 == 1
            &&& perm.write <==> port == 2 || port == 3 || port == 6 || port == 7
            &&& perm.execute <==> port >= 4
        },
        !holds_byte(vpn, start as int, start + len) ==> same_page(
            own_pages(old(m)@),
            own_pages(final(m)@),
            vpn,
        ),
{
    law_mmap_is_granted(m, start, len, port, r);
    lemma_touched(start as int, start + len, vpn);
    lemma_bits(port as u8);
}

/// The lowest three bits of a number.
proof fn lemma_bits(flags: u8)
    ensures
        flags & 0x1 != 0 <==> flags % 2 == 1,
        flags & 0x2 != 0 <==> flags % 4 >= 2,
        flags & 0x4 != 0 <==> flags % 8 >= 4,
{
    assert(flags & 0x1 != 0 <==> flags % 2 == 1) by (bit_vector);
    assert(flags & 0x2 != 0 <==> flags % 4 >= 2) by (bit_vector);
    assert(flags & 0x4 != 0 <==> flags % 8 >= 4) by (bit_vector);
}

/// `munmap` is granted exactly from a page boundary on and if every page that holds one
/// of the bytes is mapped, with whatever permission and by however many calls. Otherwise
/// it returns -1, and nothing changes.
pub proof fn law_munmap_is_granted(m: &mut TaskManager, start: usize, len: usize, r: isize)
    requires
        old(m).live(),
        start + len <= usize::MAX,
        call_ensures(sys_munmap, (m, start, len), r),
    ensures
        r == 0 || r == -1,
        r == 0 <==> {
            &&& start % PAGE_SIZE == 0
            &&& forall|vpn: usize|
                holds_byte(vpn, start as int, start + len)
                    ==> #[trigger] own_pages(old(m)@).contains_key(vpn)
        },
        r == -1 ==> final(m)@ == old(m)@,
{
    let range = VPNRange::touched(start as int, start + len);
    if start % PAGE_SIZE == 0 {
        assert forall|vpn: usize|
            range.has_page(vpn) <==> holds_byte(vpn, start as int, start + len) by {
            lemma_touched(start as int, start + len, vpn);
        }
        let space = m@.cur().space;
        assert forall|vpn: usize|
            #[trigger] space.mapped(vpn) <==> own_pages(m@).contains_key(vpn) by {}
        if space.all_mapped(range) {
            assert forall|vpn: usize|
                holds_byte(vpn, start as int, start + len) implies #[trigger] own_pages(
                m@,
            ).contains_key(vpn) by {
                assert(space.mapped(vpn));
            }
        }
    }
}

/// After a successful `munmap` no page that holds one of the bytes is mapped. Every other
/// page is as before, and so is everything else.
pub proof fn law_munmap_takes_the_pages(
    m: &mut TaskManager,
    start: usize,
    len: usize,
    r: isize,
    vpn: usize,
)
    requires
        old(m).live(),
        start + len <= usize::MAX,
        call_ensures(sys_munmap, (m, start, len), r),
        r == 0,
    ensures
        only_pages_differ(old(m)@, final(m)@),
        holds_byte(vpn, start as int, start + len) ==> !own_pages(final(m)@).contains_key(vpn),
        !holds_byte(vpn, start as int, start + len) ==> same_page(
            own_pages(old(m)@),
            own_pages(final(m)@),
            vpn,
        ),
{
    law_munmap_is_granted(m, start, len, r);
    lemma_touched(start as int, start + len, vpn);
}

/// Whether `munmap` is granted does not depend on what the pages may be used for: with
/// the same pages mapped the answer is the same.
pub proof fn law_munmap_ignores_permissions(
    m1: &mut TaskManager,
    m2: &mut TaskManager,
    start: usize,
    len: usize,
    r1: isize,
    r2: isize,
)
    requires
        old(m1).live(),
        old(m2).live(),
        start + len <= usize::MAX,
        own_pages(old(m1)@).dom() == own_pages(old(m2)@).dom(),
        call_ensures(sys_munmap, (m1, start, len), r1),
        call_ensures(sys_munmap, (m2, start, len), r2),
    ensures
        r1 == r2,
{
    law_munmap_is_granted(m1, start, len, r1);
    law_munmap_is_granted(m2, start, len, r2);
    assert forall|vpn: usize|
        #[trigger] own_pages(m1@).contains_key(vpn) <==> own_pages(m2@).contains_key(vpn) by {
        assert(own_pages(m1@).dom().contains(vpn) == own_pages(m2@).dom().contains(vpn));
    }
}

/// What two calls of `mmap` have mapped side by side, with whatever permissions, one call
/// of `munmap` unmaps: it is granted, and everything is as before the two.
pub proof fn law_one_munmap_undoes_two_mmaps(
    m1: &mut TaskManager,
    m2: &mut TaskManager,
    m3: &mut TaskManager,
    start: usize,
    len1: usize,
    len2: usize,
    port1: usize,
    port2: usize,
    r: isize,
)
    requires
        old(m1).live(),
        start + len1 + len2 <= usize::MAX,
        call_ensures(sys_mmap, (m1, start, len1, port1), 0),
        old(m2)@ == final(m1)@,
        call_ensures(sys_mmap, (m2, (start + len1) as usize, len2, port2), 0),
        old(m3)@ == final(m2)@,
        call_ensures(sys_munmap, (m3, start, (len1 + len2) as usize), r),
        old(m2).live(),
        old(m3).live(),
    ensures
        r == 0,
        final(m3)@ == old(m1)@,
{
    let start2 = (start + len1) as usize;
    let len = (len1 + len2) as usize;
    law_mmap_is_granted(m1, start, len1, port1, 0);
    law_mmap_is_granted(m2, start2, len2, port2, 0);
    law_munmap_is_granted(m3, start, len, r);
    assert forall|vpn: usize|
        holds_byte(vpn, start as int, start + len) implies #[trigger] own_pages(
        m3@,
    ).contains_key(vpn) by {
        law_mmap_gives_the_permission_asked_for(m1, start, len1, port1, 0, vpn);
        law_mmap_gives_the_permission_asked_for(m2, start2, len2, port2, 0, vpn);
    }
    let before = own_pages(m1@);
    let after = own_pages(final(m3)@);
    assert forall|vpn: usize| #[trigger] same_page(before, after, vpn) by {
        law_mmap_gives_the_permission_asked_for(m1, start, len1, port1, 0, vpn);
        law_mmap_gives_the_permission_asked_for(m2, start2, len2, port2, 0, vpn);
        law_munmap_takes_the_pages(m3, start, len, r, vpn);
        if holds_byte(vpn, start as int, start + len1) {
            assert(!before.contains_key(vpn));
        }
        if holds_byte(vpn, start2 as int, start2 + len2) {
            assert(!own_pages(m2@).contains_key(vpn));
        }
    }
    law_mmap_gives_the_permission_asked_for(m1, start, len1, port1, 0, 0);
    law_mmap_gives_the_permission_asked_for(m2, start2, len2, port2, 0, 0);
    law_munmap_takes_the_pages(m3, start, len, r, 0);
    lemma_same_pages(before, after);
    assert(final(m3)@.tasks =~= m1@.tasks);
}

/// An area that is inserted into the current task's memory is mapped as `flags` says: bit
/// 0 for reading, bit 1 for writing and bit 2 for executing, whatever the other bits are.
/// It takes up every page between its start and its end. All others are as before, and so
/// is everything else.
pub proof fn law_inserted_area_has_its_permission(
    m: &mut TaskManager,
    va_start: VirtAddr,
    va_end: VirtAddr,
    flags: u8,
    vpn: usize,
)
    requires
        old(m).live(),
        call_ensures(insert_to_memset, (m, va_start, va_end, flags), ()),
    ensures
        only_pages_differ(old(m)@, final(m)@),
        spans(vpn, va_start.0 as int, va_end.0 as int) ==> {
            let perm = own_pages(final(m)@)[vpn];
            &&& own_pages(final(m)@).contains_key(vpn)
            &&& perm.user
            &&& perm.read <==> flags % 2 == 1
            &&& perm.write <==> flags % 4 >= 2
            &&& perm.execute <==> flags % 8 >= 4
        },
        !spans(vpn, va_start.0 as int, va_end.0 as int) ==> same_page(
            own_pages(old(m)@),
            own_pages(final(m)@),
            vpn,
        ),
{
    lemma_touched(va_start.0 as int, va_end.0 as int, vpn);
    lemma_bits(flags);
}

/// No page between the start and the end of an area that is removed from the current task's
/// memory is mapped any more. All others are as before, and so is everything else.
pub proof fn law_removed_area_is_unmapped(
    m: &mut TaskManager,
    va_start: VirtAddr,
    va_end: VirtAddr,
    vpn: usize,
)
    requires
        old(m).live(),
        call_ensures(remove_from_memset, (m, va_start, va_end), ()),
    ensures
        only_pages_differ(old(m)@, final(m)@),
        spans(vpn, va_start.0 as int, va_end.0 as int) ==> !own_pages(final(m)@).contains_key(
            vpn,
        ),
        !spans(vpn, va_start.0 as int, va_end.0 as int) ==> same_page(
            own_pages(old(m)@),
            own_pages(final(m)@),
            vpn,
        ),
{
    lemma_touched(va_start.0 as int, va_end.0 as int, vpn);
}

/// `sbrk` is granted exactly if the new break is an address and not below the lowest one,
/// and if no page that starts between the old break and a higher new one is mapped. It
/// returns the old break; otherwise it returns -1 and nothing changes.
pub proof fn law_sbrk_is_granted(m: &mut TaskManager, size: i32, r: isize)
    requires
        old(m).live(),
        call_ensures(sys_sbrk, (m, size), r),
    ensures
        ({
            let before = old(m)@.tasks[old(m)@.current];
            let after = final(m)@.tasks[old(m)@.current];
            let granted = {
                &&& before.heap_bottom <= before.program_brk + size <= usize::MAX
                &&& forall|vpn: usize|
                    starts_within(vpn, before.program_brk as int, before.program_brk + size)
                        ==> !#[trigger] before.space.pages.contains_key(vpn)
            };
            &&& granted ==> r == before.program_brk as isize && after.program_brk
                == before.program_brk + size
            &&& !granted ==> r == -1 && final(m)@ == old(m)@
        }),
{
    let before = m@.tasks[m@.current];
    let low = before.program_brk as int;
    let range = TaskView::brk_pages(low, low + size);
    assert forall|vpn: usize| 0 <= low + size <= usize::MAX implies (range.has_page(vpn)
        <==> starts_within(vpn, low, low + size)) by {
        if size >= 0 {
            lemma_brk_pages(low, low + size, vpn);
        }
    }
    assert forall|vpn: usize|
        #[trigger] before.space.mapped(vpn) <==> before.space.pages.contains_key(vpn) by {}
    if before.space.none_mapped(range) && 0 <= low + size <= usize::MAX {
        assert forall|vpn: usize|
            starts_within(vpn, low, low + size) implies !#[trigger] before.space.pages.contains_key(
            vpn,
        ) by {
            assert(!before.space.mapped(vpn));
        }
    }
}

/// A granted `sbrk` maps every page that starts between the old break and a higher new
/// one, for the user to read and write, and unmaps every page that starts between a lower
/// new break and the old one. Every other page is as before, and so is everything else but
/// the break.
pub proof fn law_sbrk_moves_the_pages_with_the_break(
    m: &mut TaskManager,
    size: i32,
    r: isize,
    vpn: usize,
)
    requires
        old(m).live(),
        call_ensures(sys_sbrk, (m, size), r),
        final(m)@ != old(m)@ || r != -1,
    ensures
        ({
            let before = old(m)@.tasks[old(m)@.current];
            let after = final(m)@.tasks[old(m)@.current];
            let low = before.program_brk as int;
            let new = before.program_brk + size;
            &&& starts_within(vpn, low, new) ==> {
                &&& after.space.pages.contains_key(vpn)
                &&& after.space.pages[vpn].user
                &&& after.space.pages[vpn].read
                &&& after.space.pages[vpn].write
                &&& !after.space.pages[vpn].execute
            }
            &&& starts_within(vpn, new, low) ==> !after.space.pages.contains_key(vpn)
            &&& !starts_within(vpn, low, new) && !starts_within(vpn, new, low) ==> same_page(
                before.space.pages,
                after.space.pages,
                vpn,
            )
            &&& after == (TaskView {
                program_brk: after.program_brk,
                space: after.space,
                ..before
            })
            &&& after.space.token == before.space.token
            &&& final(m)@.current == old(m)@.current
            &&& final(m)@.infos == old(m)@.infos
            &&& final(m)@.tasks.len() == old(m)@.tasks.len()
            &&& forall|id: int|
                old(m)@.valid(id) && id != old(m)@.current ==> #[trigger] final(m)@.tasks[id]
                    == old(m)@.tasks[id]
        }),
{
    let low = m@.tasks[m@.current].program_brk as int;
    if size >= 0 {
        lemma_brk_pages(low, low + size, vpn);
    } else {
        lemma_brk_pages(low + size, low, vpn);
    }
}

/// Whether the byte at `addr` is in a page that the user may read and write.
pub open spec fn usable(pages: Map<usize, MapPermission>, addr: int) -> bool {
    let vpn = (addr / PAGE_SIZE as int) as usize;
    pages.contains_key(vpn) && pages[vpn].user && pages[vpn].read && pages[vpn].write
}

/// After a granted `sbrk` every byte that the data segment has gained can be read and
/// written. If the old break is within a page, that page was the data segment's before.
pub proof fn law_gained_bytes_are_usable(m: &mut TaskManager, size: i32, r: isize, addr: int)
    requires
        old(m).live(),
        call_ensures(sys_sbrk, (m, size), r),
        final(m)@ != old(m)@ || r != -1,
        ({
            let before = old(m)@.tasks[old(m)@.current];
            &&& before.program_brk % PAGE_SIZE != 0 ==> usable(
                before.space.pages,
                before.program_brk as int,
            )
            &&& before.program_brk <= addr < before.program_brk + size
        }),
    ensures
        usable(own_pages(final(m)@), addr),
{
    let vpn = (addr / PAGE_SIZE as int) as usize;
    law_sbrk_moves_the_pages_with_the_break(m, size, r, vpn);
}

/// If the data segment starts at a page boundary and all of it can be read and written,
/// it stays so: after each `sbrk`, granted or not, every byte from the lowest break up to
/// the break can be read and written.
pub proof fn law_sbrk_keeps_the_segment_usable(m: &mut TaskManager, size: i32, r: isize)
    requires
        old(m).live(),
        call_ensures(sys_sbrk, (m, size), r),
        ({
            let before = old(m)@.tasks[old(m)@.current];
            &&& before.heap_bottom % PAGE_SIZE == 0
            &&& before.heap_bottom <= before.program_brk
            &&& forall|addr: int|
                before.heap_bottom <= addr < before.program_brk ==> #[trigger] usable(
                    before.space.pages,
                    addr,
                )
        }),
    ensures
        ({
            let after = final(m)@.tasks[final(m)@.current];
            forall|addr: int|
                after.heap_bottom <= addr < after.program_brk ==> #[trigger] usable(
                    after.space.pages,
                    addr,
                )
        }),
{
    let before = m@.tasks[m@.current];
    let after = final(m)@.tasks[final(m)@.current];
    law_sbrk_is_granted(m, size, r);
    if final(m)@ != m@ {
        assert forall|addr: int|
            after.heap_bottom <= addr < after.program_brk implies #[trigger] usable(
            after.space.pages,
            addr,
        ) by {
            let vpn = (addr / PAGE_SIZE as int) as usize;
            law_sbrk_moves_the_pages_with_the_break(m, size, r, vpn);
            if addr < before.program_brk {
                assert(usable(before.space.pages, addr));
            } else if vpn * PAGE_SIZE < before.program_brk {
                assert(usable(before.space.pages, vpn * PAGE_SIZE));
            }
        }
    }
}

/// The break that `sbrk` by 0 returns is where the last granted `sbrk` has moved it.
pub proof fn law_sbrk_tells_where_the_break_is(
    m1: &mut TaskManager,
    m2: &mut TaskManager,
    size: i32,
    r1: isize,
    r2: isize,
)
    requires
        old(m1).live(),
        old(m2).live(),
        old(m1)@.tasks[old(m1)@.current].program_brk + i32::MAX <= isize::MAX,
        call_ensures(sys_sbrk, (m1, size), r1),
        r1 >= 0,
        old(m2)@ == final(m1)@,
        call_ensures(sys_sbrk, (m2, 0), r2),
    ensures
        r2 == r1 + size,
        final(m2)@ == old(m2)@,
{
    law_sbrk_is_granted(m1, size, r1);
    law_sbrk_is_granted(m2, 0, r2);
    law_sbrk_moves_the_pages_with_the_break(m1, size, r1, 0);
    let before = m2@.tasks[m2@.current];
    let after = final(m2)@.tasks[m2@.current];
    if r2 != -1 {
        law_sbrk_moves_the_pages_with_the_break(m2, 0, r2, 0);
        assert forall|vpn: usize| #[trigger] same_page(
            before.space.pages,
            after.space.pages,
            vpn,
        ) by {
            law_sbrk_moves_the_pages_with_the_break(m2, 0, r2, vpn);
        }
        lemma_same_pages(before.space.pages, after.space.pages);
        assert(after.space =~= before.space);
        assert(final(m2)@.tasks =~= m2@.tasks);
    }
}

/// Two address spaces with the same pages are equal.
proof fn lemma_same_pages(a: Map<usize, MapPermission>, b: Map<usize, MapPermission>)
    requires
        forall|vpn: usize| #[trigger] same_page(a, b, vpn),
    ensures
        a == b,
{
    assert forall|vpn: usize| a.contains_key(vpn) <==> #[trigger] b.contains_key(vpn) by {
        assert(same_page(a, b, vpn));
    }
    assert forall|vpn: usize| a.contains_key(vpn) implies a[vpn] == #[trigger] b[vpn] by {
        assert(same_page(a, b, vpn));
    }
    assert(a =~= b);
}

/// Growing the data segment in two calls is the same as in one.
pub proof fn law_sbrk_adds_up(
    m1: &mut TaskManager,
    m2: &mut TaskManager,
    m: &mut TaskManager,
    size1: i32,
    size2: i32,
    r1: isize,
    r2: isize,
    r: isize,
)
    requires
        old(m1).live(),
        old(m2).live(),
        old(m).live(),
        0 <= size1,
        0 <= size2,
        size1 + size2 <= i32::MAX,
        old(m1)@.tasks[old(m1)@.current].program_brk + i32::MAX <= isize::MAX,
        old(m)@ == old(m1)@,
        old(m2)@ == final(m1)@,
        call_ensures(sys_sbrk, (m1, size1), r1),
        call_ensures(sys_sbrk, (m2, size2), r2),
        call_ensures(sys_sbrk, (m, (size1 + size2) as i32), r),
        r1 >= 0,
    ensures
        r2 >= 0 <==> r >= 0,
        r >= 0 ==> r == r1 && r2 == r1 + size1 && final(m)@ == final(m2)@,
{
    let size = (size1 + size2) as i32;
    let task1 = m1@.tasks[m1@.current];
    let task2 = m2@.tasks[m2@.current];
    let low = task1.program_brk as int;
    law_sbrk_is_granted(m1, size1, r1);
    law_sbrk_is_granted(m2, size2, r2);
    law_sbrk_is_granted(m, size, r);
    law_sbrk_moves_the_pages_with_the_break(m1, size1, r1, 0);
    let mid = task2.program_brk as int;
    assert forall|vpn: usize|
        starts_within(vpn, mid, mid + size2) implies (#[trigger] task2.space.pages.contains_key(vpn)
        <==> task1.space.pages.contains_key(vpn)) by {
        law_sbrk_moves_the_pages_with_the_break(m1, size1, r1, vpn);
    }
    if r2 >= 0 {
        assert forall|vpn: usize|
            starts_within(vpn, low, low + size) implies !#[trigger] task1.space.pages.contains_key(
            vpn,
        ) by {
            if starts_within(vpn, mid, mid + size2) {
                assert(!task2.space.pages.contains_key(vpn));
            } else {
                assert(starts_within(vpn, low, low + size1));
            }
        }
    }
    if r >= 0 {
        assert forall|vpn: usize|
            starts_within(vpn, mid, mid + size2) implies !#[trigger] task2.space.pages.contains_key(
            vpn,
        ) by {
            assert(starts_within(vpn, low, low + size));
            assert(!task1.space.pages.contains_key(vpn));
        }
    }
    if r >= 0 && r2 >= 0 {
        let a = own_pages(final(m)@);
        let b = own_pages(final(m2)@);
        law_sbrk_moves_the_pages_with_the_break(m2, size2, r2, 0);
        law_sbrk_moves_the_pages_with_the_break(m, size, r, 0);
        assert forall|vpn: usize| #[trigger] same_page(a, b, vpn) by {
            law_sbrk_moves_the_pages_with_the_break(m1, size1, r1, vpn);
            law_sbrk_moves_the_pages_with_the_break(m2, size2, r2, vpn);
            law_sbrk_moves_the_pages_with_the_break(m, size, r, vpn);
        }
        lemma_same_pages(a, b);
        assert(final(m)@.tasks =~= final(m2)@.tasks);
    }
}

/// The kernel's own change of the break does what `sbrk` does.
pub proof fn law_sbrk_is_the_change_of_the_break(
    m1: &mut TaskManager,
    m2: &mut TaskManager,
    size: i32,
    r1: isize,
    r2: Option<usize>,
)
    requires
        old(m1)@ == old(m2)@,
        call_ensures(sys_sbrk, (m1, size), r1),
        call_ensures(change_program_brk, (m2, size), r2),
    ensures
        final(m1)@ == final(m2)@,
        match r2 {
            Some(brk) => r1 == brk as isize,
            None => r1 == -1,
        },
{
}

/// An address space tells which pages are mapped, and how. A new one has no page.
pub proof fn law_space_tells_its_pages(
    space: &MemorySet,
    vpn: VirtPageNum,
    mapped: bool,
    perm: Option<MapPermission>,
    token: usize,
    bare: MemorySet,
)
    requires
        call_ensures(MemorySet::virtual_page_mapped, (space, vpn), mapped),
        call_ensures(MemorySet::permission, (space, vpn), perm),
        call_ensures(MemorySet::new_bare, (token,), bare),
    ensures
        mapped <==> space@.pages.contains_key(vpn.0),
        perm is Some <==> mapped,
        perm matches Some(p) ==> p == space@.pages[vpn.0],
        bare@.token == token,
        forall|page: usize| !#[trigger] bare@.pages.contains_key(page),
{
}

/// A task can ask for memory at any time and of any size. Only the end of what it asks for
/// has to be an address.
pub proof fn law_memory_can_be_asked_for(
    m: &mut TaskManager,
    start: usize,
    len: usize,
    port: usize,
    size: i32,
    va_start: VirtAddr,
    va_end: VirtAddr,
    flags: u8,
)
    requires
        old(m).live(),
    ensures
        start + len <= usize::MAX || port == 0 || port > 7 ==> call_requires(
            sys_mmap,
            (m, start, len, port),
        ),
        start + len <= usize::MAX ==> call_requires(sys_munmap, (m, start, len)),
        call_requires(sys_sbrk, (m, size)),
        call_requires(change_program_brk, (m, size)),
        call_requires(insert_to_memset, (m, va_start, va_end, flags)),
        call_requires(remove_from_memset, (m, va_start, va_end)),
{
}

/// Whatever the answer, tasks that were well-formed before a call for memory are so after it.
pub proof fn law_memory_calls_keep_the_tasks_well_formed(
    m: &mut TaskManager,
    start: usize,
    len: usize,
    port: usize,
    size: i32,
    r: isize,
)
    requires
        old(m).live(),
        call_ensures(sys_mmap, (m, start, len, port), r) || call_ensures(
            sys_munmap,
            (m, start, len),
            r,
        ) || call_ensures(sys_sbrk, (m, size), r),
    ensures
        final(m).live(),
{
}

} // verus!
