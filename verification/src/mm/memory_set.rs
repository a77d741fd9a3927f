//! The address space of a task.

use std::collections::BTreeMap;

use vstd::prelude::*;

use super::address::{VPNRange, VirtAddr, VirtPageNum};

verus! {

/// What user code may do with a page.
#[derive(Clone, Copy, Debug, PartialEq, Eq, Structural)]
pub struct MapPermission {
    pub read: bool,
    pub write: bool,
    pub execute: bool,
    pub user: bool,
}

impl MapPermission {
    /// The permission that `flags` asks for: bit 0 is read, bit 1 is write and
    /// bit 2 is execute. User code may always reach the page.
    pub open spec fn of_flags(flags: u8) -> MapPermission {
        MapPermission {
            read: flags & 0x1 != 0,
            write: flags & 0x2 != 0,
            execute: flags & 0x4 != 0,
            user: true,
        }
    }

    /// The permission of the data segment.
    pub open spec fn of_heap() -> MapPermission {
        MapPermission { read: true, write: true, execute: false, user: true }
    }

    /// The permission of the data segment.
    pub fn heap() -> (r: MapPermission)
        ensures
            r == MapPermission::of_heap(),
    {
        MapPermission { read: true, write: true, execute: false, user: true }
    }

    /// A page that user code may neither read, write nor execute.
    pub fn user_only() -> (r: MapPermission)
        ensures
            r == (MapPermission { read: false, write: false, execute: false, user: true }),
    {
        MapPermission { read: false, write: false, execute: false, user: true }
    }
}

/// An address space as a mathematical value: the token of its page table, and the
/// permission of each mapped page.
#[verifier::ext_equal]
pub struct SpaceView {
    pub token: usize,
    pub pages: Map<usize, MapPermission>,
}

impl SpaceView {
    /// Whether the page `vpn` is mapped.
    pub open spec fn mapped(self, vpn: usize) -> bool {
        self.pages.contains_key(vpn)
    }

    /// Whether every page of `range` is mapped.
    pub open spec fn all_mapped(self, range: VPNRange) -> bool {
        forall|vpn: usize| range.has_page(vpn) ==> #[trigger] self.mapped(vpn)
    }

    /// Whether no page of `range` is mapped.
    pub open spec fn none_mapped(self, range: VPNRange) -> bool {
        forall|vpn: usize| range.has_page(vpn) ==> !#[trigger] self.mapped(vpn)
    }

    /// The space with every page of `range` mapped with `perm`.
    pub open spec fn map_range(self, range: VPNRange, perm: MapPermission) -> SpaceView {
        SpaceView {
            pages: Map::new(
                |vpn: usize| range.has_page(vpn) || self.pages.contains_key(vpn),
                |vpn: usize|
                    if range.has_page(vpn) {
                        perm
                    } else {
                        self.pages[vpn]
                    },
            ),
            ..self
        }
    }

    /// The space with no page of `range` mapped.
    pub open spec fn unmap_range(self, range: VPNRange) -> SpaceView {
        SpaceView {
            pages: Map::new(
                |vpn: usize| !range.has_page(vpn) && self.pages.contains_key(vpn),
                |vpn: usize| self.pages[vpn],
            ),
            ..self
        }
    }
}

/// The address space of a task: which pages are mapped, and with what permission.
pub struct MemorySet {
    token: usize,
    pages: BTreeMap<usize, MapPermission>,
}

impl View for MemorySet {
    type V = SpaceView;

    closed spec fn view(&self) -> SpaceView {
        SpaceView { token: self.token, pages: self.pages@ }
    }
}

impl MemorySet {
    /// A space without pages, whose page table has the given token.
    pub fn new_bare(token: usize) -> (r: MemorySet)
        ensures
            r@ == (SpaceView { token, pages: Map::empty() }),
    {
        MemorySet { token, pages: BTreeMap::new() }
    }

    /// A copy of `space` under a page table of its own.
    pub fn from_existed_user(space: &MemorySet, token: usize) -> (r: MemorySet)
        ensures
            r@ == (SpaceView { token, pages: space@.pages }),
    {
        MemorySet { token, pages: space.pages.clone() }
    }

    /// The token of the page table.
    pub fn token(&self) -> (r: usize)
        ensures
            r == self@.token,
    {
        self.token
    }

    /// Whether the page `vpn` is mapped.
    pub fn virtual_page_mapped(&self, vpn: VirtPageNum) -> (r: bool)
        ensures
            r == self@.mapped(vpn.0),
    {
        self.pages.contains_key(&vpn.0)
    }

    /// The permission of the page `vpn`, if it is mapped.
    pub fn permission(&self, vpn: VirtPageNum) -> (r: Option<MapPermission>)
        ensures
            r == (if self@.mapped(vpn.0) {
                Some(self@.pages[vpn.0])
            } else {
                None
            }),
    {
        match self.pages.get(&vpn.0) {
            Some(perm) => Some(*perm),
            None => None,
        }
    }

    /// Whether some page of `range` is mapped.
    pub fn any_page_mapped(&self, range: VPNRange) -> (r: bool)
        ensures
            r == !self@.none_mapped(range),
    {
        let mut vpn: usize = range.start.0;
        while vpn < range.end.0
            invariant
                range.start.0 <= vpn,
                forall|p: usize| range.start.0 <= p < vpn ==> !#[trigger] self@.mapped(p),
            decreases range.end.0 - vpn,
        {
            if self.virtual_page_mapped(VirtPageNum(vpn)) {
                assert(range.has_page(vpn));
                return true;
            }
            vpn = vpn + 1;
        }
        false
    }

    /// Whether every page of `range` is mapped.
    pub fn all_pages_mapped(&self, range: VPNRange) -> (r: bool)
        ensures
            r == self@.all_mapped(range),
    {
        let mut vpn: usize = range.start.0;
        while vpn < range.end.0
            invariant
                range.start.0 <= vpn,
                forall|p: usize| range.start.0 <= p < vpn ==> #[trigger] self@.mapped(p),
            decreases range.end.0 - vpn,
        {
            if !self.virtual_page_mapped(VirtPageNum(vpn)) {
                assert(range.has_page(vpn));
                return false;
            }
            vpn = vpn + 1;
        }
        true
    }

    /// Maps the pages that the bytes from `va_start` up to `va_end` lie in.
    pub fn insert_framed_area(&mut self, va_start: VirtAddr, va_end: VirtAddr, perm: MapPermission)
        ensures
            final(self)@ == old(self)@.map_range(
                VPNRange::touched(va_start.0 as int, va_end.0 as int),
                perm,
            ),
    {
        self.map_pages(VPNRange::new(va_start.floor(), va_end.ceil()), perm);
    }

    /// Unmaps the pages that the bytes from `va_start` up to `va_end` lie in.
    pub fn remove_framed_area(&mut self, va_start: VirtAddr, va_end: VirtAddr)
        ensures
            final(self)@ == old(self)@.unmap_range(
                VPNRange::touched(va_start.0 as int, va_end.0 as int),
            ),
    {
        self.unmap_pages(VPNRange::new(va_start.floor(), va_end.ceil()));
    }

    /// Maps every page of `range` with `perm`.
    pub fn map_pages(&mut self, range: VPNRange, perm: MapPermission)
        ensures
            final(self)@ == old(self)@.map_range(range, perm),
    {
        let mut vpn: usize = range.start.0;
        while vpn < range.end.0
            invariant
                range.start.0 <= range.end.0 ==> range.start.0 <= vpn <= range.end.0,
                range.start.0 > range.end.0 ==> vpn == range.start.0,
                self@ == old(self)@.map_range(
                    VPNRange { start: range.start, end: VirtPageNum(vpn) },
                    perm,
                ),
            decreases range.end.0 - vpn,
        {
            self.pages.insert(vpn, perm);
            vpn = vpn + 1;
        }
    }

    /// Unmaps every page of `range`.
    pub fn unmap_pages(&mut self, range: VPNRange)
        ensures
            final(self)@ == old(self)@.unmap_range(range),
    {
        let mut vpn: usize = range.start.0;
        while vpn < range.end.0
            invariant
                range.start.0 <= range.end.0 ==> range.start.0 <= vpn <= range.end.0,
                range.start.0 > range.end.0 ==> vpn == range.start.0,
                self@ == old(self)@.unmap_range(
                    VPNRange { start: range.start, end: VirtPageNum(vpn) },
                ),
            decreases range.end.0 - vpn,
        {
            self.pages.remove(&vpn);
            vpn = vpn + 1;
        }
    }
}

} // verus!
