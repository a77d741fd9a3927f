//! Virtual addresses and virtual page numbers.

use vstd::prelude::*;

use crate::config::PAGE_SIZE;

verus! {

/// A virtual address.
#[derive(Clone, Copy, Debug, PartialEq, Eq, Structural)]
pub struct VirtAddr(pub usize);

/// A virtual page number.
#[derive(Clone, Copy, Debug, PartialEq, Eq, Structural)]
pub struct VirtPageNum(pub usize);

impl VirtAddr {
    /// The number of the page that holds the byte at `addr`.
    pub open spec fn page_of(addr: int) -> int {
        addr / PAGE_SIZE as int
    }

    /// The number of the first page that starts at `addr` or after it.
    pub open spec fn page_after(addr: int) -> int {
        if addr % PAGE_SIZE as int == 0 {
            addr / PAGE_SIZE as int
        } else {
            addr / PAGE_SIZE as int + 1
        }
    }

    /// The address `v`.
    pub fn from(v: usize) -> (r: VirtAddr)
        ensures
            r.0 == v,
    {
        VirtAddr(v)
    }

    /// Whether a page starts at this address.
    pub fn aligned(&self) -> (r: bool)
        ensures
            r == (self.0 % PAGE_SIZE == 0),
    {
        self.0 % PAGE_SIZE == 0
    }

    /// The page that holds this address.
    pub fn floor(&self) -> (r: VirtPageNum)
        ensures
            r.0 == Self::page_of(self.0 as int),
    {
        VirtPageNum(self.0 / PAGE_SIZE)
    }

    /// The first page that starts at this address or after it.
    pub fn ceil(&self) -> (r: VirtPageNum)
        ensures
            r.0 == Self::page_after(self.0 as int),
    {
        let page: usize = self.0 / PAGE_SIZE;
        if self.aligned() {
            VirtPageNum(page)
        } else {
            VirtPageNum(page + 1)
        }
    }
}

/// The pages from `start` up to, but not with, `end`.
#[derive(Clone, Copy, Debug, PartialEq, Eq, Structural)]
pub struct VPNRange {
    pub start: VirtPageNum,
    pub end: VirtPageNum,
}

impl VPNRange {
    /// The pages from `start` up to `end`.
    pub fn new(start: VirtPageNum, end: VirtPageNum) -> (r: VPNRange)
        ensures
            r.start == start,
            r.end == end,
    {
        VPNRange { start, end }
    }

    /// The pages that the bytes from `va_start` up to `va_end` lie in.
    pub open spec fn touched(va_start: int, va_end: int) -> VPNRange {
        VPNRange {
            start: VirtPageNum(VirtAddr::page_of(va_start) as usize),
            end: VirtPageNum(VirtAddr::page_after(va_end) as usize),
        }
    }

    /// Whether `vpn` is one of the pages.
    pub open spec fn has_page(self, vpn: usize) -> bool {
        self.start.0 <= vpn < self.end.0
    }
}

} // verus!
