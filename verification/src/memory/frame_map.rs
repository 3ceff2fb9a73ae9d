//! Records of physical memory regions: page frames, free regions and the
//! nodes of a free-region list.
use vstd::prelude::*;

verus! {

/// A run of physical memory: where it starts, how long it is, whether it is used.
#[derive(Debug, Clone, Copy, PartialEq, Eq, Structural)]
pub struct PageFrame {
    pub start: u64,
    pub size: u64,
    pub used: bool,
}

impl PageFrame {
    /// An unused frame of `size` bytes at `start`.
    pub fn new(start: u64, size: u64) -> (r: Self)
        ensures
            r == (PageFrame { start, size, used: false }),
    {
        Self { start, size, used: false }
    }

    /// Marks the frame unused.
    pub fn free(&mut self)
        ensures
            *final(self) == (PageFrame { used: false, ..*old(self) }),
    {
        self.used = false;
    }

    /// Whether the frame spans no bytes.
    pub fn is_empty(&self) -> (r: bool)
        ensures
            r == (self.size == 0),
    {
        self.size == 0
    }
}

/// A free region: the addresses before and after it in its list, and its size.
#[derive(Debug, Clone, Copy, PartialEq, Eq, Structural)]
pub struct Region {
    pub previous_addr: u64,
    pub next_addr: u64,
    pub size: u64,
}

impl Region {
    /// A region of `size` bytes after `previous_addr`, with nothing after it.
    pub fn new(previous_addr: u64, size: u64) -> (r: Self)
        ensures
            r == (Region { previous_addr, next_addr: 0, size }),
    {
        Self { previous_addr, size, next_addr: 0 }
    }

    /// Whether the region spans no bytes.
    pub fn is_empty(&self) -> (r: bool)
        ensures
            r == (self.size == 0),
    {
        self.size == 0
    }
}

/// A node of the free-region list: the addresses of its neighbours.
#[derive(Debug, Clone, Copy, PartialEq, Eq, Structural)]
pub struct ListNode {
    pub previous_addr: u64,
    pub next_addr: u64,
}

impl ListNode {
    /// A node between `prev` and `next`.
    pub fn new(prev: u64, next: u64) -> (r: Self)
        ensures
            r == (ListNode { previous_addr: prev, next_addr: next }),
    {
        Self { previous_addr: prev, next_addr: next }
    }
}

/// A free-region allocator that hands out nothing yet.
pub struct FreelistAllocator {
    pub head: ListNode,
}

impl FreelistAllocator {
    /// An allocator whose list head has no neighbours.
    pub fn new() -> (r: Self)
        ensures
            r.head == ListNode::new_spec(0, 0),
    {
        Self { head: ListNode::new(0, 0) }
    }

    /// Hands out no memory: always the null address.
    pub fn alloc_page(&mut self) -> (r: u64)
        ensures
            r == 0,
            final(self).head == old(self).head,
    {
        0
    }

    /// Takes nothing back.
    pub fn free(&mut self)
        ensures
            final(self).head == old(self).head,
    {
    }
}

impl ListNode {
    /// The node between `prev` and `next`.
    pub open spec fn new_spec(prev: u64, next: u64) -> ListNode {
        ListNode { previous_addr: prev, next_addr: next }
    }
}

/// What a page is used for.
#[derive(Debug, Clone, Copy, PartialEq, Eq, Structural)]
pub enum PageState {
    Uninit,
    Used,
    Free,
}

/// A page and its state.
#[derive(Debug, Clone, Copy, PartialEq, Eq, Structural)]
pub struct Page {
    pub state: PageState,
}

} // verus!
