use catmeow_os::arch::init;
use catmeow_os::filesystem::{init_filesystem, ArchiveError};
use catmeow_os::linked_list::{LinkedList, Node};
use catmeow_os::memory::boot_frames::BootInfoFrameAllocator;
use catmeow_os::memory::frame_map::{FreelistAllocator, ListNode, Page, PageFrame, PageState, Region};
use catmeow_os::memory::pmm::{MemoryMapEntry, ENTRY_RESERVED, ENTRY_USABLE};

#[test]
fn list_appends() {
    let mut l = LinkedList::new(0u64);
    l.add(67);
    l.add(41);
    l.add(420);
    assert_eq!(l.len(), 4);
    assert_eq!(*l.get(0), 0);
    assert_eq!(*l.get(3), 420);
    let mut n = Node::new(5u64);
    l.add_node(&mut n);
    assert_eq!(l.len(), 4);
    assert_eq!(n.item, 5);
}

#[test]
fn ramdisk_checks() {
    assert!(init_filesystem(&[]) == Err(ArchiveError::EmptyArchive));
    assert!(init_filesystem(&[0u8; 100]) == Err(ArchiveError::InvalidBlockSize));
    assert!(init_filesystem(&[0u8; 1024]) == Err(ArchiveError::TooShort { byte_count: 1024, block_count: 2 }));
    assert!(init_filesystem(&[0u8; 1536]) == Ok(()));
    let mut bad = vec![0u8; 2048];
    bad[0] = b'x';
    assert!(init_filesystem(&bad) != Ok(()));
}

#[test]
fn frame_records() {
    let mut f = PageFrame::new(0x1000, 0);
    assert!(f.is_empty());
    f.used = true;
    f.free();
    assert!(!f.used);
    let r = Region::new(0x2000, 5);
    assert_eq!((r.previous_addr, r.next_addr, r.size), (0x2000, 0, 5));
    assert!(!r.is_empty());
    let n = ListNode::new(1, 2);
    assert_eq!((n.previous_addr, n.next_addr), (1, 2));
    let mut a = FreelistAllocator::new();
    assert_eq!(a.alloc_page(), 0);
    a.free();
    assert!(a.head == ListNode::new(0, 0));
    let p = Page { state: PageState::Free };
    assert!(p.state == PageState::Free);
    init();
}

#[test]
fn boot_frames_in_order() {
    let entries = vec![
        MemoryMapEntry { base: 0x1000, length: 0x3000, entry_type: ENTRY_USABLE },
        MemoryMapEntry { base: 0x9000, length: 0xA000, entry_type: ENTRY_RESERVED },
        MemoryMapEntry { base: 0x1_1800, length: 0x1_3000, entry_type: ENTRY_USABLE },
        MemoryMapEntry { base: 0x5000, length: 0x4000, entry_type: ENTRY_USABLE },
    ];
    let mut a = BootInfoFrameAllocator::init(entries);
    assert_eq!(a.allocate_frame(), Some(0x1000));
    assert_eq!(a.allocate_frame(), Some(0x2000));
    assert_eq!(a.allocate_frame(), Some(0x1_1000));
    assert_eq!(a.allocate_frame(), Some(0x1_2000));
    // The last entry's base is above its length field: it yields nothing.
    assert_eq!(a.allocate_frame(), None);
    assert_eq!(a.allocate_frame(), None);
}
