use os::mm::{MapPermission, MemorySet, PageSlice};
use os::syscall::{sys_mmap, sys_munmap};
use os::task::{TaskControlBlock, TaskManager};

fn one_task() -> TaskManager {
    TaskManager::new(vec![TaskControlBlock::new(0, MemorySet::new_bare())])
}

#[test]
fn mmap_rounds_up_to_pages() {
    let mut tm = one_task();
    assert_eq!(sys_mmap(&mut tm, 0x10000, 4097, 0b011), 8192);
    let ms = &tm.tasks[0].memory_set;
    assert!(!ms.find_vpn(0xf));
    assert!(ms.find_vpn(0x10));
    assert!(ms.find_vpn(0x11));
    assert!(!ms.find_vpn(0x12));
    let rw = MapPermission::from_bits(MapPermission::U | MapPermission::R | MapPermission::W);
    assert_eq!(ms.translate(0x10), Some(rw));
    assert_eq!(ms.translate(0x12), None);
}

#[test]
fn mmap_permission_follows_port() {
    let mut ms = MemorySet::new_bare();
    assert_eq!(ms.mmap(0x1000, 4096, 0b100), 4096);
    assert_eq!(ms.translate(1).unwrap().bits, MapPermission::U | MapPermission::X);
    assert_eq!(ms.mmap(0x2000, 4096, 0b111), 4096);
    assert_eq!(
        ms.translate(2).unwrap().bits,
        MapPermission::U | MapPermission::R | MapPermission::W | MapPermission::X
    );
}

#[test]
fn mmap_overlap_fails_and_keeps_mapping() {
    let mut ms = MemorySet::new_bare();
    assert_eq!(ms.mmap(0x10000, 8192, 1), 8192);
    assert_eq!(ms.mmap(0x11000, 8192, 3), -1);
    assert!(ms.find_vpn(0x10));
    assert!(ms.find_vpn(0x11));
    assert!(!ms.find_vpn(0x12));
    assert_eq!(ms.translate(0x11).unwrap().bits, MapPermission::U | MapPermission::R);
}

#[test]
fn mmap_rejects_bad_arguments() {
    let mut ms = MemorySet::new_bare();
    assert_eq!(ms.mmap(0x1000, 0, 1), 0);
    assert_eq!(ms.mmap(0x1001, 4096, 1), -1);
    assert_eq!(ms.mmap(0x1000, 4096, 0), -1);
    assert_eq!(ms.mmap(0x1000, 4096, 8), -1);
    assert_eq!(ms.mmap(0x1000, 4096, 0xf), -1);
    assert_eq!(ms.mmap(0x1000, 1073741825, 1), -1);
    assert_eq!(ms.mmap(usize::MAX - 4095, 8192, 1), -1);
    assert!(!ms.find_vpn(1));
}

#[test]
fn mmap_largest_length_is_accepted() {
    let mut ms = MemorySet::new_bare();
    assert_eq!(ms.mmap(0, 1073741824, 1), 1073741824);
    assert!(ms.find_vpn(0));
    assert!(ms.find_vpn(262143));
    assert!(!ms.find_vpn(262144));
}

#[test]
fn munmap_unmaps_whole_range() {
    let mut tm = one_task();
    assert_eq!(sys_mmap(&mut tm, 0x10000, 3 * 4096, 3), 3 * 4096);
    assert_eq!(sys_munmap(&mut tm, 0x10000, 4097), 4097);
    let ms = &tm.tasks[0].memory_set;
    assert!(!ms.find_vpn(0x10));
    assert!(!ms.find_vpn(0x11));
    assert!(ms.find_vpn(0x12));
}

#[test]
fn munmap_of_unmapped_page_fails() {
    let mut ms = MemorySet::new_bare();
    assert_eq!(ms.mmap(0x10000, 4096, 3), 4096);
    assert_eq!(ms.munmap_area(0x10000, 8192), -1);
    assert!(ms.find_vpn(0x10));
    assert_eq!(ms.munmap_area(0x10000, 0), 0);
    assert_eq!(ms.munmap_area(0x10001, 4096), -1);
    assert_eq!(ms.munmap_area(0x10000, 1073741825), -1);
}

#[test]
fn mmap_then_munmap_then_mmap_again() {
    let mut ms = MemorySet::new_bare();
    assert_eq!(ms.mmap(0x4000, 100, 2), 4096);
    assert_eq!(ms.munmap_area(0x4000, 100), 100);
    assert!(!ms.find_vpn(4));
    assert_eq!(ms.mmap(0x4000, 100, 1), 4096);
}

#[test]
fn insert_framed_area_covers_partial_pages() {
    let mut ms = MemorySet::new_bare();
    ms.insert_framed_area(0x1800, 0x3001, MapPermission::from_bits(MapPermission::R));
    assert!(!ms.find_vpn(0));
    assert!(ms.find_vpn(1));
    assert!(ms.find_vpn(3));
    assert!(!ms.find_vpn(4));
    assert!(ms.munmap(3));
    assert!(!ms.munmap(3));
    assert!(!ms.find_vpn(3));
}

#[test]
fn byte_buffer_is_cut_at_page_bounds() {
    let mut ms = MemorySet::new_bare();
    assert_eq!(ms.mmap(0x10000, 3 * 4096, 0b011), 3 * 4096);
    let v = ms.translated_byte_buffer(0x10ff0, 0x1020, false).unwrap();
    assert_eq!(
        v,
        vec![
            PageSlice { vpn: 0x10, start: 0xff0, end: 0x1000 },
            PageSlice { vpn: 0x11, start: 0, end: 0x1000 },
            PageSlice { vpn: 0x12, start: 0, end: 0x10 },
        ]
    );
    let one = ms.translated_byte_buffer(0x10004, 8, true).unwrap();
    assert_eq!(one, vec![PageSlice { vpn: 0x10, start: 4, end: 12 }]);
    assert_eq!(ms.translated_byte_buffer(0x10000, 0, false), Some(vec![]));
}

#[test]
fn byte_buffer_fails_on_unmapped_or_forbidden_page() {
    let mut ms = MemorySet::new_bare();
    assert_eq!(ms.mmap(0x10000, 4096, 0b001), 4096);
    assert_eq!(ms.translated_byte_buffer(0x10ff0, 0x20, false), None);
    assert_eq!(ms.translated_byte_buffer(0x10000, 0x10, true), None);
    assert!(ms.translated_byte_buffer(0x10000, 0x10, false).is_some());
    assert_eq!(ms.translated_byte_buffer(usize::MAX - 2, 8, false), None);
    ms.insert_framed_area(0x20000, 0x21000, MapPermission::from_bits(MapPermission::R));
    assert_eq!(ms.translated_byte_buffer(0x20000, 4, false), None);
}

#[test]
fn string_read_stops_at_zero() {
    let mut ms = MemorySet::new_bare();
    assert_eq!(ms.mmap(0x10000, 4096, 0b001), 4096);
    assert_eq!(ms.translated_str(0x10ffc, b"abc\0def"), Some(b"abc".to_vec()));
    assert_eq!(ms.translated_str(0x10000, b"\0"), Some(vec![]));
    assert_eq!(ms.translated_str(0x10000, b"abc"), None);
    assert_eq!(ms.translated_str(0x10ffc, b"abcd\0"), None);
    assert_eq!(ms.translated_str(0x20000, b"a\0"), None);
}

#[test]
fn refmut_needs_one_writable_page() {
    let mut ms = MemorySet::new_bare();
    assert_eq!(ms.mmap(0x10000, 8192, 0b011), 8192);
    assert_eq!(ms.translated_refmut(0x10010, 8), Some(PageSlice { vpn: 0x10, start: 0x10, end: 0x18 }));
    assert_eq!(ms.translated_refmut(0x10ffc, 8), None);
    assert_eq!(ms.translated_refmut(0x10010, 0), None);
    assert_eq!(ms.translated_refmut(0x12000, 8), None);
    assert_eq!(ms.mmap(0x20000, 4096, 0b001), 4096);
    assert_eq!(ms.translated_refmut(0x20000, 8), None);
}
