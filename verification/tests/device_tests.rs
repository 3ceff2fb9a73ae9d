use catmeow_os::acpi::{
    apic_timer_lvt, apic_timer_ticks, classify, find_signature, madt_entries, rsdt_entry_address, rsdt_entry_count,
    get_vendor_id, rsdt_address, table_length, MadtEntryKind,
};
use catmeow_os::gui::{pixel_offset, put_line, put_rect, Color, PixelWrite};
use catmeow_os::pit::{
    pit_count_bytes, pit_count_from_bytes, pit_divisor, remap_pic, unmask_timer, wait_end, waiting, PitClock,
};
use catmeow_os::tsc::{calibrate_tsc, get_ms, get_us, sleep_target, tsc};

fn px(x: u32, y: u32, color: u32) -> PixelWrite {
    PixelWrite { x, y, color }
}

#[test]
fn rectangle_pixels_column_by_column() {
    let w = put_rect(1, 2, 2, 3, 7);
    assert_eq!(w, vec![px(1, 2, 7), px(1, 3, 7), px(1, 4, 7), px(2, 2, 7), px(2, 3, 7), px(2, 4, 7)]);
    assert!(put_rect(5, 5, 0, 3, 1).is_empty());
    assert!(put_rect(5, 5, 3, 0, 1).is_empty());
}

#[test]
fn line_pixels_whole_slope() {
    assert_eq!(put_line(0, 0, 4, 8, 1), vec![px(0, 0, 1), px(1, 2, 1), px(2, 4, 1), px(3, 6, 1)]);
    // A slope below one rounds down to a flat line.
    assert_eq!(put_line(10, 5, 13, 7, 2), vec![px(10, 5, 2), px(11, 5, 2), px(12, 5, 2)]);
}

#[test]
fn framebuffer_offsets_and_colors() {
    assert_eq!(pixel_offset(3, 2, 4096), 8192 + 12);
    let c = Color::new(1, 2, 3);
    assert!(c == Color(1, 2, 3));
}

#[test]
fn timer_programming() {
    assert_eq!(pit_divisor(), 1193);
    assert_eq!(pit_count_bytes(0x1234), (0x34, 0x12));
    assert_eq!(pit_count_from_bytes(0x34, 0x12), 0x1234);
    assert_eq!(unmask_timer(0xFF), 0xFE);
    let w = remap_pic(0xAA, 0xBB);
    assert_eq!(w.len(), 10);
    assert_eq!(w[0], (0x20, 0x11));
    assert_eq!(w[2], (0x21, 0x20));
    assert_eq!(w[3], (0xA1, 0x28));
    assert_eq!(w[8], (0x21, 0xAA));
    assert_eq!(w[9], (0xA1, 0xBB));
}

#[test]
fn waits_with_wrap_around() {
    assert_eq!(wait_end(u32::MAX - 1, 5), 3);
    assert!(waiting(u32::MAX - 1, 3, u32::MAX));
    assert!(waiting(u32::MAX - 1, 3, 2));
    assert!(!waiting(u32::MAX - 1, 3, 3));
    assert!(waiting(10, 20, 19));
    assert!(!waiting(10, 20, 20));
}

#[test]
fn clock_ticks_and_sleeps() {
    let mut c = PitClock::new();
    assert_eq!(c.get_ms(), 0);
    c.start_sleep(2);
    assert!(c.sleeping());
    c.tick();
    c.tick();
    assert!(!c.sleeping());
    c.tick();
    assert!(!c.sleeping());
    assert_eq!(c.get_ms(), 3);
}

#[test]
fn time_stamp_counter() {
    assert_eq!(tsc(1, 2), 0x1_0000_0002);
    assert_eq!(calibrate_tsc(&[(0, 100), (100, 300)]), 1500);
    assert_eq!(calibrate_tsc(&[(5, 5)]), 0);
    assert_eq!(get_ms(3000, 1000), 3000);
    assert_eq!(get_us(3, 1000), 3000);
    assert_eq!(get_ms(999, 1000), 999);
    assert_eq!(sleep_target(10, 5), 15);
}

#[test]
fn cpu_vendor() {
    assert_eq!(get_vendor_id(0x756e6547, 0x49656e69, 0x6c65746e), b"GenuineIntel".to_vec());
    assert_eq!(get_vendor_id(0x68747541, 0x69746e65, 0x444d4163), b"AuthenticAMD".to_vec());
}

#[test]
fn root_table_entries() {
    assert_eq!(rsdt_entry_count(36), 0);
    assert_eq!(rsdt_entry_count(44), 2);
    assert_eq!(rsdt_entry_address(0x1000, 2), 0x1000 + 36 + 8);
    let sigs = [*b"FACP", *b"APIC", *b"HPET", *b"APIC"];
    assert_eq!(find_signature(&sigs, b"APIC"), Some(1));
    assert_eq!(find_signature(&sigs, b"MCFG"), None);
    assert_eq!(find_signature(&[], b"APIC"), None);
}

#[test]
fn interrupt_controller_records() {
    let mut table = vec![0u8; 44];
    table.extend_from_slice(&[0, 8, 0, 0, 1, 0, 0, 0]);
    table.extend_from_slice(&[1, 12, 0, 0, 0, 0, 0xC0, 0xFE, 0, 0, 0, 0]);
    table.extend_from_slice(&[9, 2]);
    let r = madt_entries(&table, table.len() as u32);
    assert_eq!(r.len(), 3);
    assert_eq!((r[0].offset, r[0].entry_type, r[0].record_length), (44, 0, 8));
    assert!(r[0].kind == MadtEntryKind::ProcessorLocalApic);
    assert_eq!((r[1].offset, r[1].record_length), (52, 12));
    assert!(r[1].kind == MadtEntryKind::IoApic);
    assert!(r[2].kind == MadtEntryKind::ProcessorLocalX2Apic);
    assert!(madt_entries(&table, 44).is_empty());
    assert!(classify(5) == MadtEntryKind::LocalApicAddressOverride);
    assert!(classify(7) == MadtEntryKind::Unknown);
}

#[test]
fn apic_timer_values() {
    assert_eq!(apic_timer_ticks(0xFFFF_0000), 0xFFFF);
    assert_eq!(apic_timer_lvt(0xFFFF_FFFF), 0x2_0000);
    assert_eq!(apic_timer_lvt(0x1_FFFF), 0);
}

#[test]
fn table_header_fields() {
    let mut rsdp = b"RSD PTR ".to_vec();
    rsdp.extend_from_slice(&[0x5a, b'B', b'O', b'C', b'H', b'S', b' ', 0, 0x78, 0x56, 0x34, 0x12]);
    assert_eq!(rsdt_address(&rsdp), 0x1234_5678);
    let header = [b'A', b'P', b'I', b'C', 0x2c, 0x01, 0, 0];
    assert_eq!(table_length(&header), 300);
}

#[test]
fn clock_counts_many_ticks() {
    let mut c = PitClock::new();
    c.start_sleep(3);
    for _ in 0..5 {
        c.tick();
    }
    assert_eq!(c.get_ms(), 5);
    assert!(!c.sleeping());
}
