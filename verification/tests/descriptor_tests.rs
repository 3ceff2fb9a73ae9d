use catmeow_os::gdt::{
    create_descriptor, gdt_entries, gdt_register, seg_desktype, seg_gran, seg_long, seg_present, seg_priv, seg_savl,
    seg_size, GlobalDescriptorTableRegister, GDT_CODE_PL0, GDT_CODE_PL3, GDT_DATA_PL0, GDT_DATA_PL3, SEG_CODE_EXRD,
    SEG_DATA_RDWR,
};
use catmeow_os::idt::{idt_register, Idt, IDTEntry, IDTR, INTERRUPT_GATE, TIMER_VECTOR};

#[test]
fn segment_fields() {
    assert_eq!(seg_desktype(1), 0x10);
    assert_eq!(seg_present(1), 0x80);
    assert_eq!(seg_savl(1), 0x1000);
    assert_eq!(seg_long(1), 0x2000);
    assert_eq!(seg_size(1), 0x4000);
    assert_eq!(seg_gran(1), 0x8000);
    assert_eq!(seg_priv(3), 0x60);
    assert_eq!(seg_priv(7), 0x60);
}

#[test]
fn flag_words_are_field_combinations() {
    let f = |size, long, privilege, kind| {
        seg_desktype(1) | seg_present(1) | seg_savl(0) | seg_long(long) | seg_size(size) | seg_gran(1)
            | seg_priv(privilege) | kind
    };
    assert_eq!(GDT_CODE_PL0, f(0, 1, 0, SEG_CODE_EXRD));
    assert_eq!(GDT_DATA_PL0, f(0, 1, 0, SEG_DATA_RDWR));
    assert_eq!(GDT_CODE_PL3, f(0, 1, 3, SEG_CODE_EXRD));
    assert_eq!(GDT_DATA_PL3, f(1, 0, 3, SEG_DATA_RDWR));
}

#[test]
fn flat_descriptors() {
    assert_eq!(create_descriptor(0, 0x000FFFFF, GDT_CODE_PL0), 0x00AF9A000000FFFF);
    assert_eq!(create_descriptor(0, 0x000FFFFF, GDT_DATA_PL0), 0x00AF92000000FFFF);
    assert_eq!(create_descriptor(0, 0x000FFFFF, GDT_CODE_PL3), 0x00AFFA000000FFFF);
    assert_eq!(create_descriptor(0, 0x000FFFFF, GDT_DATA_PL3), 0x00CFF2000000FFFF);
    assert_eq!(create_descriptor(0, 0, 0), 0);
}

#[test]
fn descriptor_fields_are_placed() {
    assert_eq!(create_descriptor(0x12345678, 0xABCDE, 0x00FF), 0x120AFF345678BCDE);
    // Bits 8..12 of the flag word are not used.
    assert_eq!(create_descriptor(0, 0, 0x0F00), 0);
}

#[test]
fn kernel_table_and_register() {
    let g = gdt_entries();
    assert_eq!(g, vec![0, 0x00AF9A000000FFFF, 0x00AF92000000FFFF, 0x00AFFA000000FFFF, 0x00CFF2000000FFFF, 0]);
    let r = gdt_register(0x800);
    assert_eq!(r.limit, 47);
    assert_eq!(r.base, 0x800);
    let z = GlobalDescriptorTableRegister::new();
    assert_eq!((z.limit, z.base), (0, 0));
}

#[test]
fn gate_splits_handler_address() {
    let mut idt = Idt::new();
    assert!(idt.entries().iter().all(|e| *e == IDTEntry::new()));
    idt.idt_set_descriptor(0x21, 0xFFFF_8000_1234_5678, 0x8e);
    let g = idt.entries()[0x21];
    assert_eq!(g.isr_low, 0x5678);
    assert_eq!(g.isr_mid, 0x1234);
    assert_eq!(g.isr_high, 0xFFFF_8000);
    assert_eq!(g.kernel_cs, 0x08);
    assert_eq!(g.attributes, 0x8e);
    assert_eq!((g.ist, g.reserved), (0, 0));
    let back = g.isr_low as u64 | (g.isr_mid as u64) << 16 | (g.isr_high as u64) << 32;
    assert_eq!(back, 0xFFFF_8000_1234_5678);
}

#[test]
fn table_fill() {
    let mut idt = Idt::new();
    let exceptions: Vec<u64> = (0..24u64).map(|i| 0x1000 + i).collect();
    idt.init_idt(0xdead, 0xbeef, &exceptions);
    let e = idt.entries();
    let addr = |g: &IDTEntry| g.isr_low as u64 | (g.isr_mid as u64) << 16 | (g.isr_high as u64) << 32;
    assert_eq!(addr(&e[0]), 0x1000);
    assert_eq!(addr(&e[14]), 0x100e);
    assert_eq!(addr(&e[15]), 0xdead);
    assert_eq!(addr(&e[16]), 0x100f);
    assert_eq!(addr(&e[21]), 0x1014);
    assert_eq!(addr(&e[22]), 0xdead);
    assert_eq!(addr(&e[28]), 0x1015);
    assert_eq!(addr(&e[30]), 0x1017);
    assert_eq!(addr(&e[31]), 0xdead);
    assert_eq!(addr(&e[TIMER_VECTOR as usize]), 0xbeef);
    assert_eq!(addr(&e[255]), 0xdead);
    assert!(e.iter().all(|g| g.attributes == INTERRUPT_GATE));
    let r = idt_register(0x4000);
    assert_eq!((r.limit, r.base), (4095, 0x4000));
    let z = IDTR::new();
    assert_eq!((z.limit, z.base), (0, 0));
}
