pub mod acpi;
pub mod arch;
pub mod filesystem;
pub mod gdt;
pub mod gui;
pub mod idt;
pub mod linked_list;
pub mod memory;
pub mod pit;
pub mod process;
pub mod scheduler;
pub mod thread;
pub mod tsc;
