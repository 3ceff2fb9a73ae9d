# catmeow_os

The logic of a small x86-64 hobby kernel, written in Verus and proved
against its contracts.

- `src/` is the verified library: the physical page allocator, the
  four-level page tables, the heap's first-fit free list, segment and
  interrupt descriptors, the round-robin scheduler, timer arithmetic,
  the ACPI interrupt-controller table walk, and pixel drawing.
  Page tables and memory are modelled as values (`Seq`, `Map`), so every
  operation states what it does to them.
- `tests/` runs the library on concrete values.
- `app/` is the kernel around it: boot requests, port and memory
  access, interrupt stubs, the context switch and the terminal. It hands
  the library plain values and carries out what the library returns.
