# rustux

The logic of a small x86_64 kernel, verified with Verus: kernel objects,
ELF loading, physical memory, the kernel heap, page tables, ACPI tables,
fault decoding, interrupt controllers, and the display and keyboard
drivers. Hardware access stays outside the library: where the kernel
alternates port or memory-mapped I/O with decisions, the library takes the
decisions (as state machines or as lists of writes to make) and the caller
does the I/O.

Layout:

- `src/object` — handles and rights, channels, jobs, timers, VMOs.
- `src/exec` — ELF parsing and loading, process images, page-table walks.
- `src/mm` — the physical memory manager and the kernel heap allocator
  (a free list whose block headers live in the heap bytes).
- `src/arch` — x86_64 page tables, faults, APIC, cache maintenance,
  kernel stack; arm64 page tables and GIC; riscv64 PLIC.
- `src/acpi` — RSDT/XSDT and MADT parsing.
- `src/drivers` — framebuffer, text console, PS/2 keyboard (bring-up
  sequence, scancode handling), UART.
- `src/kernel` — the kernel-side keyboard line reader, interrupt
  bookkeeping, and memory, process and scheduler records.
- `src/fs` — read-only ramdisk file operations (read, seek).
- `src/init.rs` — the initialization stages and the boot allocator.
- `app/` — the UEFI entry point and the I/O around the library.
- `tests/` — tests of the library.
