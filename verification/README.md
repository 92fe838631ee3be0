# sparreal

Verified core logic of the Sparreal kernel and its hardware abstraction layer,
written in Verus.

- `src/` is the library. Each public function carries a `requires`/`ensures`
  contract over mathematical models (`Seq`, `Set`, integers), and the laws of
  the library are public proof functions (`lemma_*`). It covers:
  - physical memory maps: splitting RAM at page-aligned reserved regions,
    classifying and joining the pieces (`memory`), device-tree and UEFI inputs
    (`fdt_memory`, `efi_memory`), the recorded map and I/O remapping (`mem`);
  - CPU enumeration from ACPI MADT tables and the UEFI MP services
    (`acpi`, `efi_mp`), per-CPU areas (`smp`), cold boot hand-off (`boot`),
    powering CPUs on (`power`);
  - page-table entry encodings for AArch64 and LoongArch64 (`pte_aarch64`,
    `pte_loongarch64`, `bits`, `paging`), the kernel table slot
    (`kernel_table`), the early bump allocator (`ram`);
  - DMA mapping checks (`dma`), the network and NVMe driver vocabulary
    (`net`, `nvme`), interrupt dispatch (`trap`), ELF relocation (`elf`) and
    the C runtime support decisions (`compat`).
  Fixed-capacity vectors of the `heapless` and `arrayvec` crates and the
  alignment helpers of `num_align` are reached through small trusted wrappers
  in `bounded` and `align`.
- `app/` holds what stays outside verification: reading device trees with
  `fdt_raw`, converting UEFI memory descriptors, error types with display
  text, and the test runner's command line.
- `tests/` exercises the library on concrete values.
