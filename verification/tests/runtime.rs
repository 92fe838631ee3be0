use sparreal::compat::{clock_gettime_check, write_step, WriteStep};
use sparreal::sbi::sbi_result;
use sparreal::compat::{calloc_size, check_memalign, realloc_action, ReallocAction};
use sparreal::compat::byte_copy_nonoverlapping;
use sparreal::compat::{write_check, writev_total, EFAULT};
use sparreal::fdt_memory::{memories, FdtRange};
use sparreal::boot::{ColdBootReleaseError, ColdBootTable};
use sparreal::boot::{HeadAction, BOOT_STATE_PRIMARY_INIT, BOOT_STATE_SECONDARY_READY, BOOT_STATE_UNCLAIMED};
use sparreal::compat::{realloc_finish, ReallocFinish};
use sparreal::compat::{
    align_up, alloc_plan, byte_copy_overlap, byte_fill, clock_supported, copy_message, duration_to_timespec,
    futex_syscall, getcwd, memcmp, strerror_message, user_address, user_align, AllocPlan, Timespec, TlsKeys,
    CLOCK_MONOTONIC, CLOCK_REALTIME, EINVAL, ENOMEM, ENOSYS, ERANGE, EBADF, FUTEX_PRIVATE_FLAG, FUTEX_WAIT,
    FUTEX_WAKE_BITSET, MAX_TLS_KEYS, SYS_FUTEX, ALLOC_HEADER_SIZE,
};
use sparreal::elf::{apply_reloc, reset, Rela};
use sparreal::kernel_table::{KernelTable, PageTable, PageTableRef};
use sparreal::ram::{Ram, SimpleAllocator, MIN_ALLOC_ADDR};
use sparreal::smp::{cpu_meta_list, init_percpu, percpu_data_size, PER_CPU_META_SIZE};
use sparreal::mem::StaticCell;
use sparreal::trap::{register_timer_handler, timer_handler};
use sparreal::trap::{handle_irq, handler_for, ilog2, pending_irqs, tlbrentry_addr, vint_size, HandlerKind, IrqAction, TI};
use sparreal::power::{cpu_on_target, CpuOnError};
use sparreal::hal::MmuFlag;
use sparreal::ranges::{RangeKind, TestRange};

#[test]
fn cold_boot_release_once() {
    let mut t = ColdBootTable::new();
    assert_eq!(t.release_secondary_hart(1), Err(ColdBootReleaseError::NotPrepared));
    t.prepare_secondary_boot(&[1, 3], &[0x8000_0000, 0x8001_0000]);
    assert_eq!(t.release_secondary_hart(1), Ok(()));
    assert_eq!(t.release_secondary_hart(1), Err(ColdBootReleaseError::AlreadyReleased));
    assert_eq!(t.release_secondary_hart(3), Ok(()));
    assert_eq!(t.release_secondary_hart(2), Err(ColdBootReleaseError::NotPrepared));
    assert_eq!(t.release_secondary_hart(64), Err(ColdBootReleaseError::InvalidHartId));
}

#[test]
fn simple_allocator_bumps_aligned_blocks() {
    let mut a = SimpleAllocator::new();
    a.init(0x10, 0x1000);
    assert_eq!(a.current, MIN_ALLOC_ADDR);
    assert_eq!(a.allocate(0x10, 0x100), Some(0x100));
    assert_eq!(a.current, 0x110);
    assert_eq!(a.allocate(0x8, 0x8), Some(0x110));
    assert_eq!(a.allocate(0x1000, 0x1000), None);
    assert_eq!(a.current, 0x118);
    assert_eq!(a.allocate(0xee8, 1), Some(0x118));
    assert_eq!(a.current, 0x1000);
}

#[test]
fn ram_frames_and_used_range() {
    let mut a = SimpleAllocator::new();
    a.init(0x8000_0000, 0x8000_4000);
    let mut ram = Ram { allocator: a };
    assert_eq!(ram.alloc_frame(0x1000).map(|p| p.raw()), Some(0x8000_0000));
    assert_eq!(ram.allocate(0x10, 0x10), Some(0x8000_1000));
    assert_eq!(ram.current(), 0x8000_1010);
    assert_eq!(ram.used_range(0x1000), 0x8000_0000..0x8000_2000);
    assert_eq!(ram.alloc_frame(0x1000).map(|p| p.raw()), Some(0x8000_2000));
    assert_eq!(ram.alloc_frame(0x1000).map(|p| p.raw()), Some(0x8000_3000));
    assert!(ram.alloc_frame(0x1000).is_none());
}

#[test]
fn percpu_layout() {
    assert_eq!(percpu_data_size(0x4000, 0x100, 0x1000), 0x5000);
    assert_eq!(percpu_data_size(0x1000 - PER_CPU_META_SIZE, 0, 0x1000), 0x1000);
    let r = init_percpu(0x10_0000, &[5, 7], 0x5000, 0x100);
    assert_eq!(r.len(), 2);
    assert_eq!(r[0].0, 0x10_0100);
    assert_eq!(r[0].1.cpu_id, 5);
    assert_eq!(r[0].1.stack_top, 0x10_0100 + PER_CPU_META_SIZE);
    assert_eq!(r[1].0, 0x10_5100);
    assert_eq!(r[1].1.cpu_id, 7);
}

#[test]
fn cpu_meta_list_walk() {
    let layout = init_percpu(0x10_0000, &[5, 7], 0x5000, 0x100);
    let walk = cpu_meta_list(0x10_0000, 0x10_0000 + 2 * 0x5000, 0x5000, 0x100);
    assert_eq!(walk, vec![0x10_0100, 0x10_5100]);
    assert_eq!(walk, layout.iter().map(|(addr, _)| *addr).collect::<Vec<usize>>());
    assert_eq!(cpu_meta_list(0x1000, 0x1000 + 0x30 + 0x8, 0x10, 0), vec![0x1000, 0x1010, 0x1020]);
    assert!(cpu_meta_list(0x1000, 0x1000, 0x10, 0x8).is_empty());
}

#[test]
fn trap_vectors() {
    assert_eq!(tlbrentry_addr(0x9000_0000), 0x9000_0000 + 80 * 0x200);
    assert_eq!(ilog2(1), 0);
    assert_eq!(ilog2(0x80), 7);
    assert_eq!(ilog2(0xff), 7);
    assert_eq!(vint_size(), 7);
    assert_eq!(handler_for(0), Some(HandlerKind::Reserved));
    assert_eq!(handler_for(63), Some(HandlerKind::Reserved));
    assert_eq!(handler_for(64), Some(HandlerKind::Interrupt));
    assert_eq!(handler_for(78), Some(HandlerKind::Interrupt));
    assert_eq!(handler_for(79), None);
    assert_eq!(pending_irqs(0b1000_0000_0101), vec![0, 2, 11]);
    assert!(pending_irqs(0).is_empty());
    assert_eq!(handle_irq(TI), IrqAction::Timer);
    assert_eq!(handle_irq(2), IrqAction::Ignore);
}

#[test]
fn elf_relocations() {
    let relas = vec![
        Rela { r_offset: 0x100, r_info: 0x403, r_addend: 0x2000 },
        Rela { r_offset: 0x108, r_info: 0x1_0000_0001, r_addend: 0x10 },
        Rela { r_offset: 0x110, r_info: 0x1_0000_0403, r_addend: 0x3000 },
    ];
    assert_eq!(relas[2].r_type_raw(), 0x403);
    let w = apply_reloc(0x4000_0000, &relas, 0x403);
    assert_eq!(w, vec![(0x4000_0100, 0x4000_2000), (0x4000_0110, 0x4000_3000)]);
    let back = apply_reloc(-0x100, &relas, 0x403);
    assert_eq!(back, vec![(0x0, 0x1f00), (0x10, 0x2f00)]);
    let r = reset(&relas, 0x403);
    assert_eq!(r, vec![(0x100, 0x2000), (0x110, 0x3000)]);
}

#[test]
fn compat_align_up_masks() {
    assert_eq!(align_up(0x1001, 0x1000), Some(0x2000));
    assert_eq!(align_up(0x1000, 0x1000), Some(0x1000));
    assert_eq!(align_up(5, 0), None);
    assert_eq!(align_up(usize::MAX, 2), None);
}

#[test]
fn compat_alloc_layout() {
    assert_eq!(user_align(1), 8);
    assert_eq!(user_align(64), 64);
    assert_eq!(alloc_plan(0, 4), Ok(AllocPlan { requested_size: 1, alloc_align: 8, alloc_size: 1 + ALLOC_HEADER_SIZE + 8 }));
    assert_eq!(alloc_plan(100, 64), Ok(AllocPlan { requested_size: 100, alloc_align: 64, alloc_size: 100 + ALLOC_HEADER_SIZE + 64 }));
    assert_eq!(alloc_plan(usize::MAX - 10, 8), Err(ENOMEM));
    assert_eq!(alloc_plan(10, 24), Err(EINVAL));
    assert_eq!(alloc_plan(isize::MAX as usize, 8), Err(EINVAL));
    assert_eq!(user_address(0x1000, 64), Some(0x1040));
    assert_eq!(user_address(0x1008, 8), Some(0x1028));
}

#[test]
fn compat_time_and_clocks() {
    assert_eq!(duration_to_timespec(3, 500), Timespec { tv_sec: 3, tv_nsec: 500 });
    assert_eq!(clock_supported(CLOCK_MONOTONIC), Ok(()));
    assert_eq!(clock_supported(CLOCK_REALTIME), Ok(()));
    assert_eq!(clock_supported(7), Err(EINVAL));
}

#[test]
fn compat_error_texts() {
    assert_eq!(strerror_message(ENOMEM), "Out of memory");
    assert_eq!(strerror_message(EBADF), "Bad file descriptor");
    assert_eq!(strerror_message(ENOSYS), "Function not implemented");
    assert_eq!(strerror_message(-1), "Unknown error");
}

#[test]
fn compat_copy_message_truncates() {
    let mut buf = vec![0xffu8; 4];
    assert_eq!(copy_message(&mut buf, b"hello"), 0);
    assert_eq!(buf, b"hel\0".to_vec());
    let mut big = vec![0xffu8; 8];
    assert_eq!(copy_message(&mut big, b"ok"), 0);
    assert_eq!(&big[..3], b"ok\0");
    let mut empty: Vec<u8> = vec![];
    assert_eq!(copy_message(&mut empty, b"x"), ERANGE);
}

#[test]
fn compat_getcwd_root() {
    let mut buf = vec![7u8; 4];
    assert_eq!(getcwd(&mut buf), Ok(()));
    assert_eq!(buf, vec![b'/', 0, 7, 7]);
    let mut small = vec![7u8; 1];
    assert_eq!(getcwd(&mut small), Err(ERANGE));
    assert_eq!(small, vec![7]);
}

#[test]
fn compat_memcmp() {
    assert_eq!(memcmp(b"abc", b"abd", 3), -1);
    assert_eq!(memcmp(b"abd", b"abc", 3), 1);
    assert_eq!(memcmp(b"abc", b"abd", 2), 0);
    assert_eq!(memcmp(b"\x00", b"\xff", 1), -255);
    assert_eq!(memcmp(b"", b"", 0), 0);
}

#[test]
fn compat_memmove_and_memset() {
    let mut buf = vec![1u8, 2, 3, 4, 5, 6];
    byte_copy_overlap(&mut buf, 0, 2, 4);
    assert_eq!(buf, vec![1, 2, 1, 2, 3, 4]);
    let mut buf2 = vec![1u8, 2, 3, 4, 5, 6];
    byte_copy_overlap(&mut buf2, 2, 0, 4);
    assert_eq!(buf2, vec![3, 4, 5, 6, 5, 6]);
    byte_fill(&mut buf2, 1, 0, 3);
    assert_eq!(buf2, vec![3, 0, 0, 0, 5, 6]);
}

#[test]
fn compat_futex() {
    assert_eq!(futex_syscall(SYS_FUTEX, FUTEX_WAIT), Ok(0));
    assert_eq!(futex_syscall(SYS_FUTEX, FUTEX_WAKE_BITSET | FUTEX_PRIVATE_FLAG), Ok(0));
    assert_eq!(futex_syscall(SYS_FUTEX, 5), Err(ENOSYS));
    assert_eq!(futex_syscall(1, FUTEX_WAIT), Err(ENOSYS));
}

#[test]
fn tls_keys_lifecycle() {
    let mut keys = TlsKeys::new();
    let k0 = keys.create(None).expect("first key");
    let k1 = keys.create(Some(0x1234)).expect("second key");
    assert_eq!((k0, k1), (0, 1));
    assert_eq!(keys.get(k0), 0);
    assert_eq!(keys.set(k0, 42), 0);
    assert_eq!(keys.get(k0), 42);
    assert_eq!(keys.get(k1), 0);
    assert_eq!(keys.delete(k0), 0);
    assert_eq!(keys.get(k0), 0);
    assert_eq!(keys.set(k0, 1), EINVAL);
    assert_eq!(keys.delete(k0), EINVAL);
    assert_eq!(keys.create(None), Ok(0));
    assert_eq!(keys.set(1000, 1), EINVAL);
}

#[test]
fn tls_keys_exhausted() {
    let mut keys = TlsKeys::new();
    for i in 0..MAX_TLS_KEYS {
        assert_eq!(keys.create(None), Ok(i as u32));
    }
    assert_eq!(keys.create(None), Err(ENOMEM));
}

#[test]
fn kernel_table_replacement() {
    let mut slot = KernelTable::new();
    let boot = PageTableRef { id: 1, addr: 0x8000_0000 };
    let first = PageTable::raw_to_own(PageTableRef { id: 2, addr: 0x8010_0000 });
    let prev = slot.replace_kernel_table(first, boot);
    assert_eq!(prev.raw_ref(), boot);
    let second = PageTable::raw_to_own(PageTableRef { id: 3, addr: 0x8020_0000 });
    let prev2 = slot.replace_kernel_table(second, boot);
    assert_eq!(prev2.id(), 2);
    assert_eq!(prev2.addr(), 0x8010_0000);
    assert_eq!(slot.with_kernel_table(|t: &PageTable| t.id()), 3);
}

#[test]
fn kernel_table_set_once() {
    let mut slot = KernelTable::new();
    slot.set_kernal_table(PageTable::raw_to_own(PageTableRef { id: 9, addr: 0x1000 }));
    assert_eq!(slot.with_kernel_table(|t: &PageTable| t.addr()), 0x1000);
}

#[test]
fn power_on_target() {
    assert!(matches!(cpu_on_target(Some(0x8000), Some(3)), Ok((3, 0x8000))));
    assert!(matches!(cpu_on_target(None, Some(3)), Err(CpuOnError::InvalidParameters)));
    assert!(matches!(cpu_on_target(Some(0x8000), None), Err(CpuOnError::InvalidParameters)));
}

#[test]
fn mmu_flag() {
    let mut f = MmuFlag::new();
    assert!(!f.is_mmu_enabled());
    assert_eq!(f.phys_to_virt(0x8000_0000, 0xffff_0000_8000_0000), 0x8000_0000);
    assert_eq!(f.virt_to_phys(0x8000_0000, 0x1234), 0x8000_0000);
    f.set_mmu_enabled();
    assert!(f.is_mmu_enabled());
    assert_eq!(f.phys_to_virt(0x8000_0000, 0xffff_0000_8000_0000), 0xffff_0000_8000_0000);
    assert_eq!(f.virt_to_phys(0xffff_0000_8000_0000, 0x8000_0000), 0x8000_0000);
}

#[test]
fn test_ranges_helpers() {
    let r = TestRange::new(1, 5, RangeKind::TypeB);
    assert_eq!(r.range(), 1..5);
    assert_eq!(r.kind(), RangeKind::TypeB);
    assert!(r.overwritable(0));
    assert_eq!(r.clone_with_range(7..9), TestRange::new(7, 9, RangeKind::TypeB));
    assert_eq!(TestRange::default(), TestRange::new(0, 0, RangeKind::TypeA));
    assert_eq!(RangeKind::default(), RangeKind::TypeA);
}

#[test]
fn compat_allocation_decisions() {
    assert_eq!(calloc_size(4, 8), Ok(32));
    assert_eq!(calloc_size(usize::MAX, 2), Err(ENOMEM));
    assert_eq!(check_memalign(16), Ok(()));
    assert_eq!(check_memalign(8), Ok(()));
    assert_eq!(check_memalign(4), Err(EINVAL));
    assert_eq!(check_memalign(24), Err(EINVAL));
    assert_eq!(realloc_action(true, 10, 0), ReallocAction::Allocate { size: 10 });
    assert_eq!(realloc_action(false, 0, 5), ReallocAction::Free);
    assert_eq!(realloc_action(false, 10, 5), ReallocAction::Move { size: 10, copy_len: 5 });
    assert_eq!(realloc_action(false, 3, 5), ReallocAction::Move { size: 3, copy_len: 3 });
}

#[test]
fn compat_byte_copy_nonoverlapping() {
    let src = [9u8, 8, 7, 6];
    let mut dest = vec![0u8; 5];
    byte_copy_nonoverlapping(&src, &mut dest, 3);
    assert_eq!(dest, vec![9, 8, 7, 0, 0]);
}

#[test]
fn compat_write_decisions() {
    assert_eq!(write_check(1, 5, false), Ok(true));
    assert_eq!(write_check(2, 0, true), Ok(false));
    assert_eq!(write_check(1, 5, true), Err(EFAULT));
    assert_eq!(write_check(3, 5, false), Err(EBADF));
    assert_eq!(writev_total(&[3, 4, 0]), 7);
    assert_eq!(writev_total(&[3, -1, 4]), -1);
    assert_eq!(writev_total(&[]), 0);
}

#[test]
fn fdt_memory_ranges() {
    let r = memories(&[FdtRange { address: 0x4000_0000, size: 0x1000 }, FdtRange { address: 0x8000_0000, size: 0 }]);
    assert_eq!(r, vec![0x4000_0000..0x4000_1000, 0x8000_0000..0x8000_0000]);
    let many: Vec<FdtRange> = (0..200u64).map(|i| FdtRange { address: i << 12, size: 0x1000 }).collect();
    assert_eq!(memories(&many).len(), 128);
}

#[test]
fn sbi_call_results() {
    assert_eq!(sbi_result(0), Ok(()));
    assert_eq!(sbi_result(usize::MAX), Err(-1));
    assert_eq!(sbi_result(2), Err(2));
}

#[test]
fn user_block_lies_inside_allocation() {
    let base = 0x7000_1008usize;
    for (size, align) in [(100usize, 64usize), (1, 8), (0, 1), (4096, 4096)] {
        let plan = alloc_plan(size, align).expect("layout fits");
        let user = user_address(base, plan.alloc_align).expect("aligned address fits");
        assert!(base + ALLOC_HEADER_SIZE <= user);
        assert_eq!(user % plan.alloc_align, 0);
        assert!(user + plan.requested_size <= base + plan.alloc_size);
    }
}

#[test]
fn compat_clock_gettime_checks() {
    assert_eq!(clock_gettime_check(true, 99), Err(EFAULT));
    assert_eq!(clock_gettime_check(false, 99), Err(EINVAL));
    assert_eq!(clock_gettime_check(false, CLOCK_MONOTONIC), Ok(()));
}

#[test]
fn compat_console_write_steps() {
    assert_eq!(write_step(0, 10, 4), WriteStep::Continue(4));
    assert_eq!(write_step(4, 10, 6), WriteStep::Done(10));
    assert_eq!(write_step(4, 10, 0), WriteStep::Done(4));
}

#[test]
fn tls_key_create_needs_a_location() {
    let mut keys = TlsKeys::new();
    assert_eq!(keys.create_for(true, None), Err(EINVAL));
    assert_eq!(keys.create_for(false, None), Ok(0));
    assert_eq!(keys.create_for(false, None), Ok(1));
}

#[test]
fn realloc_failed_move_keeps_old_block() {
    assert_eq!(realloc_finish(true, 5), ReallocFinish::KeepOld);
    assert_eq!(realloc_finish(false, 5), ReallocFinish::CopyAndFree { copy_len: 5 });
}

#[test]
fn cold_boot_head_steps() {
    let mut table = ColdBootTable::new();
    assert_eq!(table.head_step(BOOT_STATE_UNCLAIMED, 3), (BOOT_STATE_PRIMARY_INIT, HeadAction::Primary));
    assert_eq!(table.head_step(BOOT_STATE_PRIMARY_INIT, 1), (BOOT_STATE_PRIMARY_INIT, HeadAction::Wait));
    assert_eq!(table.head_step(BOOT_STATE_PRIMARY_INIT, 64), (BOOT_STATE_PRIMARY_INIT, HeadAction::Park));
    table.prepare_secondary_boot(&[1], &[0x8000]);
    assert_eq!(table.head_step(BOOT_STATE_SECONDARY_READY, 1), (BOOT_STATE_SECONDARY_READY, HeadAction::Wait));
    assert_eq!(table.release_secondary_hart(1), Ok(()));
    assert_eq!(
        table.head_step(BOOT_STATE_SECONDARY_READY, 1),
        (BOOT_STATE_SECONDARY_READY, HeadAction::Secondary { meta: 0x8000 })
    );
    assert_eq!(table.head_step(BOOT_STATE_SECONDARY_READY, 2), (BOOT_STATE_SECONDARY_READY, HeadAction::Wait));
}

fn first_tick() -> u32 {
    1
}

fn second_tick() -> u32 {
    2
}

#[test]
fn timer_handler_last_registration_wins() {
    let mut cell: StaticCell<fn() -> u32> = StaticCell::new(None);
    assert!(cell.try_get().is_none());
    register_timer_handler(&mut cell, first_tick);
    assert_eq!((timer_handler(&cell))(), 1);
    register_timer_handler(&mut cell, second_tick);
    assert_eq!((timer_handler(&cell))(), 2);
}
