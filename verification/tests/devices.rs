use sparreal::dma::{DeviceDma, DmaAddr, DmaDirection, DmaError, DmaHandle, DmaMapHandle, DmaOp, needs_flush, needs_invalidate};
use sparreal::net::{Event, IdList, NetError, RequestId};
use sparreal::nvme::Error as NvmeError;

struct IdentityDma;

impl DmaOp for IdentityDma {
    fn page_size(&self) -> usize {
        0x1000
    }
    fn flush(&self, _addr: usize, _size: usize) {}
    fn invalidate(&self, _addr: usize, _size: usize) {}
    fn flush_invalidate(&self, _addr: usize, _size: usize) {}
    fn prepare_read(&self, _handle: &DmaMapHandle, _offset: usize, _size: usize, _direction: DmaDirection) {}
    fn confirm_write(&self, _handle: &DmaMapHandle, _offset: usize, _size: usize, _direction: DmaDirection) {}
    fn alloc_coherent(&self, _dma_mask: u64, size: usize, align: usize) -> Option<DmaHandle> {
        Some(DmaHandle { cpu_addr: 0x10_0000, dma_addr: DmaAddr(0x10_0000), size, align })
    }
    fn dealloc_coherent(&self, _handle: DmaHandle) {}
    fn map_single(
        &self,
        _dma_mask: u64,
        addr: usize,
        size: usize,
        align: usize,
        _direction: DmaDirection,
    ) -> Result<DmaMapHandle, DmaError> {
        Ok(DmaHandle { cpu_addr: addr, dma_addr: DmaAddr(addr as u64), size, align })
    }
    fn unmap_single(&self, _handle: DmaMapHandle) {}
}

fn device(mask: u64) -> DeviceDma {
    let ops: &'static IdentityDma = Box::leak(Box::new(IdentityDma));
    DeviceDma::new(mask, ops)
}

#[test]
fn dma_handle_checks() {
    let dev = device(0xffff_ffff);
    assert_eq!(dev.dma_mask(), 0xffff_ffff);
    assert_eq!(dev.page_size(), 0x1000);
    let ok = DmaHandle { cpu_addr: 0, dma_addr: DmaAddr(0x1000), size: 0x1000, align: 0x1000 };
    assert_eq!(dev.check_handle(&ok), Ok(()));
    let high = DmaHandle { cpu_addr: 0, dma_addr: DmaAddr(0xffff_f000), size: 0x2000, align: 0x1000 };
    assert_eq!(dev.check_handle(&high), Err(DmaError::DmaMaskNotMatch { addr: DmaAddr(0xffff_f000), mask: 0xffff_ffff }));
    let edge = DmaHandle { cpu_addr: 0, dma_addr: DmaAddr(0xffff_f000), size: 0x1000, align: 0x1000 };
    assert_eq!(dev.check_handle(&edge), Ok(()));
    let unaligned = DmaHandle { cpu_addr: 0, dma_addr: DmaAddr(0x1010), size: 0x10, align: 0x100 };
    assert_eq!(dev.check_handle(&unaligned), Err(DmaError::AlignMismatch { address: DmaAddr(0x1010), required: 0x100 }));
    let empty = DmaHandle { cpu_addr: 0, dma_addr: DmaAddr(0x1_0000_0000), size: 0, align: 1 };
    assert!(matches!(dev.check_handle(&empty), Err(DmaError::DmaMaskNotMatch { .. })));
    let zero_align = DmaHandle { cpu_addr: 0, dma_addr: DmaAddr(0x10), size: 1, align: 0 };
    assert!(matches!(dev.check_handle(&zero_align), Err(DmaError::AlignMismatch { .. })));
}

#[test]
fn dma_map_single_array() {
    let dev = device(0xffff_ffff);
    let p = dev.map_single_array::<u32>(0x2000, 16, 4, DmaDirection::ToDevice).expect("mapping within mask");
    assert_eq!(p.dma_addr(), DmaAddr(0x2000));
    assert_eq!(p.len(), 16);
    assert!(!p.is_empty());
    assert!(matches!(dev.map_single_array::<u32>(0, 16, 4, DmaDirection::ToDevice), Err(DmaError::NullPointer)));
    assert!(matches!(dev.map_single_array::<u32>(0x2000, 0, 4, DmaDirection::ToDevice), Err(DmaError::ZeroSizedBuffer)));
    let narrow = device(0xfff);
    assert!(matches!(
        narrow.map_single_array::<u8>(0x2000, 16, 1, DmaDirection::FromDevice),
        Err(DmaError::DmaMaskNotMatch { .. })
    ));
}

#[test]
fn dma_direction_rules() {
    assert!(needs_flush(DmaDirection::ToDevice));
    assert!(!needs_flush(DmaDirection::FromDevice));
    assert!(needs_flush(DmaDirection::Bidirectional));
    assert!(!needs_invalidate(DmaDirection::ToDevice));
    assert!(needs_invalidate(DmaDirection::FromDevice));
    assert!(needs_invalidate(DmaDirection::Bidirectional));
}

#[test]
fn id_list_membership() {
    let mut l = IdList::none();
    assert!(!l.contains(3));
    l.insert(3);
    l.insert(63);
    l.insert(0);
    assert!(l.contains(3));
    assert!(l.contains(63));
    assert_eq!(l.iter(), vec![0, 3, 63]);
    l.remove(3);
    assert!(!l.contains(3));
    assert_eq!(l.iter(), vec![0, 63]);
    let e = Event::none();
    assert!(e.tx_queue.iter().is_empty());
    assert!(e.rx_queue.iter().is_empty());
}

#[test]
fn request_id_conversion() {
    let id = RequestId::new(7);
    assert_eq!(usize::from(id), 7);
}

#[test]
fn net_error_from_dma() {
    assert!(matches!(NetError::from_dma(DmaError::NoMemory), NetError::NoMemory));
    assert!(matches!(NetError::from_dma(DmaError::NullPointer), NetError::Other(DmaError::NullPointer)));
}

#[test]
fn nvme_error_from_dma() {
    assert!(matches!(NvmeError::from(DmaError::NoMemory), NvmeError::NoMemory));
    assert!(matches!(NvmeError::from(DmaError::LayoutError), NvmeError::Layout));
    assert!(matches!(NvmeError::from(DmaError::ZeroSizedBuffer), NvmeError::Dma(DmaError::ZeroSizedBuffer)));
}

#[test]
fn dma_mapping_decisions() {
    let dev = device(0xffff);
    let good = DmaHandle { cpu_addr: 0, dma_addr: DmaAddr(0x1000), size: 0x100, align: 0x100 };
    let high = DmaHandle { cpu_addr: 0, dma_addr: DmaAddr(0x1_0000), size: 0x100, align: 0x100 };
    let (r, release) = dev.decide_mapping(Ok(good));
    assert!(!release);
    assert_eq!(r.map(|h| h.dma_addr), Ok(DmaAddr(0x1000)));
    let (r, release) = dev.decide_mapping(Ok(high));
    assert!(release);
    assert!(matches!(r, Err(DmaError::DmaMaskNotMatch { addr: DmaAddr(0x1_0000), mask: 0xffff })));
    let (r, release) = dev.decide_mapping(Err(DmaError::NoMemory));
    assert!(!release);
    assert!(matches!(r, Err(DmaError::NoMemory)));
    let (r, release) = dev.decide_allocation(None);
    assert!(!release);
    assert!(matches!(r, Err(DmaError::NoMemory)));
    let (r, release) = dev.decide_allocation(Some(high));
    assert!(release);
    assert!(r.is_err());
}

struct RecordingDma {
    maps: std::cell::RefCell<Vec<(u64, usize, usize, usize)>>,
    reads: std::cell::RefCell<Vec<(usize, usize)>>,
    writes: std::cell::RefCell<Vec<(usize, usize)>>,
}

impl DmaOp for RecordingDma {
    fn page_size(&self) -> usize {
        0x1000
    }
    fn flush(&self, _addr: usize, _size: usize) {}
    fn invalidate(&self, _addr: usize, _size: usize) {}
    fn flush_invalidate(&self, _addr: usize, _size: usize) {}
    fn prepare_read(&self, _handle: &DmaMapHandle, offset: usize, size: usize, _direction: DmaDirection) {
        self.reads.borrow_mut().push((offset, size));
    }
    fn confirm_write(&self, _handle: &DmaMapHandle, offset: usize, size: usize, _direction: DmaDirection) {
        self.writes.borrow_mut().push((offset, size));
    }
    fn alloc_coherent(&self, _dma_mask: u64, _size: usize, _align: usize) -> Option<DmaHandle> {
        None
    }
    fn dealloc_coherent(&self, _handle: DmaHandle) {}
    fn map_single(
        &self,
        dma_mask: u64,
        addr: usize,
        size: usize,
        align: usize,
        _direction: DmaDirection,
    ) -> Result<DmaMapHandle, DmaError> {
        self.maps.borrow_mut().push((dma_mask, addr, size, align));
        Ok(DmaHandle { cpu_addr: addr, dma_addr: DmaAddr(addr as u64), size, align })
    }
    fn unmap_single(&self, _handle: DmaMapHandle) {}
}

#[test]
fn dma_array_requests_and_cache_ranges() {
    let ops: &'static RecordingDma = Box::leak(Box::new(RecordingDma {
        maps: std::cell::RefCell::new(Vec::new()),
        reads: std::cell::RefCell::new(Vec::new()),
        writes: std::cell::RefCell::new(Vec::new()),
    }));
    let dev = DeviceDma::new(0xffff_ffff, ops);
    assert_eq!(dev.clone().dma_mask(), 0xffff_ffff);
    let p = dev.map_single_array::<u64>(0x4000, 8, 8, DmaDirection::Bidirectional).expect("mapping within mask");
    assert_eq!(*ops.maps.borrow(), vec![(0xffff_ffff, 0x4000, 64, 8)]);
    assert_eq!(p.len(), 8);
    assert_eq!(p.prepare_read_at(3), Some(24));
    assert_eq!(p.prepare_read_at(8), None);
    assert_eq!(*ops.reads.borrow(), vec![(24, 8)]);
    assert_eq!(p.confirm_write_at(7), 56);
    p.confirm_copy(4);
    assert_eq!(*ops.writes.borrow(), vec![(56, 8), (0, 64)]);
    assert_eq!(p.prepare_read_all(), 8);
    assert_eq!(*ops.reads.borrow(), vec![(24, 8), (0, 64)]);
}
