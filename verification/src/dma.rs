//! DMA mapping for devices: the handles that the platform hands out, the
//! checks that they meet the device's addressing mask and alignment, and
//! single-buffer mappings.

use vstd::prelude::*;

verus! {

/// A bus address as a device sees it.
#[derive(Debug, Clone, Copy, PartialEq, Eq, Structural)]
pub struct DmaAddr(pub u64);

impl DmaAddr {
    /// The address as a number.
    pub fn as_u64(&self) -> (r: u64)
        ensures
            r == self.0,
    {
        self.0
    }
}

/// The direction of a DMA transfer.
#[derive(Debug, Clone, Copy, PartialEq, Eq, Structural)]
pub enum DmaDirection {
    ToDevice,
    FromDevice,
    Bidirectional,
}

/// Errors of DMA allocation and mapping.
#[derive(Debug, Clone, Copy, PartialEq, Eq, Structural)]
pub enum DmaError {
    /// No memory is left.
    NoMemory,
    /// The size and alignment do not make a valid layout.
    LayoutError,
    /// The buffer does not lie below the device's addressing mask.
    DmaMaskNotMatch { addr: DmaAddr, mask: u64 },
    /// The bus address is not aligned as required.
    AlignMismatch { address: DmaAddr, required: usize },
    /// The buffer address is null.
    NullPointer,
    /// The buffer is empty.
    ZeroSizedBuffer,
}

/// A DMA-capable allocation or mapping: its CPU address, bus address, size
/// and alignment.
#[derive(Debug, Clone, Copy)]
pub struct DmaHandle {
    pub cpu_addr: usize,
    pub dma_addr: DmaAddr,
    pub size: usize,
    pub align: usize,
}

impl DmaHandle {
    /// Bytes of the buffer.
    pub fn size(&self) -> (r: usize)
        ensures
            r == self.size,
    {
        self.size
    }

    /// Required alignment of the buffer.
    pub fn align(&self) -> (r: usize)
        ensures
            r == self.align,
    {
        self.align
    }
}

/// A mapping of an existing buffer for DMA.
pub type DmaMapHandle = DmaHandle;

/// The DMA services of a platform, which it implements for its devices.
pub trait DmaOp {
    /// The page size of this platform; a platform states it by giving this
    /// function a body.
    closed spec fn spec_page_size(&self) -> usize {
        arbitrary()
    }

    /// Bytes of a page.
    fn page_size(&self) -> (r: usize)
        ensures
            r == self.spec_page_size(),
    ;

    /// Writes cached data of `[addr, addr + size)` back to memory.
    fn flush(&self, addr: usize, size: usize);

    /// Drops cached data of `[addr, addr + size)`.
    fn invalidate(&self, addr: usize, size: usize);

    /// Writes back, then drops, cached data of `[addr, addr + size)`.
    fn flush_invalidate(&self, addr: usize, size: usize);

    /// Makes what the device wrote into `handle` visible to the CPU.
    fn prepare_read(&self, handle: &DmaMapHandle, offset: usize, size: usize, direction: DmaDirection);

    /// Makes what the CPU wrote into `handle` visible to the device.
    fn confirm_write(&self, handle: &DmaMapHandle, offset: usize, size: usize, direction: DmaDirection);

    /// `r` is this platform's answer to a request for `size` bytes aligned
    /// to `align` below `dma_mask`.
    closed spec fn alloc_answer(&self, dma_mask: u64, size: usize, align: usize, r: Option<DmaHandle>) -> bool {
        true
    }

    /// `r` is this platform's answer to a request to map `[addr, addr + size)`
    /// with alignment `align` in `direction` below `dma_mask`.
    closed spec fn map_answer(
        &self,
        dma_mask: u64,
        addr: usize,
        size: usize,
        align: usize,
        direction: DmaDirection,
        r: Result<DmaMapHandle, DmaError>,
    ) -> bool {
        true
    }

    /// Allocates DMA-capable memory below `dma_mask`, or `None`.
    fn alloc_coherent(&self, dma_mask: u64, size: usize, align: usize) -> (r: Option<DmaHandle>)
        ensures
            self.alloc_answer(dma_mask, size, align, r),
    ;

    /// Releases memory from `alloc_coherent`.
    fn dealloc_coherent(&self, handle: DmaHandle);

    /// Maps `[addr, addr + size)` for DMA below `dma_mask`.
    fn map_single(
        &self,
        dma_mask: u64,
        addr: usize,
        size: usize,
        align: usize,
        direction: DmaDirection,
    ) -> (r: Result<DmaMapHandle, DmaError>)
        ensures
            self.map_answer(dma_mask, addr, size, align, direction, r),
    ;

    /// Releases a mapping from `map_single`.
    fn unmap_single(&self, handle: DmaMapHandle);
}

/// The device may only write into the buffer: the CPU must drop its cached
/// copy before reading.
pub open spec fn invalidates_before_read(direction: DmaDirection) -> bool {
    direction == DmaDirection::FromDevice || direction == DmaDirection::Bidirectional
}

/// The device reads the buffer: the CPU must write its cached data back.
pub open spec fn flushes_after_write(direction: DmaDirection) -> bool {
    direction == DmaDirection::ToDevice || direction == DmaDirection::Bidirectional
}

/// Whether the cache must be invalidated before the CPU reads a buffer.
pub fn needs_invalidate(direction: DmaDirection) -> (r: bool)
    ensures
        r == invalidates_before_read(direction),
{
    match direction {
        DmaDirection::FromDevice | DmaDirection::Bidirectional => true,
        DmaDirection::ToDevice => false,
    }
}

/// Whether the cache must be flushed after the CPU wrote a buffer.
pub fn needs_flush(direction: DmaDirection) -> (r: bool)
    ensures
        r == flushes_after_write(direction),
{
    match direction {
        DmaDirection::ToDevice | DmaDirection::Bidirectional => true,
        DmaDirection::FromDevice => false,
    }
}

/// Cache maintenance of a platform, with the direction rules of DMA.
pub trait Osal {
    /// Bytes of a page.
    fn page_size(&self) -> usize;

    /// Writes cached data of `[addr, addr + size)` back to memory.
    fn flush(&self, addr: usize, size: usize);

    /// Drops cached data of `[addr, addr + size)`.
    fn invalidate(&self, addr: usize, size: usize);

    /// Before the CPU reads a buffer that the device may have written,
    /// invalidates the cache lines of the buffer.
    fn prepare_read(&self, addr: usize, size: usize, direction: DmaDirection) {
        if needs_invalidate(direction) {
            self.invalidate(addr, size);
        }
    }

    /// After the CPU wrote a buffer that the device will read, flushes the
    /// cache lines of the buffer.
    fn confirm_write(&self, addr: usize, size: usize, direction: DmaDirection) {
        if needs_flush(direction) {
            self.flush(addr, size);
        }
    }
}

/// `a` is a multiple of `b` (for `b == 0`: `a` is 0).
pub open spec fn multiple_of(a: u64, b: u64) -> bool {
    if b == 0 {
        a == 0
    } else {
        a % b == 0
    }
}

/// The buffer of `h` lies entirely at or below the addressing mask `mask`.
pub open spec fn within_mask(h: DmaHandle, mask: u64) -> bool {
    if h.size == 0 {
        h.dma_addr.0 <= mask
    } else {
        h.dma_addr.0 + h.size - 1 <= mask
    }
}

/// What the checks of a handle conclude: the mask first, then alignment.
pub open spec fn handle_check(h: DmaHandle, mask: u64) -> Result<(), DmaError> {
    if !within_mask(h, mask) {
        Err(DmaError::DmaMaskNotMatch { addr: h.dma_addr, mask })
    } else if !multiple_of(h.dma_addr.0, h.align as u64) {
        Err(DmaError::AlignMismatch { address: h.dma_addr, required: h.align })
    } else {
        Ok(())
    }
}

/// What a device does with the platform's answer to a mapping request: a
/// platform error is passed on; a handle that passes the checks is kept; a
/// handle that fails them is released (`true`) and the check's error returned.
pub open spec fn map_decision(o: Result<DmaMapHandle, DmaError>, mask: u64) -> (Result<DmaMapHandle, DmaError>, bool) {
    match o {
        Err(e) => (Err(e), false),
        Ok(h) => match handle_check(h, mask) {
            Ok(()) => (Ok(h), false),
            Err(e) => (Err(e), true),
        },
    }
}

/// What a device does with the platform's answer to an allocation request:
/// no memory is `NoMemory`; a handle that passes the checks is kept; a handle
/// that fails them is released (`true`) and the check's error returned.
pub open spec fn alloc_decision(o: Option<DmaHandle>, mask: u64) -> (Result<DmaHandle, DmaError>, bool) {
    match o {
        None => (Err(DmaError::NoMemory), false),
        Some(h) => match handle_check(h, mask) {
            Ok(()) => (Ok(h), false),
            Err(e) => (Err(e), true),
        },
    }
}

/// A device's view of DMA: the platform's services and its addressing mask.
#[derive(Clone, Copy)]
pub struct DeviceDma {
    os: &'static dyn DmaOp,
    mask: u64,
}

impl DeviceDma {
    /// A device with addressing mask `dma_mask` served by `osal`.
    pub fn new(dma_mask: u64, osal: &'static dyn DmaOp) -> (r: DeviceDma)
        ensures
            r.mask() == dma_mask,
    {
        DeviceDma { mask: dma_mask, os: osal }
    }

    /// `r` is the platform's answer to a request of this device for `size`
    /// bytes aligned to `align`.
    pub closed spec fn alloc_answer(&self, size: usize, align: usize, r: Option<DmaHandle>) -> bool {
        self.os.alloc_answer(self.mask, size, align, r)
    }

    /// `r` is the platform's answer to a request of this device to map
    /// `[addr, addr + size)` with alignment `align` in `direction`.
    pub closed spec fn map_answer(
        &self,
        addr: usize,
        size: usize,
        align: usize,
        direction: DmaDirection,
        r: Result<DmaMapHandle, DmaError>,
    ) -> bool {
        self.os.map_answer(self.mask, addr, size, align, direction, r)
    }

    /// The addressing mask.
    pub closed spec fn mask(&self) -> u64 {
        self.mask
    }

    /// The addressing mask.
    pub fn dma_mask(&self) -> (r: u64)
        ensures
            r == self.mask(),
    {
        self.mask
    }

    /// Writes cached data of `[addr, addr + size)` back to memory.
    pub fn flush(&self, addr: usize, size: usize) {
        self.os.flush(addr, size)
    }

    /// Drops cached data of `[addr, addr + size)`.
    pub fn invalidate(&self, addr: usize, size: usize) {
        self.os.invalidate(addr, size)
    }

    /// Writes back, then drops, cached data of `[addr, addr + size)`.
    pub fn flush_invalidate(&self, addr: usize, size: usize) {
        self.os.flush_invalidate(addr, size)
    }

    /// The page size of the device's platform.
    pub closed spec fn platform_page_size(&self) -> usize {
        self.os.spec_page_size()
    }

    /// Bytes of a page, as the device's platform gives it.
    pub fn page_size(&self) -> (r: usize)
        ensures
            r == self.platform_page_size(),
    {
        self.os.page_size()
    }

    fn prepare_read(&self, handle: &DmaMapHandle, offset: usize, size: usize, direction: DmaDirection) {
        self.os.prepare_read(handle, offset, size, direction)
    }

    fn confirm_write(&self, handle: &DmaMapHandle, offset: usize, size: usize, direction: DmaDirection) {
        self.os.confirm_write(handle, offset, size, direction)
    }

    /// Checks that the buffer of `handle` lies at or below the addressing
    /// mask, then that its bus address has the required alignment.
    pub fn check_handle(&self, handle: &DmaHandle) -> (r: Result<(), DmaError>)
        ensures
            r == handle_check(*handle, self.mask()),
    {
        let addr: u64 = handle.dma_addr.as_u64();
        let size = handle.size();
        let in_mask = if size == 0 {
            addr <= self.dma_mask()
        } else {
            match addr.checked_add((size - 1) as u64) {
                Some(end) => end <= self.dma_mask(),
                None => false,
            }
        };
        if !in_mask {
            return Err(DmaError::DmaMaskNotMatch { addr: handle.dma_addr, mask: self.dma_mask() });
        }
        let align = handle.align() as u64;
        let is_aligned = if align == 0 {
            addr == 0
        } else {
            addr % align == 0
        };
        if !is_aligned {
            return Err(DmaError::AlignMismatch { address: handle.dma_addr, required: handle.align() });
        }
        Ok(())
    }

    /// Decides on the platform's answer `res` to a mapping request: what to
    /// return, and whether the mapping must be released first.
    pub fn decide_mapping(&self, res: Result<DmaMapHandle, DmaError>) -> (r: (Result<DmaMapHandle, DmaError>, bool))
        ensures
            r == map_decision(res, self.mask()),
    {
        match res {
            Err(e) => (Err(e), false),
            Ok(h) => match self.check_handle(&h) {
                Ok(()) => (Ok(h), false),
                Err(e) => (Err(e), true),
            },
        }
    }

    /// Decides on the platform's answer `res` to an allocation request: what
    /// to return, and whether the allocation must be released first.
    pub fn decide_allocation(&self, res: Option<DmaHandle>) -> (r: (Result<DmaHandle, DmaError>, bool))
        ensures
            r == alloc_decision(res, self.mask()),
    {
        match res {
            None => (Err(DmaError::NoMemory), false),
            Some(h) => match self.check_handle(&h) {
                Ok(()) => (Ok(h), false),
                Err(e) => (Err(e), true),
            },
        }
    }

    /// Allocates DMA-capable memory of `size` bytes aligned to `align`; the
    /// allocation is released again when it fails the handle checks.
    fn alloc_coherent(&self, size: usize, align: usize) -> (r: Result<DmaHandle, DmaError>)
        ensures
            exists|o: Option<DmaHandle>|
                self.alloc_answer(size, align, o) && r == alloc_decision(o, self.mask()).0,
    {
        let res = self.os.alloc_coherent(self.mask, size, align);
        assert(self.alloc_answer(size, align, res));
        let decided = self.decide_allocation(res);
        if decided.1 {
            if let Some(h) = res {
                self.os.dealloc_coherent(h);
            }
        }
        decided.0
    }

    /// Maps `[addr, addr + size)` for DMA; the mapping is released again when
    /// it fails the handle checks.
    fn map_single_checked(&self, addr: usize, size: usize, align: usize, direction: DmaDirection) -> (r: Result<DmaMapHandle, DmaError>)
        ensures
            exists|o: Result<DmaMapHandle, DmaError>|
                self.map_answer(addr, size, align, direction, o) && r == map_decision(
                    o,
                    self.mask(),
                ).0,
    {
        let res = self.os.map_single(self.mask, addr, size, align, direction);
        assert(self.map_answer(addr, size, align, direction, res));
        let decided = self.decide_mapping(res);
        if decided.1 {
            if let Ok(h) = res {
                self.os.unmap_single(h);
            }
        }
        decided.0
    }

    /// Maps the `len` items of type `T` at `addr` for DMA in `direction`:
    /// a null address and an empty buffer are refused; otherwise the
    /// platform is asked to map the buffer's bytes, and its answer is decided
    /// on as `decide_mapping` does.
    pub fn map_single_array<T>(&self, addr: usize, len: usize, align: usize, direction: DmaDirection) -> (r: Result<SArrayPtr<T>, DmaError>)
        requires
            len * vstd::layout::size_of::<T>() <= usize::MAX,
        ensures
            addr == 0 ==> r == Err::<SArrayPtr<T>, DmaError>(DmaError::NullPointer),
            addr != 0 && len * vstd::layout::size_of::<T>() == 0 ==> r == Err::<SArrayPtr<T>, DmaError>(DmaError::ZeroSizedBuffer),
            addr != 0 && len * vstd::layout::size_of::<T>() != 0 ==> exists|o: Result<DmaMapHandle, DmaError>|
                self.map_answer(addr, (len * vstd::layout::size_of::<T>()) as usize, align, direction, o)
                    && array_outcome(r, map_decision(o, self.mask()).0, direction),
            r matches Ok(p) ==> p.device() == *self && handle_check(p.handle(), self.mask()) == Ok::<(), DmaError>(()),
    {
        SArrayPtr::map_single(self, addr, len, align, direction)
    }
}

/// A device mapping of one contiguous array of `T`.
pub struct SArrayPtr<T> {
    handle: DmaMapHandle,
    osal: DeviceDma,
    pub direction: DmaDirection,
    _marker: core::marker::PhantomData<T>,
}

/// The array mapping `r` is what the device decided, `d`: the same error, or
/// an array over the decided mapping with the requested direction.
pub open spec fn array_outcome<T>(r: Result<SArrayPtr<T>, DmaError>, d: Result<DmaMapHandle, DmaError>, direction: DmaDirection) -> bool {
    match r {
        Ok(p) => d == Ok::<DmaMapHandle, DmaError>(p.handle()) && p.spec_direction() == direction,
        Err(e) => d == Err::<DmaMapHandle, DmaError>(e),
    }
}

impl<T> SArrayPtr<T> {
    /// The mapping.
    pub closed spec fn handle(&self) -> DmaMapHandle {
        self.handle
    }

    /// The device whose platform made the mapping.
    pub closed spec fn device(&self) -> DeviceDma {
        self.osal
    }

    /// The direction of the mapping.
    pub closed spec fn spec_direction(&self) -> DmaDirection {
        self.direction
    }

    fn map_single(os: &DeviceDma, addr: usize, len: usize, align: usize, direction: DmaDirection) -> (r: Result<Self, DmaError>)
        requires
            len * vstd::layout::size_of::<T>() <= usize::MAX,
        ensures
            addr == 0 ==> r == Err::<Self, DmaError>(DmaError::NullPointer),
            addr != 0 && len * vstd::layout::size_of::<T>() == 0 ==> r == Err::<Self, DmaError>(DmaError::ZeroSizedBuffer),
            addr != 0 && len * vstd::layout::size_of::<T>() != 0 ==> exists|o: Result<DmaMapHandle, DmaError>|
                os.map_answer(addr, (len * vstd::layout::size_of::<T>()) as usize, align, direction, o)
                    && array_outcome(r, map_decision(o, os.mask()).0, direction),
            r matches Ok(p) ==> p.device() == *os && handle_check(p.handle(), os.mask()) == Ok::<(), DmaError>(()),
    {
        if addr == 0 {
            return Err(DmaError::NullPointer);
        }
        let size = len * core::mem::size_of::<T>();
        if size == 0 {
            return Err(DmaError::ZeroSizedBuffer);
        }
        match os.map_single_checked(addr, size, align, direction) {
            Ok(handle) => Ok(SArrayPtr { handle, osal: *os, direction, _marker: core::marker::PhantomData }),
            Err(e) => Err(e),
        }
    }

    /// The bus address of the array.
    pub fn dma_addr(&self) -> (r: DmaAddr)
        ensures
            r == self.handle().dma_addr,
    {
        self.handle.dma_addr
    }

    /// Items in the array: the mapped bytes divided by the item size.
    pub fn len(&self) -> (r: usize)
        requires
            vstd::layout::size_of::<T>() > 0,
        ensures
            r == (self.handle().size as nat) / vstd::layout::size_of::<T>(),
    {
        self.handle.size / core::mem::size_of::<T>()
    }

    /// The array holds no item.
    pub fn is_empty(&self) -> (r: bool)
        requires
            vstd::layout::size_of::<T>() > 0,
        ensures
            r == ((self.handle().size as nat) / vstd::layout::size_of::<T>() == 0),
    {
        self.len() == 0
    }

    /// Before item `index` is read: `None` when it lies beyond the array;
    /// otherwise makes what the device wrote into the item visible to the CPU
    /// and gives the item's byte offset in the mapping.
    pub fn prepare_read_at(&self, index: usize) -> (r: Option<usize>)
        requires
            vstd::layout::size_of::<T>() > 0,
        ensures
            index >= (self.handle().size as nat) / vstd::layout::size_of::<T>() ==> r == None::<usize>,
            index < (self.handle().size as nat) / vstd::layout::size_of::<T>() ==> r == Some(
                (index * vstd::layout::size_of::<T>()) as usize,
            ),
    {
        if index >= self.len() {
            return None;
        }
        let item = core::mem::size_of::<T>();
        proof {
            lemma_item_within(index as int, item as int, self.handle.size as int);
        }
        let offset = index * item;
        self.osal.prepare_read(&self.handle, offset, item, self.direction);
        Some(offset)
    }

    /// After item `index` was written: makes the CPU's write visible to the
    /// device, and gives the item's byte offset in the mapping.
    pub fn confirm_write_at(&self, index: usize) -> (r: usize)
        requires
            vstd::layout::size_of::<T>() > 0,
            index < (self.handle().size as nat) / vstd::layout::size_of::<T>(),
        ensures
            r == index * vstd::layout::size_of::<T>(),
    {
        let item = core::mem::size_of::<T>();
        proof {
            lemma_item_within(index as int, item as int, self.handle.size as int);
        }
        let offset = index * item;
        self.osal.confirm_write(&self.handle, offset, item, self.direction);
        offset
    }

    /// After `count` items were copied in from the start: makes the whole
    /// mapping visible to the device. The items must fit in the mapping.
    pub fn confirm_copy(&self, count: usize)
        requires
            count * vstd::layout::size_of::<T>() <= self.handle().size,
    {
        self.osal.confirm_write(&self.handle, 0, self.handle.size, self.direction);
    }

    /// Before the whole array is read out: makes what the device wrote
    /// visible to the CPU, and gives the number of items to read.
    pub fn prepare_read_all(&self) -> (r: usize)
        requires
            vstd::layout::size_of::<T>() > 0,
        ensures
            r == (self.handle().size as nat) / vstd::layout::size_of::<T>(),
    {
        self.osal.prepare_read(&self.handle, 0, self.handle.size, self.direction);
        self.len()
    }
}

/// Item `index` of an array of `size` bytes with items of `item` bytes lies
/// within the array.
proof fn lemma_item_within(index: int, item: int, size: int)
    requires
        item > 0,
        0 <= index < size / item,
        size >= 0,
    ensures
        index * item + item <= size,
{
    assert(index * item + item <= size) by (nonlinear_arith)
        requires
            item > 0,
            0 <= index < size / item,
            size >= 0,
    {
        assert((index + 1) * item <= (size / item) * item);
        assert((size / item) * item <= size);
    }
}

/// An array whose mapping covers exactly `n` items' bytes holds `n` items, and
/// is empty only when `n` is zero.
pub proof fn lemma_exact_mapping_len<T>(p: SArrayPtr<T>, n: nat)
    requires
        vstd::layout::size_of::<T>() > 0,
        p.handle().size == n * vstd::layout::size_of::<T>(),
    ensures
        (p.handle().size as nat) / vstd::layout::size_of::<T>() == n,
        ((p.handle().size as nat) / vstd::layout::size_of::<T>() == 0) <==> n == 0,
{
    let s = vstd::layout::size_of::<T>() as int;
    assert((n * s) / s == n) by (nonlinear_arith)
        requires
            s > 0,
    ;
}

} // verus!
