//! The C runtime services that the kernel offers to programs built against
//! the standard library: allocation bookkeeping, errno values, time, byte
//! copies, thread-local keys and the futex system call.

use vstd::prelude::*;

verus! {

pub const EBADF: i32 = 9;
pub const EFAULT: i32 = 14;
pub const EINVAL: i32 = 22;
pub const ENOMEM: i32 = 12;
pub const ENOSYS: i32 = 38;
pub const ERANGE: i32 = 34;

pub const CLOCK_REALTIME: i32 = 0;
pub const CLOCK_MONOTONIC: i32 = 1;

pub const SYS_FUTEX: i64 = 98;
pub const FUTEX_WAIT: i32 = 0;
pub const FUTEX_WAKE: i32 = 1;
pub const FUTEX_WAIT_BITSET: i32 = 9;
pub const FUTEX_WAKE_BITSET: i32 = 10;
pub const FUTEX_PRIVATE_FLAG: i32 = 128;
pub const FUTEX_CLOCK_REALTIME: i32 = 256;

/// Most thread-local keys.
pub const MAX_TLS_KEYS: usize = 64;

/// Bytes of the header stored in front of each allocation.
pub const ALLOC_HEADER_SIZE: usize = 32;
/// Alignment of that header.
pub const ALLOC_HEADER_ALIGN: usize = 8;
/// Bytes of a `usize`.
pub const WORD_SIZE: usize = 8;

/// A point in time in seconds and nanoseconds.
#[derive(Debug, Clone, Copy, PartialEq, Eq, Structural)]
pub struct Timespec {
    pub tv_sec: i64,
    pub tv_nsec: i64,
}

/// `value` rounded up with the low-bit mask of `align`: `None` when `align`
/// is 0 or the sum overflows.
pub open spec fn spec_align_up(value: usize, align: usize) -> Option<usize> {
    if align == 0 || value + (align - 1) > usize::MAX {
        None
    } else {
        Some(((value + (align - 1)) as usize) & !((align - 1) as usize))
    }
}

/// Rounds `value` up with the mask `align - 1`; `None` when `align` is 0 or
/// the sum overflows.
pub fn align_up(value: usize, align: usize) -> (r: Option<usize>)
    ensures
        r == spec_align_up(value, align),
{
    let mask = match align.checked_sub(1) {
        Some(m) => m,
        None => return None,
    };
    match value.checked_add(mask) {
        Some(v) => Some(v & !mask),
        None => None,
    }
}

/// For a power-of-two alignment, rounding up gives the smallest multiple of
/// `align` at or above `value`: the next `align` bytes from `value` hold it,
/// and its bits below `align` are clear.
pub proof fn lemma_align_up_power_of_two(value: usize, align: usize)
    requires
        align > 0,
        align & (align - 1) as usize == 0,
        value + (align - 1) <= usize::MAX,
    ensures
        spec_align_up(value, align) matches Some(r) && value <= r < value + align && r & (align - 1) as usize == 0,
{
    let m = (align - 1) as usize;
    let v = (value + m) as usize;
    assert((v & !m) <= v && v - (v & !m) <= m && (v & !m) & m == 0) by (bit_vector);
}

/// The user block of an accepted allocation lies inside it: the user address
/// leaves room for the header after the allocation's base, is aligned, and
/// the requested bytes after it end within the allocation.
pub proof fn lemma_user_block_fits(size: usize, align: usize, base: usize)
    requires
        alloc_layout(size, align) is Ok,
        base + alloc_layout(size, align)->Ok_0.alloc_size <= usize::MAX,
    ensures
        ({
            let p = alloc_layout(size, align)->Ok_0;
            spec_align_up((base + ALLOC_HEADER_SIZE) as usize, p.alloc_align) matches Some(u) && base
                + ALLOC_HEADER_SIZE <= u && u & (p.alloc_align - 1) as usize == 0 && u + p.requested_size
                <= base + p.alloc_size
        }),
{
    let p = alloc_layout(size, align)->Ok_0;
    let a = p.alloc_align;
    lemma_align_up_power_of_two((base + ALLOC_HEADER_SIZE) as usize, a);
}

/// The alignment of a user allocation: at least that of the header and of a word.
pub fn user_align(align: usize) -> (r: usize)
    ensures
        r >= align && r >= ALLOC_HEADER_ALIGN && r >= WORD_SIZE,
        r == align || r == ALLOC_HEADER_ALIGN || r == WORD_SIZE,
{
    let a = if align > ALLOC_HEADER_ALIGN { align } else { ALLOC_HEADER_ALIGN };
    if a > WORD_SIZE { a } else { WORD_SIZE }
}

/// How an allocation of a user request is laid out.
#[derive(Debug, Clone, Copy, PartialEq, Eq, Structural)]
pub struct AllocPlan {
    /// Bytes the user asked for (at least 1).
    pub requested_size: usize,
    /// Alignment of the underlying allocation.
    pub alloc_align: usize,
    /// Bytes of the underlying allocation: request, header and alignment slack.
    pub alloc_size: usize,
}

/// The layout of an allocation of `size` bytes aligned to `align`: at least
/// one byte, an alignment of at least the header's, and room for the request,
/// the header and the alignment slack; `ENOMEM` when that overflows, and
/// `EINVAL` when the allocator refuses the layout (the alignment is not a
/// power of two, or the size rounded up to it passes `isize::MAX`).
pub open spec fn alloc_layout(size: usize, align: usize) -> Result<AllocPlan, i32> {
    let req: int = if size > 1 { size as int } else { 1 };
    let a = if align >= ALLOC_HEADER_ALIGN { align } else { ALLOC_HEADER_ALIGN };
    let total = req + ALLOC_HEADER_SIZE + a;
    if total > usize::MAX {
        Err(ENOMEM)
    } else if a & (a - 1) as usize != 0 || total > isize::MAX - (a - 1) {
        Err(EINVAL)
    } else {
        Ok(AllocPlan { requested_size: req as usize, alloc_align: a, alloc_size: total as usize })
    }
}

/// Lays out an allocation of `size` bytes aligned to `align`; `ENOMEM` when
/// the sizes overflow, `EINVAL` when the layout is not a valid one.
pub fn alloc_plan(size: usize, align: usize) -> (r: Result<AllocPlan, i32>)
    ensures
        r == alloc_layout(size, align),
{
    let requested_size = if size > 1 { size } else { 1 };
    let alloc_align = user_align(align);
    let alloc_size = match requested_size.checked_add(ALLOC_HEADER_SIZE) {
        Some(s) => match s.checked_add(alloc_align) {
            Some(t) => t,
            None => return Err(ENOMEM),
        },
        None => return Err(ENOMEM),
    };
    if alloc_align & (alloc_align - 1) != 0 || alloc_align - 1 > isize::MAX as usize
        || alloc_size > (isize::MAX as usize) - (alloc_align - 1) {
        return Err(EINVAL);
    }
    Ok(AllocPlan { requested_size, alloc_align, alloc_size })
}

/// Where the user part of an allocation at `base` starts: the first address
/// aligned to `alloc_align` after room for the header; `None` on overflow.
pub fn user_address(base: usize, alloc_align: usize) -> (r: Option<usize>)
    requires
        base + ALLOC_HEADER_SIZE <= usize::MAX,
    ensures
        r == spec_align_up((base + ALLOC_HEADER_SIZE) as usize, alloc_align),
{
    align_up(base + ALLOC_HEADER_SIZE, alloc_align)
}

/// The time `secs` seconds and `nanos` nanoseconds as a `Timespec`.
pub fn duration_to_timespec(secs: u64, nanos: u32) -> (r: Timespec)
    ensures
        r.tv_sec == secs as i64,
        r.tv_nsec == nanos as i64,
{
    Timespec { tv_sec: secs as i64, tv_nsec: nanos as i64 }
}

/// Checks a request for the time: `EFAULT` when the result location is
/// missing (checked first), `EINVAL` for a clock that is not served.
pub fn clock_gettime_check(tp_is_null: bool, clock_id: i32) -> (r: Result<(), i32>)
    ensures
        r == (if tp_is_null {
            Err::<(), i32>(EFAULT)
        } else if clock_id == CLOCK_MONOTONIC || clock_id == CLOCK_REALTIME {
            Ok::<(), i32>(())
        } else {
            Err::<(), i32>(EINVAL)
        }),
{
    if tp_is_null {
        return Err(EFAULT);
    }
    clock_supported(clock_id)
}

/// The clock `clock_id` is served (both are time since boot); `EINVAL` otherwise.
pub fn clock_supported(clock_id: i32) -> (r: Result<(), i32>)
    ensures
        r == (if clock_id == CLOCK_MONOTONIC || clock_id == CLOCK_REALTIME {
            Ok::<(), i32>(())
        } else {
            Err::<(), i32>(EINVAL)
        }),
{
    if clock_id == CLOCK_MONOTONIC || clock_id == CLOCK_REALTIME {
        Ok(())
    } else {
        Err(EINVAL)
    }
}

/// The text of an error number.
pub open spec fn error_text(errnum: i32) -> Seq<char> {
    if errnum == ENOSYS {
        "Function not implemented"@
    } else if errnum == ENOMEM {
        "Out of memory"@
    } else if errnum == EINVAL {
        "Invalid argument"@
    } else if errnum == ERANGE {
        "Result too large"@
    } else if errnum == EBADF {
        "Bad file descriptor"@
    } else {
        "Unknown error"@
    }
}

/// The text of an error number, `Unknown error` for others.
pub fn strerror_message(errnum: i32) -> (r: &'static str)
    ensures
        r@ == error_text(errnum),
{
    if errnum == ENOSYS {
        "Function not implemented"
    } else if errnum == ENOMEM {
        "Out of memory"
    } else if errnum == EINVAL {
        "Invalid argument"
    } else if errnum == ERANGE {
        "Result too large"
    } else if errnum == EBADF {
        "Bad file descriptor"
    } else {
        "Unknown error"
    }
}

/// Bytes of `message` that `copy_message` copies into a buffer of `buflen`
/// bytes: all that fit before the terminating zero.
pub open spec fn copied_len(buflen: int, message_len: int) -> int {
    if buflen - 1 < message_len {
        buflen - 1
    } else {
        message_len
    }
}

/// Copies as much of `message` as fits into `buf` with a terminating zero:
/// `ERANGE` for an empty buffer, else 0.
pub fn copy_message(buf: &mut Vec<u8>, message: &[u8]) -> (r: i32)
    ensures
        final(buf)@.len() == old(buf)@.len(),
        old(buf)@.len() == 0 ==> r == ERANGE && final(buf)@ == old(buf)@,
        old(buf)@.len() > 0 ==> r == 0 && ({
            let n = copied_len(old(buf)@.len() as int, message@.len() as int);
            &&& forall|i: int| 0 <= i < n ==> final(buf)@[i] == message@[i]
            &&& final(buf)@[n] == 0
            &&& forall|i: int| n < i < old(buf)@.len() ==> final(buf)@[i] == old(buf)@[i]
        }),
{
    let buflen = buf.len();
    if buflen == 0 {
        return ERANGE;
    }
    let copy_len = if buflen - 1 < message.len() { buflen - 1 } else { message.len() };
    let ghost orig = buf@;
    for index in 0..copy_len
        invariant
            copy_len < buf@.len(),
            copy_len <= message@.len(),
            buf@.len() == orig.len(),
            forall|i: int| 0 <= i < index ==> buf@[i] == message@[i],
            forall|i: int| index <= i < orig.len() ==> buf@[i] == orig[i],
    {
        buf.set(index, message[index]);
    }
    buf.set(copy_len, 0);
    0
}

/// Writes the current directory, `/`, as a zero-terminated string into
/// `buf`: `ERANGE` when fewer than 2 bytes are available.
pub fn getcwd(buf: &mut Vec<u8>) -> (r: Result<(), i32>)
    ensures
        final(buf)@.len() == old(buf)@.len(),
        old(buf)@.len() < 2 ==> r == Err::<(), i32>(ERANGE) && final(buf)@ == old(buf)@,
        old(buf)@.len() >= 2 ==> r == Ok::<(), i32>(()) && final(buf)@ == old(buf)@.update(0, 0x2f).update(1, 0),
{
    if buf.len() < 2 {
        return Err(ERANGE);
    }
    buf.set(0, 0x2f);
    buf.set(1, 0);
    Ok(())
}

/// `lhs` and `rhs` agree on their first `n` bytes, or the difference at the
/// first byte where they part.
pub open spec fn compare_bytes(lhs: Seq<u8>, rhs: Seq<u8>, n: int) -> i32
    decreases n,
{
    if n <= 0 {
        0
    } else {
        let prev = compare_bytes(lhs, rhs, n - 1);
        if prev != 0 {
            prev
        } else if lhs[n - 1] != rhs[n - 1] {
            (lhs[n - 1] - rhs[n - 1]) as i32
        } else {
            0
        }
    }
}

proof fn lemma_compare_rest(lhs: Seq<u8>, rhs: Seq<u8>, m: int, n: int)
    requires
        0 < m <= n,
        compare_bytes(lhs, rhs, m) != 0,
    ensures
        compare_bytes(lhs, rhs, n) == compare_bytes(lhs, rhs, m),
    decreases n - m,
{
    if m < n {
        lemma_compare_rest(lhs, rhs, m, n - 1);
    }
}

/// `compare_bytes` over the first `n` bytes.
pub open spec fn compare_prefix(lhs: Seq<u8>, rhs: Seq<u8>, n: usize) -> i32 {
    compare_bytes(lhs, rhs, n as int)
}

/// The difference of two bytes.
fn byte_difference(a: u8, b: u8) -> (r: i32)
    ensures
        r == a - b,
{
    a as i32 - b as i32
}

proof fn lemma_first_difference(lhs: Seq<u8>, rhs: Seq<u8>, i: usize, n: usize)
    requires
        i < n <= lhs.len(),
        n <= rhs.len(),
        compare_prefix(lhs, rhs, i) == 0,
        lhs[i as int] != rhs[i as int],
    ensures
        compare_prefix(lhs, rhs, n) == lhs[i as int] - rhs[i as int],
{
    assert(compare_bytes(lhs, rhs, i + 1) == (lhs[i as int] - rhs[i as int]) as i32);
    assert(compare_bytes(lhs, rhs, i + 1) != 0);
    lemma_compare_rest(lhs, rhs, i + 1, n as int);
}

proof fn lemma_no_difference(lhs: Seq<u8>, rhs: Seq<u8>, i: usize)
    requires
        i < usize::MAX,
        i < lhs.len(),
        i < rhs.len(),
        compare_prefix(lhs, rhs, i) == 0,
        lhs[i as int] == rhs[i as int],
    ensures
        compare_prefix(lhs, rhs, (i + 1) as usize) == 0,
{
}

/// Compares the first `n` bytes: 0 when equal, else the difference of the
/// first differing pair.
pub fn memcmp(lhs: &[u8], rhs: &[u8], n: usize) -> (r: i32)
    requires
        n <= lhs@.len(),
        n <= rhs@.len(),
    ensures
        r == compare_prefix(lhs@, rhs@, n),
{
    for i in 0..n
        invariant
            n <= lhs@.len(),
            n <= rhs@.len(),
            compare_prefix(lhs@, rhs@, i) == 0,
    {
        if lhs[i] != rhs[i] {
            proof {
                lemma_first_difference(lhs@, rhs@, i, n);
            }
            return byte_difference(lhs[i], rhs[i]);
        }
        assert(i < usize::MAX);
        proof {
            lemma_no_difference(lhs@, rhs@, i);
        }
    }
    0
}

/// `buf` after copying its `len` bytes at `src` to `dest`, as if through a
/// temporary buffer.
pub open spec fn moved(buf: Seq<u8>, dest: int, src: int, len: int) -> Seq<u8> {
    Seq::new(buf.len(), |i: int| if dest <= i < dest + len { buf[src + (i - dest)] } else { buf[i] })
}

/// Copies the `len` bytes at `src` to `dest` within `buf`; overlapping
/// ranges are copied back to front when the target lies above the source.
pub fn byte_copy_overlap(buf: &mut Vec<u8>, src: usize, dest: usize, len: usize)
    requires
        src + len <= old(buf)@.len(),
        dest + len <= old(buf)@.len(),
    ensures
        final(buf)@ == moved(old(buf)@, dest as int, src as int, len as int),
{
    let ghost orig = buf@;
    let n = buf.len();
    assert(orig.len() <= usize::MAX);
    if dest <= src || dest >= src + len {
        for index in 0..len
            invariant
                orig.len() <= usize::MAX,
                src + len <= orig.len(),
                dest + len <= orig.len(),
                dest <= src || dest >= src + len,
                buf@.len() == orig.len(),
                forall|i: int|
                    0 <= i < buf@.len() ==> #[trigger] buf@[i] == (if dest <= i < dest + index {
                        orig[src + (i - dest)]
                    } else {
                        orig[i]
                    }),
        {
            let b = buf[src + index];
            buf.set(dest + index, b);
        }
    } else {
        let mut index = len;
        while index != 0
            invariant
                orig.len() <= usize::MAX,
                src + len <= orig.len(),
                dest + len <= orig.len(),
                src < dest < src + len,
                index <= len,
                buf@.len() == orig.len(),
                forall|i: int|
                    0 <= i < buf@.len() ==> #[trigger] buf@[i] == (if dest + index <= i < dest + len {
                        orig[src + (i - dest)]
                    } else {
                        orig[i]
                    }),
            decreases index,
        {
            index = index - 1;
            let b = buf[src + index];
            buf.set(dest + index, b);
        }
    }
    assert(buf@ =~= moved(orig, dest as int, src as int, len as int));
}

/// Sets the `len` bytes at `dest` of `buf` to `value`.
pub fn byte_fill(buf: &mut Vec<u8>, dest: usize, value: u8, len: usize)
    requires
        dest + len <= old(buf)@.len(),
    ensures
        final(buf)@ == Seq::new(old(buf)@.len(), |i: int| if dest <= i < dest + len { value } else { old(buf)@[i] }),
{
    let ghost orig = buf@;
    let n = buf.len();
    for index in 0..len
        invariant
            orig.len() <= usize::MAX,
            dest + len <= orig.len(),
            buf@.len() == orig.len(),
            forall|i: int|
                0 <= i < buf@.len() ==> #[trigger] buf@[i] == (if dest <= i < dest + index {
                    value
                } else {
                    orig[i]
                }),
    {
        buf.set(dest + index, value);
    }
    assert(buf@ =~= Seq::new(orig.len(), |i: int| if dest <= i < dest + len { value } else { orig[i] }));
}

/// Copies the first `len` bytes of `src` to the start of `dest`, one byte at
/// a time; the two buffers are distinct.
pub fn byte_copy_nonoverlapping(src: &[u8], dest: &mut Vec<u8>, len: usize)
    requires
        len <= src@.len(),
        len <= old(dest)@.len(),
    ensures
        final(dest)@ == src@.take(len as int) + old(dest)@.skip(len as int),
{
    let ghost orig = dest@;
    let mut index: usize = 0;
    while index < len
        invariant
            index <= len,
            len <= src@.len(),
            len <= orig.len(),
            dest@.len() == orig.len(),
            forall|i: int| 0 <= i < index ==> dest@[i] == src@[i],
            forall|i: int| index <= i < orig.len() ==> dest@[i] == orig[i],
        decreases len - index,
    {
        dest.set(index, src[index]);
        index = index + 1;
    }
    assert(dest@ =~= src@.take(len as int) + orig.skip(len as int));
}

/// Bytes that `calloc` allocates for `nmemb` items of `size` bytes;
/// `ENOMEM` when the product overflows.
pub fn calloc_size(nmemb: usize, size: usize) -> (r: Result<usize, i32>)
    ensures
        nmemb * size <= usize::MAX ==> r == Ok::<usize, i32>((nmemb * size) as usize),
        nmemb * size > usize::MAX ==> r == Err::<usize, i32>(ENOMEM),
{
    match nmemb.checked_mul(size) {
        Some(total) => Ok(total),
        None => Err(ENOMEM),
    }
}

/// Checks the alignment of `posix_memalign`: `EINVAL` unless it is a power of
/// two no smaller than a word.
pub fn check_memalign(align: usize) -> (r: Result<(), i32>)
    ensures
        r == (if align >= WORD_SIZE && align & (align - 1) as usize == 0 {
            Ok::<(), i32>(())
        } else {
            Err::<(), i32>(EINVAL)
        }),
{
    if align < WORD_SIZE || align & (align - 1) != 0 {
        Err(EINVAL)
    } else {
        Ok(())
    }
}

/// What `realloc` does with a block.
#[derive(Debug, Clone, Copy, PartialEq, Eq, Structural)]
pub enum ReallocAction {
    /// No block yet: allocate `size` bytes, as `malloc` does.
    Allocate { size: usize },
    /// Size 0: free the block and return null.
    Free,
    /// Allocate `size` bytes, copy `copy_len` bytes over, free the old block.
    Move { size: usize, copy_len: usize },
}

/// The action of `realloc` on a block (null or not) that was requested with
/// `requested_size` bytes, for a new size of `size`.
pub fn realloc_action(is_null: bool, size: usize, requested_size: usize) -> (r: ReallocAction)
    ensures
        r == (if is_null {
            ReallocAction::Allocate { size }
        } else if size == 0 {
            ReallocAction::Free
        } else {
            ReallocAction::Move { size, copy_len: if requested_size < size { requested_size } else { size } }
        }),
{
    if is_null {
        ReallocAction::Allocate { size }
    } else if size == 0 {
        ReallocAction::Free
    } else {
        ReallocAction::Move { size, copy_len: if requested_size < size { requested_size } else { size } }
    }
}

/// What `realloc` does once the new block of a move was asked for.
#[derive(Debug, Clone, Copy, PartialEq, Eq, Structural)]
pub enum ReallocFinish {
    /// The new block could not be had: return null; the old block stays
    /// allocated and unchanged.
    KeepOld,
    /// Copy `copy_len` bytes into the new block, free the old block and
    /// return the new one.
    CopyAndFree { copy_len: usize },
}

/// The rest of a move by `realloc` (`ReallocAction::Move` with `copy_len`),
/// given whether the new block came back null.
pub fn realloc_finish(new_block_is_null: bool, copy_len: usize) -> (r: ReallocFinish)
    ensures
        r == (if new_block_is_null {
            ReallocFinish::KeepOld
        } else {
            ReallocFinish::CopyAndFree { copy_len }
        }),
{
    if new_block_is_null {
        ReallocFinish::KeepOld
    } else {
        ReallocFinish::CopyAndFree { copy_len }
    }
}

/// The standard output descriptor.
pub const STDOUT_FILENO: i32 = 1;

/// The standard error descriptor.
pub const STDERR_FILENO: i32 = 2;

/// Checks a `write` request: `EBADF` for a descriptor other than standard
/// output and error; `Ok(false)` when there is nothing to write; `EFAULT`
/// for a null buffer; `Ok(true)` when the bytes go to the console.
pub fn write_check(fd: i32, count: usize, buf_is_null: bool) -> (r: Result<bool, i32>)
    ensures
        r == (if fd != STDOUT_FILENO && fd != STDERR_FILENO {
            Err::<bool, i32>(EBADF)
        } else if count == 0 {
            Ok::<bool, i32>(false)
        } else if buf_is_null {
            Err::<bool, i32>(EFAULT)
        } else {
            Ok::<bool, i32>(true)
        }),
{
    if fd != STDOUT_FILENO && fd != STDERR_FILENO {
        Err(EBADF)
    } else if count == 0 {
        Ok(false)
    } else if buf_is_null {
        Err(EFAULT)
    } else {
        Ok(true)
    }
}

/// Where a write to the console stands after one transfer.
#[derive(Debug, Clone, Copy, PartialEq, Eq, Structural)]
pub enum WriteStep {
    /// Write the bytes from this offset on next.
    Continue(usize),
    /// Stop: this many bytes were written.
    Done(usize),
}

/// The next step of writing `count` bytes to the console when `written`
/// have gone and the console took `accepted` more: stop when it took none or
/// all bytes have gone, else go on after them.
pub fn write_step(written: usize, count: usize, accepted: usize) -> (r: WriteStep)
    requires
        written < count,
        accepted <= count - written,
    ensures
        accepted == 0 ==> r == WriteStep::Done(written),
        accepted > 0 && written + accepted < count ==> r == WriteStep::Continue((written + accepted) as usize),
        accepted > 0 && written + accepted == count ==> r == WriteStep::Done(count),
{
    if accepted == 0 {
        WriteStep::Done(written)
    } else if written + accepted < count {
        WriteStep::Continue(written + accepted)
    } else {
        WriteStep::Done(count)
    }
}

/// The sum of the first `n` results.
pub open spec fn sum_prefix(results: Seq<isize>, n: int) -> int
    decreases n,
{
    if n <= 0 {
        0
    } else {
        sum_prefix(results, n - 1) + results[n - 1]
    }
}

/// Some result among the first `n` is negative.
pub open spec fn failed_within(results: Seq<isize>, n: int) -> bool {
    exists|k: int| 0 <= k < n && #[trigger] results[k] < 0
}

/// What `writev` returns for the results of writing its entries in order:
/// -1 as soon as one failed, else the total of bytes written. The running
/// total must fit in an `isize`.
pub fn writev_total(results: &[isize]) -> (r: isize)
    requires
        forall|j: int|
            0 <= j <= results@.len() && !failed_within(results@, j) ==> #[trigger] sum_prefix(results@, j)
                <= isize::MAX,
    ensures
        failed_within(results@, results@.len() as int) ==> r == -1,
        !failed_within(results@, results@.len() as int) ==> r == sum_prefix(results@, results@.len() as int),
{
    let mut total: usize = 0;
    let mut i: usize = 0;
    while i < results.len()
        invariant
            i <= results@.len(),
            !failed_within(results@, i as int),
            total == sum_prefix(results@, i as int),
            forall|j: int|
                0 <= j <= results@.len() && !failed_within(results@, j) ==> #[trigger] sum_prefix(results@, j)
                    <= isize::MAX,
        decreases results@.len() - i,
    {
        let w = results[i];
        if w < 0 {
            assert(results@[i as int] < 0);
            return -1;
        }
        assert(!failed_within(results@, i + 1)) by {
            if failed_within(results@, i + 1) {
                let k = choose|k: int| 0 <= k < i + 1 && #[trigger] results@[k] < 0;
                assert(k != i);
            }
        }
        assert(sum_prefix(results@, i + 1) <= isize::MAX);
        total = total + w as usize;
        i = i + 1;
    }
    total as isize
}

/// What the futex system call answers: `0` for the wait and wake commands
/// (with or without the private and realtime-clock flags), `ENOSYS` for any
/// other command or system call.
pub fn futex_syscall(number: i64, op: i32) -> (r: Result<i64, i32>)
    ensures
        r == (if number != SYS_FUTEX {
            Err::<i64, i32>(ENOSYS)
        } else {
            let command = op & !(FUTEX_PRIVATE_FLAG | FUTEX_CLOCK_REALTIME);
            if command == FUTEX_WAIT || command == FUTEX_WAKE || command == FUTEX_WAIT_BITSET || command
                == FUTEX_WAKE_BITSET {
                Ok::<i64, i32>(0)
            } else {
                Err::<i64, i32>(ENOSYS)
            }
        }),
{
    if number != SYS_FUTEX {
        return Err(ENOSYS);
    }
    let command = op & !(FUTEX_PRIVATE_FLAG | FUTEX_CLOCK_REALTIME);
    if command == FUTEX_WAIT || command == FUTEX_WAKE || command == FUTEX_WAIT_BITSET || command
        == FUTEX_WAKE_BITSET {
        Ok(0)
    } else {
        Err(ENOSYS)
    }
}

/// One thread-local key: in use or not, its value, and its destructor's address.
#[derive(Debug, Clone, Copy, PartialEq, Eq, Structural)]
pub struct TlsKeySlot {
    pub used: bool,
    pub value: usize,
    pub destructor: Option<usize>,
}

/// An unused key.
pub open spec fn empty_slot() -> TlsKeySlot {
    TlsKeySlot { used: false, value: 0, destructor: None }
}

/// The table of thread-local keys.
pub struct TlsKeys {
    slots: Vec<TlsKeySlot>,
}

impl View for TlsKeys {
    type V = Seq<TlsKeySlot>;

    closed spec fn view(&self) -> Seq<TlsKeySlot> {
        self.slots@
    }
}

/// What reading key `key` gives: its value when in use, else 0.
pub open spec fn tls_get(s: Seq<TlsKeySlot>, key: u32) -> usize {
    if key < s.len() && s[key as int].used {
        s[key as int].value
    } else {
        0
    }
}

impl TlsKeys {
    /// A table of `MAX_TLS_KEYS` unused keys.
    pub fn new() -> (r: TlsKeys)
        ensures
            r@ == Seq::new(MAX_TLS_KEYS as nat, |i: int| empty_slot()),
    {
        let mut slots: Vec<TlsKeySlot> = Vec::new();
        for i in 0..MAX_TLS_KEYS
            invariant
                slots@ == Seq::new(i as nat, |k: int| empty_slot()),
        {
            slots.push(TlsKeySlot { used: false, value: 0, destructor: None });
            assert(slots@ =~= Seq::new(i as nat + 1, |k: int| empty_slot()));
        }
        TlsKeys { slots }
    }

    /// Takes the lowest unused key, with value 0 and destructor `destructor`;
    /// `ENOMEM` when all keys are in use.
    pub fn create(&mut self, destructor: Option<usize>) -> (r: Result<u32, i32>)
        requires
            old(self)@.len() <= MAX_TLS_KEYS,
        ensures
            r matches Ok(k) ==> k < old(self)@.len() && !old(self)@[k as int].used && (forall|j: int|
                0 <= j < k ==> old(self)@[j].used) && final(self)@ == old(self)@.update(
                k as int,
                TlsKeySlot { used: true, value: 0, destructor },
            ),
            r matches Err(e) ==> e == ENOMEM && final(self)@ == old(self)@ && forall|j: int|
                0 <= j < old(self)@.len() ==> old(self)@[j].used,
    {
        let n = self.slots.len();
        for index in 0..n
            invariant
                n == self.slots@.len(),
                n <= MAX_TLS_KEYS,
                self@ == old(self)@,
                forall|j: int| 0 <= j < index ==> old(self)@[j].used,
        {
            if !self.slots[index].used {
                self.slots.set(index, TlsKeySlot { used: true, value: 0, destructor });
                return Ok(index as u32);
            }
        }
        Err(ENOMEM)
    }

    /// Creates a key for a caller whose result location may be missing:
    /// `EINVAL`, with the table unchanged, when it is; otherwise as `create`.
    pub fn create_for(&mut self, key_is_null: bool, destructor: Option<usize>) -> (r: Result<u32, i32>)
        requires
            old(self)@.len() <= MAX_TLS_KEYS,
        ensures
            key_is_null ==> r == Err::<u32, i32>(EINVAL) && final(self)@ == old(self)@,
            !key_is_null ==> (r matches Ok(k) ==> k < old(self)@.len() && !old(self)@[k as int].used && (forall|j: int|
                0 <= j < k ==> old(self)@[j].used) && final(self)@ == old(self)@.update(
                k as int,
                TlsKeySlot { used: true, value: 0, destructor },
            )),
            !key_is_null ==> (r matches Err(e) ==> e == ENOMEM && final(self)@ == old(self)@ && forall|j: int|
                0 <= j < old(self)@.len() ==> old(self)@[j].used),
    {
        if key_is_null {
            return Err(EINVAL);
        }
        self.create(destructor)
    }

    /// The value of key `key`, or 0 when it is not in use.
    pub fn get(&self, key: u32) -> (r: usize)
        ensures
            r == tls_get(self@, key),
    {
        let k = key as usize;
        if k < self.slots.len() && self.slots[k].used {
            self.slots[k].value
        } else {
            0
        }
    }

    /// Sets the value of key `key`: 0, or `EINVAL` when it is not in use.
    pub fn set(&mut self, key: u32, value: usize) -> (r: i32)
        ensures
            (key < old(self)@.len() && old(self)@[key as int].used) ==> r == 0 && final(self)@
                == old(self)@.update(key as int, TlsKeySlot { value, ..old(self)@[key as int] }),
            !(key < old(self)@.len() && old(self)@[key as int].used) ==> r == EINVAL && final(self)@
                == old(self)@,
    {
        let k = key as usize;
        if k < self.slots.len() && self.slots[k].used {
            let slot = self.slots[k];
            self.slots.set(k, TlsKeySlot { value, ..slot });
            0
        } else {
            EINVAL
        }
    }

    /// Releases key `key`: 0, or `EINVAL` when it is not in use.
    pub fn delete(&mut self, key: u32) -> (r: i32)
        ensures
            (key < old(self)@.len() && old(self)@[key as int].used) ==> r == 0 && final(self)@
                == old(self)@.update(key as int, empty_slot()),
            !(key < old(self)@.len() && old(self)@[key as int].used) ==> r == EINVAL && final(self)@
                == old(self)@,
    {
        let k = key as usize;
        if k < self.slots.len() && self.slots[k].used {
            self.slots.set(k, TlsKeySlot { used: false, value: 0, destructor: None });
            0
        } else {
            EINVAL
        }
    }
}

/// A value set on a key in use is what the key then gives; a deleted key
/// gives 0; other keys are not affected.
pub proof fn lemma_tls_set_get(s: Seq<TlsKeySlot>, key: u32, other: u32, value: usize)
    requires
        key < s.len(),
        s[key as int].used,
        other != key,
    ensures
        tls_get(s.update(key as int, TlsKeySlot { value, ..s[key as int] }), key) == value,
        tls_get(s.update(key as int, empty_slot()), key) == 0,
        tls_get(s.update(key as int, TlsKeySlot { value, ..s[key as int] }), other) == tls_get(s, other),
        tls_get(s.update(key as int, empty_slot()), other) == tls_get(s, other),
{
}

} // verus!
