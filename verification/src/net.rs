//! The network device interface: errors, DMA buffer descriptions, request
//! identifiers, queue-id bitmasks and the driver traits.

use vstd::prelude::*;

use crate::dma::DmaError;

verus! {

/// Errors of network device operations.
#[derive(Debug)]
pub enum NetError {
    /// The device does not support the operation.
    NotSupported,
    /// The operation should be retried later (for example, the queue is full).
    Retry,
    /// Not enough memory.
    NoMemory,
    /// The link is down.
    LinkDown,
    /// Another error, as the DMA layer reported it.
    Other(DmaError),
}

impl NetError {
    /// The network error for a DMA error: out of memory stays out of memory,
    /// every other error is passed on.
    pub fn from_dma(value: DmaError) -> (r: NetError)
        ensures
            r == (match value {
                DmaError::NoMemory => NetError::NoMemory,
                e => NetError::Other(e),
            }),
    {
        match value {
            DmaError::NoMemory => NetError::NoMemory,
            e => NetError::Other(e),
        }
    }
}

/// How DMA buffers of a queue must be allocated.
#[derive(Debug, Clone, Copy)]
pub struct BuffConfig {
    /// DMA addressing mask of the device.
    pub dma_mask: u64,
    /// Alignment of buffer addresses, in bytes.
    pub align: usize,
    /// Largest buffer, in bytes (MTU and Ethernet header).
    pub size: usize,
}

/// A DMA buffer known by its CPU virtual address and its bus address.
#[derive(Debug, Clone, Copy)]
pub struct Buffer {
    pub virt: usize,
    pub bus: u64,
    pub size: usize,
}

/// Identifier of a submitted request.
#[derive(Debug, Clone, Copy, PartialEq, Eq, Structural, PartialOrd, Ord, Hash)]
pub struct RequestId(pub usize);

impl RequestId {
    /// The request identifier `id`.
    pub fn new(id: usize) -> (r: RequestId)
        ensures
            r.0 == id,
    {
        RequestId(id)
    }
}

impl From<RequestId> for usize {
    fn from(value: RequestId) -> (r: usize) {
        value.0
    }
}

impl vstd::std_specs::convert::FromSpecImpl<RequestId> for usize {
    open spec fn obeys_from_spec() -> bool {
        true
    }

    open spec fn from_spec(v: RequestId) -> usize {
        v.0
    }
}

/// Bit `i` of `bits` is set.
pub open spec fn bit_at(bits: u64, i: usize) -> bool {
    (bits >> i) & 1 == 1
}

/// A set of up to 64 queue identifiers, one bit each.
#[derive(Debug, Clone, Copy)]
pub struct IdList(pub u64);

impl View for IdList {
    type V = Set<usize>;

    open spec fn view(&self) -> Set<usize> {
        Set::new(|i: usize| i < 64 && bit_at(self.0, i))
    }
}

proof fn lemma_bit_ops(x: u64, id: usize, i: usize)
    requires
        id < 64,
        i < 64,
    ensures
        (x & (1u64 << id) != 0) == bit_at(x, id),
        bit_at(x | (1u64 << id), i) == (bit_at(x, i) || i == id),
        bit_at(x & !(1u64 << id), i) == (bit_at(x, i) && i != id),
        bit_at(0u64, i) == false,
{
    assert((x & (1u64 << id) != 0) == ((x >> id) & 1 == 1) && (((x | (1u64 << id)) >> i) & 1 == 1)
        == (((x >> i) & 1 == 1) || i == id) && (((x & !(1u64 << id)) >> i) & 1 == 1) == (((x >> i)
        & 1 == 1) && i != id) && ((0u64 >> i) & 1 != 1)) by (bit_vector)
        requires
            id < 64,
            i < 64,
    ;
}

impl IdList {
    /// The empty set.
    pub fn none() -> (r: IdList)
        ensures
            r@ == Set::<usize>::empty(),
    {
        let r = IdList(0);
        assert(r@ =~= Set::<usize>::empty()) by {
            assert forall|i: usize| !r@.contains(i) by {
                if i < 64 {
                    lemma_bit_ops(0, 0, i);
                }
            }
        }
        r
    }

    /// `id` is in the set.
    pub fn contains(&self, id: usize) -> (r: bool)
        requires
            id < 64,
        ensures
            r == self@.contains(id),
    {
        proof {
            lemma_bit_ops(self.0, id, id);
        }
        (self.0 & (1u64 << id)) != 0
    }

    /// Adds `id` to the set.
    pub fn insert(&mut self, id: usize)
        requires
            id < 64,
        ensures
            final(self)@ == old(self)@.insert(id),
    {
        let ghost before = self.0;
        self.0 = self.0 | (1u64 << id);
        proof {
            lemma_bit_ops(before, id, id);
        }
        assert(self@ =~= old(self)@.insert(id)) by {
            assert forall|i: usize| i < 64 implies bit_at(self.0, i) == (bit_at(before, i) || i == id) by {
                lemma_bit_ops(before, id, i);
            }
        }
    }

    /// Takes `id` out of the set.
    pub fn remove(&mut self, id: usize)
        requires
            id < 64,
        ensures
            final(self)@ == old(self)@.remove(id),
    {
        let ghost before = self.0;
        self.0 = self.0 & !(1u64 << id);
        assert(self@ =~= old(self)@.remove(id)) by {
            assert forall|i: usize| i < 64 implies bit_at(self.0, i) == (bit_at(before, i) && i != id) by {
                lemma_bit_ops(before, id, i);
            }
        }
    }

    /// The identifiers in the set, smallest first.
    pub fn iter(&self) -> (r: Vec<usize>)
        ensures
            forall|a: int, b: int| 0 <= a < b < r@.len() ==> r@[a] < r@[b],
            r@.to_set() == self@,
    {
        let bits = self.0;
        let mut out: Vec<usize> = Vec::new();
        for i in 0..64usize
            invariant
                bits == self.0,
                forall|a: int, b: int| 0 <= a < b < out@.len() ==> out@[a] < out@[b],
                forall|a: int| 0 <= a < out@.len() ==> out@[a] < i,
                forall|x: usize| out@.contains(x) <==> (x < i && bit_at(bits, x)),
        {
            proof {
                lemma_bit_ops(bits, i, i);
            }
            let ghost before = out@;
            if (bits & (1u64 << i)) != 0 {
                out.push(i);
                assert forall|x: usize| out@.contains(x) <==> (x < i + 1 && bit_at(bits, x)) by {
                    if out@.contains(x) && x != i {
                        let k = choose|k: int| 0 <= k < out@.len() && out@[k] == x;
                        assert(before[k] == x);
                    }
                    if x < i && bit_at(bits, x) {
                        assert(before.contains(x));
                        let k = choose|k: int| 0 <= k < before.len() && before[k] == x;
                        assert(out@[k] == x);
                    }
                    if x == i {
                        assert(out@[out@.len() - 1] == i);
                    }
                }
            }
        }
        assert(out@.to_set() =~= self@);
        out
    }
}

/// The queues that have completed operations, as a device interrupt reports them.
#[derive(Debug, Clone, Copy)]
pub struct Event {
    /// Transmit queues with completions.
    pub tx_queue: IdList,
    /// Receive queues with completions.
    pub rx_queue: IdList,
}

impl Event {
    /// No queue has completions.
    pub fn none() -> (r: Event)
        ensures
            r.tx_queue@ == Set::<usize>::empty(),
            r.rx_queue@ == Set::<usize>::empty(),
    {
        Event { tx_queue: IdList::none(), rx_queue: IdList::none() }
    }
}

/// A packet to transmit.
pub struct TxRequest<'a> {
    /// The packet, Ethernet header included.
    pub data: &'a [u8],
}

/// A receive buffer handed to the hardware.
pub struct RxRequest {
    /// The buffer that the hardware fills.
    pub buffer: Buffer,
}

/// A completed receive.
pub struct RxResponse {
    /// Bytes received into the buffer.
    pub len: usize,
}

/// The device-level interface of a network driver: queue creation,
/// interrupt control and the MAC address.
pub trait Interface {
    /// The device's MAC address.
    fn mac_address(&self) -> [u8; 6];

    /// A new transmit queue, or `None` when no more are available.
    fn create_tx_queue(&mut self) -> Option<Box<dyn ITxQueue>>;

    /// A new receive queue, or `None` when no more are available.
    fn create_rx_queue(&mut self) -> Option<Box<dyn IRxQueue>>;

    /// Enables device interrupts.
    fn enable_irq(&mut self);

    /// Disables device interrupts.
    fn disable_irq(&mut self);

    /// Device interrupts are enabled.
    fn is_irq_enabled(&self) -> bool;

    /// Handles a device interrupt and reports which queues have completions.
    fn handle_irq(&mut self) -> Event;
}

/// A transmit queue.
pub trait ITxQueue {
    /// Queue identifier, unique within the device.
    fn id(&self) -> usize;

    /// Maximum payload of a packet, in bytes.
    fn mtu(&self) -> usize;

    /// How transmit buffers must be allocated.
    fn buff_config(&self) -> BuffConfig;

    /// Submits a packet; `Retry` when the hardware queue is full.
    fn submit_request(&mut self, request: TxRequest<'_>) -> Result<RequestId, NetError>;

    /// `Ok` once the packet has been sent, `Retry` while it is in flight.
    fn poll_request(&mut self, request: RequestId) -> Result<(), NetError>;
}

/// A receive queue.
pub trait IRxQueue {
    /// Queue identifier, unique within the device.
    fn id(&self) -> usize;

    /// Maximum payload of a packet, in bytes.
    fn mtu(&self) -> usize;

    /// How receive buffers must be allocated.
    fn buff_config(&self) -> BuffConfig;

    /// Hands a receive buffer to the hardware; `Retry` when the queue is full.
    fn submit_request(&mut self, request: RxRequest) -> Result<RequestId, NetError>;

    /// The received length once a packet has arrived, `Retry` before.
    fn poll_request(&mut self, request: RequestId) -> Result<RxResponse, NetError>;
}

} // verus!
