use vstd::prelude::*;
use crate::buffer_manager::buffer_operations::{BufferAllocator, BufferOperations, SupportsCopying};
use crate::error::EngineError;
use crate::shared_helpers::{get_memory_type_index, suitable_type};
use crate::store::StoreKey;

verus! {

/// A buffer handle together with its backing memory handle. The two are
/// always allocated in one call and freed in one call, so neither can
/// outlive the other.
#[derive(Default, Debug, Clone, Copy, Eq, PartialEq, Structural, Hash)]
pub struct BufferPair {
    /// The buffer object handle.
    pub buffer: u64,
    /// The device-memory handle backing it.
    pub memory: u64,
}

impl BufferPair {
    /// Bundles a buffer handle with its memory handle.
    pub fn new(buffer: u64, memory: u64) -> (r: Self)
        ensures
            r.buffer == buffer,
            r.memory == memory,
    {
        BufferPair { buffer, memory }
    }

    /// The two handles, side by side.
    pub fn split(&self) -> (r: (u64, u64))
        ensures
            r.0 == self.buffer,
            r.1 == self.memory,
    {
        (self.buffer, self.memory)
    }
}

impl BufferOperations for BufferPair {
    type BufferType = u64;

    type MemoryType = u64;

    fn get_buffer(&self) -> u64 {
        self.buffer
    }

    fn get_memory(&self) -> u64 {
        self.memory
    }
}

/// The data an allocation of [`BufferPair`]s needs, and the allocator for
/// them: a model of the graphics device that deals out fresh handle pairs,
/// checks the requested memory properties against the device's memory
/// types, and keeps the create/destroy ledger. It performs no device I/O,
/// so every lifecycle property proved against [`BufferAllocator`] can also
/// be watched at run time through its counters.
struct Ledger {
    next_handle: u64,
    created: u64,
    destroyed: u64,
    live_pairs: Vec<BufferPair>,
}

impl Ledger {
    spec fn inv(self) -> bool {
        &&& self.created as int == self.destroyed as int + self.live_pairs@.len()
        &&& forall|i: int|
            0 <= i < self.live_pairs@.len() ==> (#[trigger] self.live_pairs@[i]).buffer
                < self.next_handle && self.live_pairs@[i].memory < self.next_handle
        &&& forall|i: int, j: int|
            0 <= i < j < self.live_pairs@.len() ==> self.live_pairs@[i] != self.live_pairs@[j]
    }

    fn fresh() -> (r: Self)
        ensures
            r.inv(),
            r.live_pairs@.len() == 0,
            r.created == 0,
            r.destroyed == 0,
    {
        Ledger { next_handle: 1, created: 0, destroyed: 0, live_pairs: Vec::new() }
    }
}

pub struct BufferPairData {
    memory_types: Vec<u32>,
    memory_type_bits: u32,
    ledger: Ledger,
}

impl BufferPairData {
    #[verifier::type_invariant]
    spec fn inv(self) -> bool {
        self.ledger.inv()
    }

    /// A fresh allocator for the given device memory model: the property
    /// flags of each memory type the device reports, and the bits saying
    /// which types it admits for buffers.
    pub fn new(memory_types: Vec<u32>, memory_type_bits: u32) -> (r: Self)
        ensures
            r.created() == 0,
            r.destroyed() == 0,
            r.live() == Set::<BufferPair>::empty(),
    {
        let r = BufferPairData { memory_types, memory_type_bits, ledger: Ledger::fresh() };
        proof {
            assert(r.ledger.live_pairs@.to_set() =~= Set::<BufferPair>::empty());
        }
        r
    }

    /// The number of buffers created so far, for leak accounting.
    pub fn created_count(&self) -> (r: u64)
        ensures
            r == self.created(),
    {
        self.ledger.created
    }

    /// The number of buffers destroyed so far, for leak accounting.
    pub fn destroyed_count(&self) -> (r: u64)
        ensures
            r == self.destroyed(),
    {
        self.ledger.destroyed
    }

    /// The property flags of each memory type of the modelled device.
    pub closed spec fn memory_types_spec(&self) -> Seq<u32> {
        self.memory_types@
    }

    /// The bits saying which memory types the device admits for buffers.
    pub closed spec fn memory_type_bits_spec(&self) -> u32 {
        self.memory_type_bits
    }

    /// How many buffers are live right now: created and not destroyed.
    pub fn live_count(&self) -> (r: usize)
        ensures
            r == self.created() - self.destroyed(),
    {
        proof {
            use_type_invariant(&*self);
        }
        self.ledger.live_pairs.len()
    }
}

impl BufferAllocator for BufferPairData {
    type Output = BufferPair;

    closed spec fn created(&self) -> nat {
        self.ledger.created as nat
    }

    closed spec fn destroyed(&self) -> nat {
        self.ledger.destroyed as nat
    }

    closed spec fn live(&self) -> Set<BufferPair> {
        self.ledger.live_pairs@.to_set()
    }

    fn allocate_with_size(&mut self, size: u64, usage: u32, properties: u32) -> (r: Result<
        BufferPair,
        EngineError,
    >)
        ensures
            final(self).memory_types_spec() == old(self).memory_types_spec(),
            final(self).memory_type_bits_spec() == old(self).memory_type_bits_spec(),
            (forall|j: int|
                !suitable_type(
                    old(self).memory_types_spec(),
                    old(self).memory_type_bits_spec(),
                    properties,
                    j,
                )) <==> r == Err::<BufferPair, EngineError>(EngineError::NoSuitableMemoryType),
    {
        proof {
            use_type_invariant(&*self);
        }
        match get_memory_type_index(&self.memory_types, self.memory_type_bits, properties) {
            Ok(idx) => {
                proof {
                    assert(suitable_type(
                        old(self).memory_types_spec(),
                        old(self).memory_type_bits_spec(),
                        properties,
                        idx as int,
                    ));
                }
            }
            Err(e) => {
                return Err(e);
            }
        }
        if self.ledger.next_handle >= u64::MAX - 1 || self.ledger.created == u64::MAX {
            return Err(EngineError::DeviceOperationFailed);
        }
        let ghost pre = *self;
        let mut led = Ledger::fresh();
        core::mem::swap(&mut self.ledger, &mut led);
        let b = BufferPair { buffer: led.next_handle, memory: led.next_handle + 1 };
        led.next_handle = led.next_handle + 2;
        led.created = led.created + 1;
        led.live_pairs.push(b);
        proof {
            assert forall|i: int|
                0 <= i < pre.ledger.live_pairs@.len() implies (
            #[trigger] pre.ledger.live_pairs@[i]) != b by {
                assert(pre.ledger.live_pairs@[i].buffer < pre.ledger.next_handle);
            }
            assert(led.inv());
        }
        self.ledger = led;
        proof {
            assert(!pre.ledger.live_pairs@.contains(b));
            assert(!pre.live().contains(b));
            let lp = self.ledger.live_pairs@;
            let lp0 = pre.ledger.live_pairs@;
            assert forall|x: BufferPair| lp.contains(x) == (lp0.contains(x) || x == b) by {
                if lp0.contains(x) {
                    let i = choose|i: int| 0 <= i < lp0.len() && lp0[i] == x;
                    assert(lp[i] == x);
                }
                if x == b {
                    assert(lp[lp0.len() as int] == x);
                }
                if lp.contains(x) {
                    let i = choose|i: int| 0 <= i < lp.len() && lp[i] == x;
                    if i < lp0.len() {
                        assert(lp0[i] == x);
                    }
                }
            }
            assert(self.live() =~= pre.live().insert(b));
        }
        Ok(b)
    }

    fn free(&mut self, buffer: BufferPair) {
        proof {
            use_type_invariant(&*self);
        }
        let ghost pre = *self;
        proof {
            assert(pre.ledger.live_pairs@.contains(buffer));
        }
        let n: usize = self.ledger.live_pairs.len();
        let mut i: usize = 0;
        while i < n
            invariant
                i <= n,
                *self == pre,
                n == pre.ledger.live_pairs@.len(),
                pre.ledger.live_pairs@.contains(buffer),
                forall|j: int| 0 <= j < i ==> pre.ledger.live_pairs@[j] != buffer,
            ensures
                i < n,
                pre.ledger.live_pairs@[i as int] == buffer,
            decreases n - i,
        {
            if self.ledger.live_pairs[i] == buffer {
                break ;
            }
            i += 1;
        }
        let mut led = Ledger::fresh();
        core::mem::swap(&mut self.ledger, &mut led);
        led.live_pairs.remove(i);
        led.destroyed = led.destroyed + 1;
        proof {
            let lp = led.live_pairs@;
            let lp0 = pre.ledger.live_pairs@;
            assert forall|a: int, b: int| 0 <= a < b < lp.len() implies lp[a] != lp[b] by {
                let a0 = if a < i { a } else { a + 1 };
                let b0 = if b < i { b } else { b + 1 };
                assert(lp[a] == lp0[a0]);
                assert(lp[b] == lp0[b0]);
            }
            assert forall|j: int|
                0 <= j < lp.len() implies (#[trigger] lp[j]).buffer < led.next_handle
                && lp[j].memory < led.next_handle by {
                let j0 = if j < i { j } else { j + 1 };
                assert(lp[j] == lp0[j0]);
            }
            assert(led.inv());
        }
        self.ledger = led;
        proof {
            let lp = self.ledger.live_pairs@;
            let lp0 = pre.ledger.live_pairs@;
            assert forall|x: BufferPair| lp.contains(x) == (lp0.contains(x) && x != buffer) by {
                if lp.contains(x) {
                    let j = choose|j: int| 0 <= j < lp.len() && lp[j] == x;
                    let j0 = if j < i { j } else { j + 1 };
                    assert(lp0[j0] == x);
                    if x == buffer {
                        assert(lp0[i as int] == buffer);
                    }
                }
                if lp0.contains(x) && x != buffer {
                    let j = choose|j: int| 0 <= j < lp0.len() && lp0[j] == x;
                    if j < i {
                        assert(lp[j] == x);
                    } else {
                        assert(j != i);
                        assert(lp[j - 1] == x);
                    }
                }
            }
            assert(self.live() =~= pre.live().remove(buffer));
        }
    }

    fn write_bytes(&mut self, destination: BufferPair, data: &[u8], size: u64) -> (r: Result<
        (),
        EngineError,
    >) {
        Ok(())
    }
}

impl SupportsCopying for BufferPairData {
    fn copy(&mut self, source: BufferPair, destination: BufferPair, size: u64) -> (r: Result<
        (),
        EngineError,
    >) {
        Ok(())
    }
}

/// The standard (one buffer per name) slots the renderer uses.
#[derive(Default, Debug, Clone, Copy, Eq, PartialEq, Structural, Hash)]
pub enum StandardBufferMaps {
    /// The main vertex buffer.
    #[default]
    Vertices,
    /// The main index buffer.
    Indices,
    /// An extra vertex buffer, by slot number.
    ExtraVertices(usize),
    /// An extra index buffer, by slot number.
    ExtraIndices(usize),
    /// A widget-layer vertex buffer, by slot number.
    GuiVertices(usize),
    /// A widget-layer index buffer, by slot number.
    GuiIndices(usize),
}

/// The per-frame uniform (one buffer list per name) slots the renderer uses.
#[derive(Default, Debug, Clone, Copy, Eq, PartialEq, Structural, Hash)]
pub enum UniformBufferMaps {
    /// The model, view and projection matrices.
    #[default]
    ModelViewProject,
    /// The sporadically updated settings block.
    SporadicBufferObject,
    /// The texture sampler binding.
    TextureSampler,
}

impl StoreKey for StandardBufferMaps {
    fn key_eq(&self, other: &Self) -> (r: bool)
        ensures
            r == (*self == *other),
    {
        *self == *other
    }
}

impl StoreKey for UniformBufferMaps {
    fn key_eq(&self, other: &Self) -> (r: bool)
        ensures
            r == (*self == *other),
    {
        *self == *other
    }
}

} // verus!
