use vstd::prelude::*;
use crate::buffer_manager::buffer_operations::SupportsCopying;
use crate::buffer_manager::{AllocateBufferType, BufferManager, BufferManagerCopyType, BufferManagerDataType};
use crate::error::EngineError;
use crate::store::StoreKey;

verus! {

/// Buffer usage flag: the buffer can be the source of a transfer.
pub const TRANSFER_SRC: u32 = 0x1;

/// Buffer usage flag: the buffer can be the destination of a transfer.
pub const TRANSFER_DST: u32 = 0x2;

/// Buffer usage flag: the buffer backs a uniform block.
pub const UNIFORM_BUFFER: u32 = 0x10;

/// Buffer usage flag: the buffer holds indices.
pub const INDEX_BUFFER: u32 = 0x40;

/// Buffer usage flag: the buffer holds vertices.
pub const VERTEX_BUFFER: u32 = 0x80;

/// Memory property flag: device-local memory.
pub const DEVICE_LOCAL: u32 = 0x1;

/// Memory property flag: the host can map the memory.
pub const HOST_VISIBLE: u32 = 0x2;

/// Memory property flag: host writes need no explicit flush.
pub const HOST_COHERENT: u32 = 0x4;

/// Memory type `i` can back the allocation: the device admits it for the
/// buffer (one bit per type), and its property flags contain every requested
/// property bit.
pub open spec fn suitable_type(memory_types: Seq<u32>, type_bits: u32, properties: u32, i: int) -> bool {
    &&& 0 <= i < memory_types.len()
    &&& i < 32
    &&& ((type_bits >> (i as u32)) & 1u32) == 1u32
    &&& (memory_types[i] & properties) == properties
}

/// Picks the first memory type that the device admits for the buffer and
/// that has all requested property flags; with none, the allocation cannot
/// be satisfied and `NoSuitableMemoryType` is reported.
///
/// `memory_types` holds the property flags of each memory type the device
/// reports; `type_bits` has one bit per type, as the device's requirements
/// report it for the buffer.
pub fn get_memory_type_index(memory_types: &Vec<u32>, type_bits: u32, properties: u32) -> (r:
    Result<u32, EngineError>)
    ensures
        match r {
            Ok(i) => suitable_type(memory_types@, type_bits, properties, i as int) && (forall|
                j: int,
            | 0 <= j < i ==> !suitable_type(memory_types@, type_bits, properties, j)),
            Err(e) => e == EngineError::NoSuitableMemoryType && (forall|j: int|
                !suitable_type(memory_types@, type_bits, properties, j)),
        },
{
    let count: usize = memory_types.len();
    let n: usize = if count < 32 {
        count
    } else {
        32
    };
    let mut i: usize = 0;
    while i < n
        invariant
            i <= n,
            n <= memory_types@.len(),
            n <= 32,
            count == memory_types@.len(),
            n == if count < 32 {
                count
            } else {
                32usize
            },
            forall|j: int| 0 <= j < i ==> !suitable_type(memory_types@, type_bits, properties, j),
        decreases n - i,
    {
        let admitted = ((type_bits >> (i as u32)) & 1u32) == 1u32;
        let has_properties = (memory_types[i] & properties) == properties;
        if admitted && has_properties {
            return Ok(i as u32);
        }
        i += 1;
    }
    Err(EngineError::NoSuitableMemoryType)
}

/// Uploads vertex bytes into the standard slot `name` through the staging
/// path: allocate a host-visible staging buffer (replacing any staging
/// buffer that existed), write the bytes into it, allocate the device-local
/// destination (replacing whatever the name held), copy staging to
/// destination on the device, and free the staging buffer.
///
/// On success the name holds a fresh device-local buffer, no staging buffer
/// is left, exactly two buffers were created, and one buffer was destroyed
/// beyond the slots that were replaced: nothing leaks.
pub fn create_vertex_buffer<B: Copy, S: StoreKey, U: StoreKey, A: SupportsCopying<Output = B>>(
    manager: &mut BufferManager<B, S, U>,
    allocator: &mut A,
    name: S,
    vertices: Vec<u8>,
) -> (r: Result<(), EngineError>)
    requires
        old(manager).wf(),
        old(manager).owns(old(allocator).live()),
    ensures
        final(manager).wf(),
        final(manager).owns(final(allocator).live()),
        r is Ok ==> {
            &&& final(manager).std_has(name)
            &&& !final(manager).has_temp()
            &&& final(allocator).created() == old(allocator).created() + 2
            &&& final(allocator).destroyed() == old(allocator).destroyed() + 1 + (if old(
                manager,
            ).has_temp() {
                1int
            } else {
                0int
            }) + (if old(manager).std_has(name) {
                1int
            } else {
                0int
            })
        },
        r is Err ==> {
            &&& final(manager).has_temp() || *final(manager) == *old(manager)
            &&& final(manager).uniform_buffers == old(manager).uniform_buffers
            &&& forall|s2: S|
                s2 != name ==> final(manager).std_has(s2) == old(manager).std_has(s2)
            &&& forall|s2: S|
                s2 != name && old(manager).std_has(s2) ==> final(manager).std_at(s2) == old(
                    manager,
                ).std_at(s2)
            &&& (old(manager).std_has(name) ==> final(manager).std_has(name))
            &&& old(allocator).created() <= final(allocator).created() <= old(
                allocator,
            ).created() + 2
            &&& old(allocator).destroyed() <= final(allocator).destroyed() <= old(
                allocator,
            ).destroyed() + (if old(manager).has_temp() {
                1int
            } else {
                0int
            }) + (if old(manager).std_has(name) {
                1int
            } else {
                0int
            })
        },
{
    create_filled_buffer(manager, allocator, name, vertices, VERTEX_BUFFER)
}

/// Uploads index bytes into the standard slot `name` through the staging
/// path, exactly as [`create_vertex_buffer`] does for vertex bytes.
pub fn create_index_buffer<B: Copy, S: StoreKey, U: StoreKey, A: SupportsCopying<Output = B>>(
    manager: &mut BufferManager<B, S, U>,
    allocator: &mut A,
    name: S,
    indices: Vec<u8>,
) -> (r: Result<(), EngineError>)
    requires
        old(manager).wf(),
        old(manager).owns(old(allocator).live()),
    ensures
        final(manager).wf(),
        final(manager).owns(final(allocator).live()),
        r is Ok ==> {
            &&& final(manager).std_has(name)
            &&& !final(manager).has_temp()
            &&& final(allocator).created() == old(allocator).created() + 2
            &&& final(allocator).destroyed() == old(allocator).destroyed() + 1 + (if old(
                manager,
            ).has_temp() {
                1int
            } else {
                0int
            }) + (if old(manager).std_has(name) {
                1int
            } else {
                0int
            })
        },
        r is Err ==> {
            &&& final(manager).has_temp() || *final(manager) == *old(manager)
            &&& final(manager).uniform_buffers == old(manager).uniform_buffers
            &&& forall|s2: S|
                s2 != name ==> final(manager).std_has(s2) == old(manager).std_has(s2)
            &&& forall|s2: S|
                s2 != name && old(manager).std_has(s2) ==> final(manager).std_at(s2) == old(
                    manager,
                ).std_at(s2)
            &&& (old(manager).std_has(name) ==> final(manager).std_has(name))
            &&& old(allocator).created() <= final(allocator).created() <= old(
                allocator,
            ).created() + 2
            &&& old(allocator).destroyed() <= final(allocator).destroyed() <= old(
                allocator,
            ).destroyed() + (if old(manager).has_temp() {
                1int
            } else {
                0int
            }) + (if old(manager).std_has(name) {
                1int
            } else {
                0int
            })
        },
{
    create_filled_buffer(manager, allocator, name, indices, INDEX_BUFFER)
}

/// The shared staging path: stage host bytes, allocate the device-local
/// destination for the given usage, copy, and free the staging buffer.
fn create_filled_buffer<B: Copy, S: StoreKey, U: StoreKey, A: SupportsCopying<Output = B>>(
    manager: &mut BufferManager<B, S, U>,
    allocator: &mut A,
    name: S,
    bytes: Vec<u8>,
    usage: u32,
) -> (r: Result<(), EngineError>)
    requires
        old(manager).wf(),
        old(manager).owns(old(allocator).live()),
    ensures
        final(manager).wf(),
        final(manager).owns(final(allocator).live()),
        r is Ok ==> {
            &&& final(manager).std_has(name)
            &&& !final(manager).has_temp()
            &&& final(allocator).created() == old(allocator).created() + 2
            &&& final(allocator).destroyed() == old(allocator).destroyed() + 1 + (if old(
                manager,
            ).has_temp() {
                1int
            } else {
                0int
            }) + (if old(manager).std_has(name) {
                1int
            } else {
                0int
            })
        },
        r is Err ==> {
            &&& final(manager).has_temp() || *final(manager) == *old(manager)
            &&& final(manager).uniform_buffers == old(manager).uniform_buffers
            &&& forall|s2: S|
                s2 != name ==> final(manager).std_has(s2) == old(manager).std_has(s2)
            &&& forall|s2: S|
                s2 != name && old(manager).std_has(s2) ==> final(manager).std_at(s2) == old(
                    manager,
                ).std_at(s2)
            &&& (old(manager).std_has(name) ==> final(manager).std_has(name))
            &&& old(allocator).created() <= final(allocator).created() <= old(
                allocator,
            ).created() + 2
            &&& old(allocator).destroyed() <= final(allocator).destroyed() <= old(
                allocator,
            ).destroyed() + (if old(manager).has_temp() {
                1int
            } else {
                0int
            }) + (if old(manager).std_has(name) {
                1int
            } else {
                0int
            })
        },
{
    let ghost a0 = *old(manager);
    let buffer_size = bytes.len() as u64;
    match manager.allocate_buffer_with_size(
        AllocateBufferType::Temp,
        allocator,
        TRANSFER_SRC,
        HOST_COHERENT | HOST_VISIBLE,
        buffer_size,
    ) {
        Ok(()) => {}
        Err(e) => {
            return Err(e);
        }
    }
    let ghost a1 = *manager;
    proof {
        BufferManager::lemma_std_bridge(a0, a1);
        assert(allocator.destroyed() == old(allocator).destroyed() + (if a0.has_temp() {
            1int
        } else {
            0int
        }));
    }
    match manager.copy_data_to_buffer_with_size(
        BufferManagerDataType::Data(bytes),
        BufferManagerCopyType::TempBuffer,
        allocator,
        buffer_size,
    ) {
        Ok(()) => {}
        Err(e) => {
            return Err(e);
        }
    }
    match manager.allocate_buffer_with_size(
        AllocateBufferType::Standard { name },
        allocator,
        usage | TRANSFER_DST,
        DEVICE_LOCAL,
        buffer_size,
    ) {
        Ok(()) => {}
        Err(e) => {
            return Err(e);
        }
    }
    let ghost a3 = *manager;
    proof {
        assert(a3.std_has(name));
        assert(a3.has_temp());
        assert(a1.std_has(name) == a0.std_has(name));
        assert(allocator.destroyed() == old(allocator).destroyed() + (if a0.has_temp() {
            1int
        } else {
            0int
        }) + (if a0.std_has(name) {
            1int
        } else {
            0int
        }));
    }
    match manager.copy_data_to_buffer_with_size(
        BufferManagerDataType::TempBuffer,
        BufferManagerCopyType::StandardBuffer(name),
        allocator,
        buffer_size,
    ) {
        Ok(()) => {}
        Err(e) => {
            return Err(e);
        }
    }
    manager.free_temp_buffer(allocator);
    proof {
        let a5 = *manager;
        BufferManager::lemma_std_bridge(a3, a5);
        assert(a5.std_has(name));
        assert(!a5.has_temp());
        assert(allocator.created() == old(allocator).created() + 2);
        assert(allocator.destroyed() == old(allocator).destroyed() + 1 + (if a0.has_temp() {
            1int
        } else {
            0int
        }) + (if a0.std_has(name) {
            1int
        } else {
            0int
        }));
        assert(a5.wf());
        assert(a5.owns(allocator.live()));
    }
    Ok(())
}

} // verus!
