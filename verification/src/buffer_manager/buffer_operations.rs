use vstd::prelude::*;
use crate::error::EngineError;

verus! {

/// The allocation side of the graphics-device boundary. An allocator deals
/// out buffer handles and destroys them, and keeps the ledger the manager's
/// leak-freedom rests on: how many buffers were created, how many were
/// destroyed, and which are live right now.
///
/// Every buffer is created together with its backing memory and destroyed
/// together with it; a handle returned by `allocate_with_size` is fresh, and
/// `free` may only be asked for a live handle, so a caller that proves its
/// calls can neither double-free nor touch freed memory.
pub trait BufferAllocator: Sized {
    /// The buffer handle type this allocator deals out.
    type Output;

    /// How many buffers this allocator has created so far. The body here
    /// is a placeholder so that unverified code can implement the trait
    /// with its executable methods alone; a verified implementation
    /// overrides it with its real ledger.
    open spec fn created(&self) -> nat {
        0
    }

    /// How many buffers this allocator has destroyed so far; a placeholder
    /// for the same reason as `created`.
    open spec fn destroyed(&self) -> nat {
        0
    }

    /// The handles created and not yet destroyed; a placeholder for the
    /// same reason as `created`.
    open spec fn live(&self) -> Set<Self::Output> {
        Set::empty()
    }

    /// Creates a buffer of `size` bytes with its backing memory, for the
    /// given usage flags and with the given memory property flags. On
    /// success the returned handle is fresh and live; on failure nothing
    /// changed.
    fn allocate_with_size(&mut self, size: u64, usage: u32, properties: u32) -> (r: Result<
        Self::Output,
        EngineError,
    >)
        ensures
            match r {
                Ok(b) => {
                    &&& !old(self).live().contains(b)
                    &&& final(self).live() == old(self).live().insert(b)
                    &&& final(self).created() == old(self).created() + 1
                    &&& final(self).destroyed() == old(self).destroyed()
                },
                Err(_) => *final(self) == *old(self),
            },
    ;

    /// Destroys a live buffer and its backing memory, in one call.
    fn free(&mut self, buffer: Self::Output)
        requires
            old(self).live().contains(buffer),
        ensures
            final(self).live() == old(self).live().remove(buffer),
            final(self).destroyed() == old(self).destroyed() + 1,
            final(self).created() == old(self).created(),
    ;

    /// Writes host bytes into a live buffer's memory (the map, copy, unmap
    /// path). Never creates or destroys a buffer.
    fn write_bytes(&mut self, destination: Self::Output, data: &[u8], size: u64) -> (r: Result<
        (),
        EngineError,
    >)
        requires
            old(self).live().contains(destination),
        ensures
            final(self).live() == old(self).live(),
            final(self).created() == old(self).created(),
            final(self).destroyed() == old(self).destroyed(),
    ;
}

/// The device-side copy of the boundary: record and submit a one-shot copy
/// command from one live buffer to another and wait for it, synchronously.
/// Never creates or destroys a buffer.
pub trait SupportsCopying: BufferAllocator {
    /// Copies `size` bytes between two distinct live buffers.
    fn copy(&mut self, source: Self::Output, destination: Self::Output, size: u64) -> (r: Result<
        (),
        EngineError,
    >)
        requires
            old(self).live().contains(source),
            old(self).live().contains(destination),
            source != destination,
        ensures
            final(self).live() == old(self).live(),
            final(self).created() == old(self).created(),
            final(self).destroyed() == old(self).destroyed(),
    ;
}

/// Accessors a buffer handle offers: the buffer object and its memory.
pub trait BufferOperations {
    /// The buffer object's type.
    type BufferType;

    /// The backing memory's type.
    type MemoryType;

    /// The buffer object.
    fn get_buffer(&self) -> Self::BufferType;

    /// The backing memory.
    fn get_memory(&self) -> Self::MemoryType;
}

} // verus!
