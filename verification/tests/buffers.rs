use lemgine::buffer_manager::buffer_operations::{BufferAllocator, BufferOperations};
use lemgine::buffer_manager::buffer_pair::{
    BufferPair, BufferPairData, StandardBufferMaps, UniformBufferMaps,
};
use lemgine::buffer_manager::{
    AllocateBufferType, BufferManager, BufferManagerCopyType, BufferManagerDataType,
};
use lemgine::error::EngineError;
use lemgine::shared_helpers::{
    create_index_buffer, create_vertex_buffer, get_memory_type_index, DEVICE_LOCAL, HOST_COHERENT,
    HOST_VISIBLE, TRANSFER_SRC,
};

type TestBufferManager = BufferManager<BufferPair, StandardBufferMaps, UniformBufferMaps>;

fn fresh_allocator() -> BufferPairData {
    BufferPairData::new(vec![DEVICE_LOCAL | HOST_VISIBLE | HOST_COHERENT], 0b1)
}

#[test]
fn standard_replace_no_leak() {
    let mut manager: TestBufferManager = BufferManager::new();
    let mut alloc = fresh_allocator();
    manager
        .allocate_buffer_with_size(
            AllocateBufferType::Standard { name: StandardBufferMaps::Vertices },
            &mut alloc,
            TRANSFER_SRC,
            DEVICE_LOCAL,
            64,
        )
        .unwrap();
    manager
        .allocate_buffer_with_size(
            AllocateBufferType::Standard { name: StandardBufferMaps::Vertices },
            &mut alloc,
            TRANSFER_SRC,
            DEVICE_LOCAL,
            128,
        )
        .unwrap();
    assert_eq!(alloc.created_count(), 2);
    assert_eq!(alloc.destroyed_count(), alloc.created_count() - 1);
    assert_eq!(alloc.live_count(), 1);
    manager.free_standard_buffer(StandardBufferMaps::Vertices, &mut alloc);
    assert_eq!(alloc.destroyed_count(), alloc.created_count());
    assert_eq!(alloc.live_count(), 0);
    manager.free_standard_buffer(StandardBufferMaps::Vertices, &mut alloc);
    assert_eq!(alloc.destroyed_count(), 2);
}

#[test]
fn temp_singleton_no_leak() {
    let mut manager: TestBufferManager = BufferManager::new();
    let mut alloc = fresh_allocator();
    manager
        .allocate_buffer_with_size(
            AllocateBufferType::Temp,
            &mut alloc,
            TRANSFER_SRC,
            HOST_VISIBLE | HOST_COHERENT,
            64,
        )
        .unwrap();
    manager
        .allocate_buffer_with_size(
            AllocateBufferType::Temp,
            &mut alloc,
            TRANSFER_SRC,
            HOST_VISIBLE | HOST_COHERENT,
            64,
        )
        .unwrap();
    assert_eq!(alloc.created_count(), 2);
    assert_eq!(alloc.destroyed_count(), alloc.created_count() - 1);
    manager.free_temp_buffer(&mut alloc);
    assert_eq!(alloc.destroyed_count(), 2);
    manager.free_temp_buffer(&mut alloc);
    assert_eq!(alloc.destroyed_count(), 2);
}

#[test]
fn copy_rejects_self_copy() {
    let mut manager: TestBufferManager = BufferManager::new();
    let mut alloc = fresh_allocator();
    manager
        .allocate_buffer_with_size(
            AllocateBufferType::Standard { name: StandardBufferMaps::Vertices },
            &mut alloc,
            TRANSFER_SRC,
            DEVICE_LOCAL,
            64,
        )
        .unwrap();
    let created_before: u64 = alloc.created_count();
    let destroyed_before: u64 = alloc.destroyed_count();
    let result = manager.copy_data_to_buffer_with_size(
        BufferManagerDataType::StandardBuffer { name: StandardBufferMaps::Vertices },
        BufferManagerCopyType::StandardBuffer(StandardBufferMaps::Vertices),
        &mut alloc,
        64,
    );
    assert_eq!(result, Err(EngineError::SameBufferCopy));
    assert_eq!(alloc.created_count(), created_before);
    assert_eq!(alloc.destroyed_count(), destroyed_before);
}

#[test]
fn copy_between_standard_names_is_legal() {
    let mut manager: TestBufferManager = BufferManager::new();
    let mut alloc = fresh_allocator();
    for name in [StandardBufferMaps::Vertices, StandardBufferMaps::Indices] {
        manager
            .allocate_buffer_with_size(
                AllocateBufferType::Standard { name },
                &mut alloc,
                TRANSFER_SRC,
                DEVICE_LOCAL,
                64,
            )
            .unwrap();
    }
    let result = manager.copy_data_to_buffer_with_size(
        BufferManagerDataType::StandardBuffer { name: StandardBufferMaps::Vertices },
        BufferManagerCopyType::StandardBuffer(StandardBufferMaps::Indices),
        &mut alloc,
        64,
    );
    assert_eq!(result, Ok(()));
    assert_eq!(alloc.created_count(), 2);
    assert_eq!(alloc.destroyed_count(), 0);
}

#[test]
fn copy_between_uniform_entries() {
    let mut manager: TestBufferManager = BufferManager::new();
    let mut alloc = fresh_allocator();
    for _ in 0..2 {
        manager
            .allocate_buffer_with_size(
                AllocateBufferType::Uniform { name: UniformBufferMaps::ModelViewProject },
                &mut alloc,
                TRANSFER_SRC,
                HOST_VISIBLE,
                16,
            )
            .unwrap();
    }
    let same_entry = manager.copy_data_to_buffer_with_size(
        BufferManagerDataType::UniformBuffers { name: UniformBufferMaps::ModelViewProject, index: 0 },
        BufferManagerCopyType::UniformBuffers(UniformBufferMaps::ModelViewProject, 0),
        &mut alloc,
        16,
    );
    assert_eq!(same_entry, Err(EngineError::SameBufferCopy));
    let other_entry = manager.copy_data_to_buffer_with_size(
        BufferManagerDataType::UniformBuffers { name: UniformBufferMaps::ModelViewProject, index: 0 },
        BufferManagerCopyType::UniformBuffers(UniformBufferMaps::ModelViewProject, 1),
        &mut alloc,
        16,
    );
    assert_eq!(other_entry, Ok(()));
}

#[test]
fn copy_missing_target_not_found() {
    let mut manager: TestBufferManager = BufferManager::new();
    let mut alloc = fresh_allocator();
    let result = manager.copy_data_to_buffer_with_size(
        BufferManagerDataType::Data(vec![1, 2, 3]),
        BufferManagerCopyType::TempBuffer,
        &mut alloc,
        3,
    );
    assert_eq!(result, Err(EngineError::NotFound));
}

#[test]
fn staging_copy_path() {
    let mut manager: TestBufferManager = BufferManager::new();
    let mut alloc = fresh_allocator();
    manager
        .allocate_buffer_with_size(
            AllocateBufferType::Temp,
            &mut alloc,
            TRANSFER_SRC,
            HOST_VISIBLE | HOST_COHERENT,
            4,
        )
        .unwrap();
    manager
        .allocate_buffer_with_size(
            AllocateBufferType::Standard { name: StandardBufferMaps::Vertices },
            &mut alloc,
            TRANSFER_SRC,
            DEVICE_LOCAL,
            4,
        )
        .unwrap();
    manager
        .copy_data_to_buffer_with_size(
            BufferManagerDataType::Data(vec![9, 9, 9, 9]),
            BufferManagerCopyType::TempBuffer,
            &mut alloc,
            4,
        )
        .unwrap();
    manager
        .copy_data_to_buffer_with_size(
            BufferManagerDataType::TempBuffer,
            BufferManagerCopyType::StandardBuffer(StandardBufferMaps::Vertices),
            &mut alloc,
            4,
        )
        .unwrap();
    assert_eq!(alloc.created_count(), 2);
    assert_eq!(alloc.destroyed_count(), 0);
}

#[test]
fn uniform_lifecycle() {
    let mut manager: TestBufferManager = BufferManager::new();
    let mut alloc = fresh_allocator();
    manager.setup_uniform_buffer(UniformBufferMaps::ModelViewProject);
    assert_eq!(manager.get_uniform_buffers(UniformBufferMaps::ModelViewProject).len(), 0);
    manager
        .allocate_buffer_with_size(
            AllocateBufferType::Uniform { name: UniformBufferMaps::ModelViewProject },
            &mut alloc,
            TRANSFER_SRC,
            HOST_VISIBLE,
            16,
        )
        .unwrap();
    manager
        .allocate_buffer_with_size(
            AllocateBufferType::Uniform { name: UniformBufferMaps::ModelViewProject },
            &mut alloc,
            TRANSFER_SRC,
            HOST_VISIBLE,
            16,
        )
        .unwrap();
    assert_eq!(manager.get_uniform_buffers(UniformBufferMaps::ModelViewProject).len(), 2);
    assert_eq!(alloc.created_count(), 2);
    manager.free_uniform_buffers(UniformBufferMaps::ModelViewProject, &mut alloc);
    assert_eq!(manager.get_uniform_buffers(UniformBufferMaps::ModelViewProject).len(), 0);
    assert_eq!(alloc.destroyed_count(), 2);
    assert_eq!(alloc.live_count(), 0);
}

#[test]
fn create_vertex_buffer_counts() {
    let mut manager: TestBufferManager = BufferManager::new();
    let mut alloc = fresh_allocator();
    create_vertex_buffer(&mut manager, &mut alloc, StandardBufferMaps::Vertices, vec![1, 2, 3, 4])
        .unwrap();
    assert_eq!(alloc.created_count(), 2);
    assert_eq!(alloc.destroyed_count(), 1);
    assert_eq!(alloc.live_count(), 1);
    let pair = manager.get_standard_buffer(StandardBufferMaps::Vertices);
    assert_eq!(pair.get_buffer(), pair.buffer);
    assert_eq!(pair.get_memory(), pair.memory);
}

#[test]
fn create_index_buffer_counts() {
    let mut manager: TestBufferManager = BufferManager::new();
    let mut alloc = fresh_allocator();
    create_index_buffer(&mut manager, &mut alloc, StandardBufferMaps::Indices, vec![0, 1, 2])
        .unwrap();
    create_index_buffer(&mut manager, &mut alloc, StandardBufferMaps::Indices, vec![0, 1, 2])
        .unwrap();
    assert_eq!(alloc.created_count(), 4);
    assert_eq!(alloc.destroyed_count(), 3);
    assert_eq!(alloc.live_count(), 1);
}

#[test]
fn no_suitable_memory_type() {
    let mut manager: TestBufferManager = BufferManager::new();
    let mut alloc = BufferPairData::new(vec![HOST_VISIBLE], 0b1);
    let result = manager.allocate_buffer_with_size(
        AllocateBufferType::Temp,
        &mut alloc,
        TRANSFER_SRC,
        DEVICE_LOCAL,
        64,
    );
    assert_eq!(result, Err(EngineError::NoSuitableMemoryType));
    assert_eq!(alloc.created_count(), 0);
}

#[test]
fn memory_type_index_picks_first_match() {
    let types = vec![DEVICE_LOCAL, HOST_VISIBLE | HOST_COHERENT, 0x7];
    assert_eq!(get_memory_type_index(&types, 0b110, HOST_VISIBLE | HOST_COHERENT), Ok(1));
    assert_eq!(get_memory_type_index(&types, 0b111, DEVICE_LOCAL), Ok(0));
    assert_eq!(
        get_memory_type_index(&types, 0b000, DEVICE_LOCAL),
        Err(EngineError::NoSuitableMemoryType)
    );
}

#[test]
fn buffer_pair_split() {
    let pair = BufferPair::new(11, 22);
    assert_eq!(pair.split(), (11, 22));
}

#[test]
fn copy_uniform_index_out_of_range() {
    let mut manager: TestBufferManager = BufferManager::new();
    let mut alloc = fresh_allocator();
    manager.setup_uniform_buffer(UniformBufferMaps::ModelViewProject);
    manager
        .allocate_buffer_with_size(
            AllocateBufferType::Temp,
            &mut alloc,
            TRANSFER_SRC,
            HOST_VISIBLE,
            8,
        )
        .unwrap();
    let result = manager.copy_data_to_buffer_with_size(
        BufferManagerDataType::TempBuffer,
        BufferManagerCopyType::UniformBuffers(UniformBufferMaps::ModelViewProject, 0),
        &mut alloc,
        8,
    );
    assert_eq!(result, Err(EngineError::NotFound));
}

#[test]
fn free_absent_uniform_is_no_op() {
    let mut manager: TestBufferManager = BufferManager::new();
    let mut alloc = fresh_allocator();
    manager.free_uniform_buffers(UniformBufferMaps::TextureSampler, &mut alloc);
    assert_eq!(alloc.created_count(), 0);
    assert_eq!(alloc.destroyed_count(), 0);
}

struct FailingDevice;

impl BufferAllocator for FailingDevice {
    type Output = BufferPair;

    fn allocate_with_size(
        &mut self,
        _size: u64,
        _usage: u32,
        _properties: u32,
    ) -> Result<BufferPair, EngineError> {
        Err(EngineError::DeviceOperationFailed)
    }

    fn free(&mut self, _buffer: BufferPair) {}

    fn write_bytes(
        &mut self,
        _destination: BufferPair,
        _data: &[u8],
        _size: u64,
    ) -> Result<(), EngineError> {
        Ok(())
    }
}

#[test]
fn device_failure_passes_through() {
    let mut manager: TestBufferManager = BufferManager::new();
    let mut device = FailingDevice;
    let result = manager.allocate_buffer_with_size(
        AllocateBufferType::Temp,
        &mut device,
        TRANSFER_SRC,
        HOST_VISIBLE,
        8,
    );
    assert_eq!(result, Err(EngineError::DeviceOperationFailed));
}
