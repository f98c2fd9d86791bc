use vstd::prelude::*;

verus! {

/// The single error taxonomy of the engine core.
///
/// `NotFound`: a resource, component list or buffer slot was never registered.
/// `AlreadyRegistered`: a resource merge conflict while integrating a partial manager.
/// `SameBufferCopy`: a buffer copy whose source and destination name the same slot kind.
/// `NoSuitableMemoryType`: the device offers no memory type with the requested properties.
/// `DeviceOperationFailed`: an opaque failure reported by the graphics-device boundary.
/// `SystemFailed`: a user system reported an error; dispatch stops and the error propagates.
#[derive(Clone, Copy, PartialEq, Eq, Structural, Debug)]
pub enum EngineError {
    NotFound,
    AlreadyRegistered,
    SameBufferCopy,
    NoSuitableMemoryType,
    DeviceOperationFailed,
    SystemFailed,
}

impl EngineError {
    /// A short diagnostic text for each error kind.
    pub fn message(&self) -> (r: &'static str) {
        match self {
            EngineError::NotFound => "entry was never registered",
            EngineError::AlreadyRegistered => "resource exists in the world already",
            EngineError::SameBufferCopy => "copy source and destination are the same",
            EngineError::NoSuitableMemoryType => "failed to find a suitable memory type",
            EngineError::DeviceOperationFailed => "a device operation failed",
            EngineError::SystemFailed => "a system reported an error",
        }
    }
}

} // verus!
