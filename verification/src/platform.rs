use vstd::prelude::*;

verus! {

/// The closed set of platform events the core consumes from the windowing
/// collaborator. The event loop at the boundary translates its raw events
/// into this set and hands them to the windowing-event systems.
#[derive(Clone, Copy, PartialEq, Eq, Structural, Debug)]
pub enum PlatformEvent {
    /// All pending events were processed; a redraw may be requested.
    AboutToWait,
    /// The window asks to be painted again.
    RedrawRequested,
    /// The window was resized; a zero extent means it is minimized.
    Resized { width: u32, height: u32 },
    /// The user asked to close the window.
    CloseRequested,
    /// A key went down or up.
    KeyboardInput { key: u32, pressed: bool },
}

} // verus!
