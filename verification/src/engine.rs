use vstd::prelude::*;
use crate::platform::PlatformEvent;

verus! {

/// The frame budget at sixty frames per second, in nanoseconds: a redraw is
/// only performed when at least this much time passed since the last one.
pub const DT_FPS_60_NANO: u128 = 1_000_000_000 / 60;

/// When the last frame was rendered, as a monotonic timestamp in
/// nanoseconds.
pub struct RedrawTime(pub u128);

/// How many platform events arrived since the last rendered frame.
pub struct FPSCounter(pub u32);

/// The flags of the engine the windowing decisions read and write.
pub struct EngineState {
    /// The window has zero extent; nothing is rendered while it does.
    pub minimized: bool,
    /// The swapchain must be rebuilt before the next frame.
    pub resized: bool,
}

/// What the event loop is asked to do for one platform event.
#[derive(Clone, Copy, PartialEq, Eq, Structural, Debug)]
pub enum EngineAction {
    /// Nothing to do.
    Idle,
    /// Ask the window for a redraw.
    RequestRedraw,
    /// Render a frame now.
    Render,
    /// Tear the renderer down and leave the event loop.
    Exit,
}

/// A frame is rendered for a redraw request exactly when the loop is not
/// exiting, the window is not minimized, and the frame budget has passed.
pub open spec fn should_render(
    state: EngineState,
    redraw_nanos: u128,
    exiting: bool,
    now_nanos: u128,
) -> bool {
    !exiting && !state.minimized && now_nanos - redraw_nanos > DT_FPS_60_NANO
}

/// The decision table of the main windowing-event system: which action one
/// platform event asks of the loop.
pub open spec fn engine_action_spec(
    state: EngineState,
    redraw_nanos: u128,
    event: PlatformEvent,
    exiting: bool,
    now_nanos: u128,
) -> EngineAction {
    match event {
        PlatformEvent::AboutToWait => EngineAction::RequestRedraw,
        PlatformEvent::RedrawRequested => if should_render(state, redraw_nanos, exiting, now_nanos) {
            EngineAction::Render
        } else {
            EngineAction::Idle
        },
        PlatformEvent::Resized { .. } => EngineAction::Idle,
        PlatformEvent::CloseRequested => EngineAction::Exit,
        PlatformEvent::KeyboardInput { .. } => EngineAction::Idle,
    }
}

/// The main windowing-event decision, one call per platform event: counts
/// the event, reacts to resizes and close requests, and decides between
/// requesting a redraw, rendering a frame, doing nothing, and leaving.
///
/// When all events are processed a redraw is requested; a redraw request
/// renders only within [`should_render`], and rendering resets the event
/// counter and the frame clock; a resize to zero extent minimizes, any
/// other resize marks the swapchain stale; a close request leaves the loop.
pub fn engine_main(
    state: &mut EngineState,
    fps: &mut FPSCounter,
    redraw: &mut RedrawTime,
    event: &PlatformEvent,
    exiting: bool,
    now_nanos: u128,
) -> (r: EngineAction)
    requires
        old(fps).0 < u32::MAX,
        now_nanos >= old(redraw).0,
    ensures
        r == engine_action_spec(*old(state), old(redraw).0, *event, exiting, now_nanos),
        r == EngineAction::Render ==> final(fps).0 == 0 && final(redraw).0 == now_nanos,
        r != EngineAction::Render ==> final(fps).0 == old(fps).0 + 1 && final(redraw).0 == old(redraw).0,
        *event matches PlatformEvent::Resized { width, height } ==> final(state).minimized == (
        width == 0 || height == 0) && final(state).resized == (if width == 0 || height == 0 {
            old(state).resized
        } else {
            true
        }),
        !(*event matches PlatformEvent::Resized { .. }) ==> *final(state) == *old(state),
{
    fps.0 = fps.0 + 1;
    match *event {
        PlatformEvent::AboutToWait => EngineAction::RequestRedraw,
        PlatformEvent::RedrawRequested => {
            if !exiting && !state.minimized && now_nanos - redraw.0 > DT_FPS_60_NANO {
                redraw.0 = now_nanos;
                fps.0 = 0;
                EngineAction::Render
            } else {
                EngineAction::Idle
            }
        }
        PlatformEvent::Resized { width, height } => {
            if width == 0 || height == 0 {
                state.minimized = true;
            } else {
                state.minimized = false;
                state.resized = true;
            }
            EngineAction::Idle
        }
        PlatformEvent::CloseRequested => EngineAction::Exit,
        PlatformEvent::KeyboardInput { .. } => EngineAction::Idle,
    }
}

} // verus!
