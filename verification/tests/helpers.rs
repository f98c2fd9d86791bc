use lemgine::engine::{engine_main, EngineAction, EngineState, FPSCounter, RedrawTime, DT_FPS_60_NANO};
use lemgine::error::EngineError;
use lemgine::init::Init;
use lemgine::movement::{get_movement, MovementData, KEY_A, KEY_D, KEY_S, KEY_W};
use lemgine::platform::PlatformEvent;

fn idle_movement() -> MovementData {
    MovementData { up: false, down: false, left: false, right: false, pressed: false }
}

#[test]
fn engine_requests_redraw_when_idle() {
    let mut state = EngineState { minimized: false, resized: false };
    let mut fps = FPSCounter(3);
    let mut redraw = RedrawTime(0);
    let action = engine_main(&mut state, &mut fps, &mut redraw, &PlatformEvent::AboutToWait, false, 5);
    assert_eq!(action, EngineAction::RequestRedraw);
    assert_eq!(fps.0, 4);
}

#[test]
fn engine_renders_within_budget() {
    let mut state = EngineState { minimized: false, resized: false };
    let mut fps = FPSCounter(60);
    let mut redraw = RedrawTime(0);
    let now: u128 = DT_FPS_60_NANO + 1;
    let action =
        engine_main(&mut state, &mut fps, &mut redraw, &PlatformEvent::RedrawRequested, false, now);
    assert_eq!(action, EngineAction::Render);
    assert_eq!(fps.0, 0);
    assert_eq!(redraw.0, now);
    let soon: u128 = now + 10;
    let action2 =
        engine_main(&mut state, &mut fps, &mut redraw, &PlatformEvent::RedrawRequested, false, soon);
    assert_eq!(action2, EngineAction::Idle);
    assert_eq!(redraw.0, now);
}

#[test]
fn engine_skips_render_when_minimized_or_exiting() {
    let mut state = EngineState { minimized: true, resized: false };
    let mut fps = FPSCounter(0);
    let mut redraw = RedrawTime(0);
    let late: u128 = 10 * DT_FPS_60_NANO;
    let action =
        engine_main(&mut state, &mut fps, &mut redraw, &PlatformEvent::RedrawRequested, false, late);
    assert_eq!(action, EngineAction::Idle);
    state.minimized = false;
    let action2 =
        engine_main(&mut state, &mut fps, &mut redraw, &PlatformEvent::RedrawRequested, true, late);
    assert_eq!(action2, EngineAction::Idle);
}

#[test]
fn engine_tracks_resize() {
    let mut state = EngineState { minimized: false, resized: false };
    let mut fps = FPSCounter(0);
    let mut redraw = RedrawTime(0);
    let action = engine_main(
        &mut state,
        &mut fps,
        &mut redraw,
        &PlatformEvent::Resized { width: 0, height: 400 },
        false,
        1,
    );
    assert_eq!(action, EngineAction::Idle);
    assert!(state.minimized);
    assert!(!state.resized);
    engine_main(
        &mut state,
        &mut fps,
        &mut redraw,
        &PlatformEvent::Resized { width: 800, height: 600 },
        false,
        2,
    );
    assert!(!state.minimized);
    assert!(state.resized);
}

#[test]
fn engine_exits_on_close() {
    let mut state = EngineState { minimized: false, resized: false };
    let mut fps = FPSCounter(0);
    let mut redraw = RedrawTime(0);
    let action =
        engine_main(&mut state, &mut fps, &mut redraw, &PlatformEvent::CloseRequested, false, 1);
    assert_eq!(action, EngineAction::Exit);
}

#[test]
fn movement_tracks_keys() {
    let mut data = idle_movement();
    get_movement(&mut data, &PlatformEvent::KeyboardInput { key: KEY_W, pressed: true });
    get_movement(&mut data, &PlatformEvent::KeyboardInput { key: KEY_A, pressed: true });
    assert!(data.up && data.left && !data.down && !data.right);
    get_movement(&mut data, &PlatformEvent::KeyboardInput { key: KEY_W, pressed: false });
    assert!(!data.up && data.left);
    get_movement(&mut data, &PlatformEvent::KeyboardInput { key: 999, pressed: true });
    assert!(!data.up && data.left && !data.down && !data.right);
    get_movement(&mut data, &PlatformEvent::AboutToWait);
    assert!(!data.up && data.left);
}

#[test]
fn movement_diagonal() {
    let mut data = idle_movement();
    data.up = true;
    data.left = true;
    assert!(data.diagonal());
    data.down = true;
    data.right = true;
    assert!(!data.diagonal());
    data.right = false;
    data.down = false;
    data.left = false;
    assert!(!data.diagonal());
    get_movement(&mut data, &PlatformEvent::KeyboardInput { key: KEY_S, pressed: true });
    get_movement(&mut data, &PlatformEvent::KeyboardInput { key: KEY_D, pressed: true });
    assert!(data.diagonal());
}

#[test]
fn init_holds_value() {
    let mut slot: Init<u32> = Init::uninit();
    slot.init(41);
    assert_eq!(*slot.get(), 41);
    slot.init(42);
    assert_eq!(*slot.get(), 42);
}

#[test]
fn error_messages_distinct() {
    assert_eq!(EngineError::NotFound.message(), "entry was never registered");
    assert_ne!(EngineError::SameBufferCopy.message(), EngineError::NotFound.message());
    assert_ne!(
        EngineError::NoSuitableMemoryType.message(),
        EngineError::DeviceOperationFailed.message()
    );
    assert_ne!(EngineError::AlreadyRegistered.message(), EngineError::SystemFailed.message());
}
