use lemgine::ecs::chain::Chain;
use lemgine::ecs::order_up::OrderUp;
use lemgine::ecs::ordering::{Ordering, SystemOrder};
use lemgine::ecs::partial_manager::PartialManager;
use lemgine::ecs::{EventSystem, Manager, System, WinitEventSystem, World};
use lemgine::error::EngineError;
use lemgine::platform::PlatformEvent;

const KEY_COUNTER: u64 = 1;
const KEY_HITS: u64 = 2;
const KEY_LOG: u64 = 3;
const KEY_INTS: u64 = 10;
const TICK: u64 = 100;

#[derive(Debug, PartialEq, Clone)]
enum Res {
    Counter(i64),
    Hits(i64),
    Log(Vec<u64>),
}

type TestWorld = World<Res, i32, i64>;
type TestManager = Manager<Sys, NoWinit, Handler, Res, i32, i64>;
type TestPartial = PartialManager<Sys, NoWinit, Handler, Res, i32>;

struct NoWinit;

impl WinitEventSystem<Res, i32, i64> for NoWinit {
    fn run(&self, _world: &mut TestWorld, _event: &PlatformEvent) -> Result<(), EngineError> {
        Ok(())
    }
}

fn push_log(world: &mut TestWorld, id: u64) -> Result<(), EngineError> {
    match world.get_resource_mut(KEY_LOG) {
        Res::Log(entries) => {
            entries.push(id);
            Ok(())
        }
        _ => Err(EngineError::SystemFailed),
    }
}

enum Sys {
    AddCounter,
    IncAndTick,
    PushA,
    PushB,
    PushC,
}

impl System<Res, i32, i64> for Sys {
    fn run(&self, world: &mut TestWorld) -> Result<(), EngineError> {
        match self {
            Sys::AddCounter => {
                world.add_resource(KEY_COUNTER, Res::Counter(0));
                Ok(())
            }
            Sys::IncAndTick => {
                let value = match world.get_resource_mut(KEY_COUNTER) {
                    Res::Counter(v) => {
                        *v += 1;
                        *v
                    }
                    _ => return Err(EngineError::SystemFailed),
                };
                world.raise_event(TICK, value);
                Ok(())
            }
            Sys::PushA => push_log(world, 100),
            Sys::PushB => push_log(world, 101),
            Sys::PushC => push_log(world, 102),
        }
    }
}

enum Handler {
    CheckTick,
    H1,
    H2Fail,
    H3,
}

impl EventSystem<Res, i32, i64> for Handler {
    fn run(&self, world: &mut TestWorld, data: &i64) -> Result<(), EngineError> {
        match self {
            Handler::CheckTick => {
                let counter = match world.get_resource(KEY_COUNTER) {
                    Res::Counter(v) => *v,
                    _ => return Err(EngineError::SystemFailed),
                };
                if counter != *data {
                    return Err(EngineError::SystemFailed);
                }
                match world.get_resource_mut(KEY_HITS) {
                    Res::Hits(h) => {
                        *h += 1;
                        Ok(())
                    }
                    _ => Err(EngineError::SystemFailed),
                }
            }
            Handler::H1 => push_log(world, 1),
            Handler::H2Fail => {
                push_log(world, 2)?;
                Err(EngineError::SystemFailed)
            }
            Handler::H3 => push_log(world, 3),
        }
    }
}

#[test]
fn resource_first_wins() {
    let mut world: TestWorld = World::new();
    world.add_resource(KEY_COUNTER, Res::Counter(10));
    world.add_resource(KEY_COUNTER, Res::Counter(20));
    assert_eq!(*world.get_resource(KEY_COUNTER), Res::Counter(10));
    assert_eq!(world.try_get_resource(KEY_COUNTER), Some(&Res::Counter(10)));
}

#[test]
fn try_get_resource_absent() {
    let world: TestWorld = World::new();
    assert_eq!(world.try_get_resource(KEY_COUNTER), None);
    assert!(!world.has_resource(KEY_COUNTER));
}

#[test]
fn component_append_only() {
    let mut world: TestWorld = World::new();
    world.add_component(KEY_INTS, 10);
    world.add_component(KEY_INTS, 20);
    assert_eq!(world.get_components(KEY_INTS), &vec![10, 20]);
    world.add_component(KEY_INTS, 10);
    assert_eq!(world.get_components(KEY_INTS), &vec![10, 20, 10]);
}

#[test]
fn order_fidelity_build() {
    let order = SystemOrder::new(1u64).after(2).after(3);
    assert_eq!(order.order, vec![1, 2, 3]);
    let from_single = 7u64.after(8);
    assert_eq!(from_single.order, vec![7, 8]);
}

#[test]
fn order_fidelity_run() {
    let mut manager: TestManager = Manager::new()
        .unwrap()
        .add_resource(KEY_LOG, Res::Log(vec![]))
        .add_systems(SystemOrder::new(Sys::PushA).after(Sys::PushB).after(Sys::PushC));
    manager.run_frame(&PlatformEvent::AboutToWait).unwrap();
    assert_eq!(*manager.world.get_resource(KEY_LOG), Res::Log(vec![100, 101, 102]));
}

#[test]
fn event_fail_fast() {
    let mut manager: TestManager = Manager::new()
        .unwrap()
        .add_resource(KEY_LOG, Res::Log(vec![]))
        .add_event_handler(
            TICK,
            SystemOrder::new(Handler::H1).after(Handler::H2Fail).after(Handler::H3),
        );
    manager.world.raise_event(TICK, 0);
    let result = manager.check_events();
    assert_eq!(result, Err(EngineError::SystemFailed));
    assert_eq!(*manager.world.get_resource(KEY_LOG), Res::Log(vec![1, 2]));
}

#[test]
fn event_handler_first_wins() {
    let mut manager: TestManager = Manager::new()
        .unwrap()
        .add_resource(KEY_LOG, Res::Log(vec![]))
        .add_event_handler(TICK, SystemOrder::new(Handler::H1))
        .add_event_handler(TICK, SystemOrder::new(Handler::H3));
    manager.world.raise_event(TICK, 0);
    manager.check_events().unwrap();
    assert_eq!(*manager.world.get_resource(KEY_LOG), Res::Log(vec![1]));
}

#[test]
fn raise_event_queues_until_drained() {
    let mut manager: TestManager = Manager::new().unwrap();
    assert!(!manager.world.has_events());
    manager.world.raise_event(TICK, 4);
    assert!(manager.world.has_events());
    manager.check_events().unwrap();
    assert!(!manager.world.has_events());
}

#[test]
fn scenario_counter_frames() {
    let mut manager: TestManager = Manager::new()
        .unwrap()
        .add_startup_systems(SystemOrder::new(Sys::AddCounter))
        .add_systems(SystemOrder::new(Sys::IncAndTick))
        .add_event_handler(TICK, SystemOrder::new(Handler::CheckTick))
        .add_resource(KEY_HITS, Res::Hits(0));
    manager.run_startup().unwrap();
    for _ in 0..5 {
        manager.run_frame(&PlatformEvent::AboutToWait).unwrap();
    }
    assert_eq!(*manager.world.get_resource(KEY_COUNTER), Res::Counter(5));
    assert_eq!(*manager.world.get_resource(KEY_HITS), Res::Hits(5));
}

#[test]
fn scenario_partial_components() {
    let p1: TestPartial = PartialManager::new().add_component(KEY_INTS, 10);
    let p2: TestPartial = PartialManager::new().add_component(KEY_INTS, 20);
    let manager: TestManager = Manager::new().unwrap().integrate(p1).unwrap().integrate(p2).unwrap();
    assert_eq!(manager.world.get_components(KEY_INTS), &vec![10, 20]);
}

#[test]
fn scenario_partial_resource_conflict() {
    let p1: TestPartial = PartialManager::new().add_resource(KEY_COUNTER, Res::Counter(1));
    let manager: TestManager = Manager::new().unwrap().integrate(p1).unwrap();
    let p1_again: TestPartial = PartialManager::new().add_resource(KEY_COUNTER, Res::Counter(1));
    let result = manager.integrate(p1_again);
    assert!(matches!(result, Err(EngineError::AlreadyRegistered)));
}

#[test]
fn integrate_merges_systems_and_handlers() {
    let partial: TestPartial = PartialManager::new()
        .add_systems(SystemOrder::new(Sys::PushB))
        .add_event_handler(TICK, SystemOrder::new(Handler::H3));
    let mut manager: TestManager = Manager::new()
        .unwrap()
        .add_resource(KEY_LOG, Res::Log(vec![]))
        .add_systems(SystemOrder::new(Sys::PushA))
        .add_event_handler(TICK, SystemOrder::new(Handler::H1));
    manager = manager.integrate(partial).unwrap();
    manager.world.raise_event(TICK, 0);
    manager.run_frame(&PlatformEvent::AboutToWait).unwrap();
    assert_eq!(*manager.world.get_resource(KEY_LOG), Res::Log(vec![1, 3, 100, 101]));
}

#[test]
fn chain_builds_in_order() {
    let two = (1u64, 2u64).chain();
    assert_eq!(two.order, vec![1, 2]);
    let five = (1u64, 2, 3, 4, 5).chain();
    assert_eq!(five.order, vec![1, 2, 3, 4, 5]);
}

#[test]
fn order_up_builds_in_order() {
    let one = (9u64,).order_up();
    assert_eq!(one.order, vec![9]);
    let four = (1u64, 2, 3, 4).order_up();
    assert_eq!(four.order, vec![1, 2, 3, 4]);
}

#[test]
fn extend_concatenates() {
    let first = SystemOrder::new(1u64).after(2);
    let second = SystemOrder::new(3u64).extend(first);
    assert_eq!(second.order, vec![3, 1, 2]);
    let mut third: SystemOrder<u64> = SystemOrder::empty();
    third.extend_mut_ref(second);
    assert_eq!(third.order, vec![3, 1, 2]);
}

#[test]
fn integrate_merges_startup_systems() {
    let partial: TestPartial = PartialManager::new()
        .add_startup_systems(SystemOrder::new(Sys::PushB));
    let mut manager: TestManager = Manager::new()
        .unwrap()
        .add_resource(KEY_LOG, Res::Log(vec![]))
        .add_startup_systems(SystemOrder::new(Sys::PushA));
    manager = manager.integrate(partial).unwrap();
    manager.run_startup().unwrap();
    assert_eq!(*manager.world.get_resource(KEY_LOG), Res::Log(vec![100, 101]));
}

#[test]
fn set_component_replaces_in_place() {
    let mut world: TestWorld = World::new();
    world.add_component(KEY_INTS, 10);
    world.add_component(KEY_INTS, 20);
    world.set_component(KEY_INTS, 0, 11);
    assert_eq!(world.get_components(KEY_INTS), &vec![11, 20]);
}

#[test]
fn drain_events_empties_queue_in_order() {
    let mut world: TestWorld = World::new();
    world.raise_event(TICK, 1);
    world.raise_event(TICK + 1, 2);
    let drained = world.drain_events();
    assert_eq!(drained, vec![(TICK, 1), (TICK + 1, 2)]);
    assert!(!world.has_events());
}

#[test]
fn has_components_reports_registration() {
    let mut world: TestWorld = World::new();
    assert!(!world.has_components(KEY_INTS));
    world.add_component(KEY_INTS, 1);
    assert!(world.has_components(KEY_INTS));
}

#[test]
fn try_get_resource_mut_updates_in_place() {
    let mut world: TestWorld = World::new();
    assert!(world.try_get_resource_mut(KEY_COUNTER).is_none());
    world.add_resource(KEY_COUNTER, Res::Counter(1));
    if let Some(Res::Counter(v)) = world.try_get_resource_mut(KEY_COUNTER) {
        *v = 9;
    }
    assert_eq!(*world.get_resource(KEY_COUNTER), Res::Counter(9));
}
