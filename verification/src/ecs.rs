use vstd::prelude::*;
use crate::error::EngineError;
use crate::platform::PlatformEvent;
use crate::store::Table;
use crate::ecs::ordering::SystemOrder;
use crate::ecs::partial_manager::PartialManager;

pub mod chain;
pub mod order_up;
pub mod ordering;
pub mod partial_manager;

verus! {

/// A per-frame or startup system: plain logic run against the world.
/// A closed set of systems is one type implementing this trait.
pub trait System<R, C, D> {
    /// Runs the system once; an error is fatal to the run loop.
    fn run(&self, world: &mut World<R, C, D>) -> Result<(), EngineError>;
}

/// A system run once per raw platform event.
pub trait WinitEventSystem<R, C, D> {
    /// Runs the system for one platform event.
    fn run(&self, world: &mut World<R, C, D>, event: &PlatformEvent) -> Result<(), EngineError>;
}

/// A handler run for each drained event of the kind it was registered for.
pub trait EventSystem<R, C, D> {
    /// Handles one event payload; an error aborts dispatch of the
    /// remaining handlers for that event.
    fn run(&self, world: &mut World<R, C, D>, data: &D) -> Result<(), EngineError>;
}

/// The world: the type-keyed resource store (one value per key), the
/// type-keyed component lists (many values per key, in insertion order),
/// and the queue of raised but not yet dispatched events.
///
/// `R` and `C` are the closed unions of resource and component values;
/// `D` is the union of event payloads. A key identifies one concrete
/// member of the union, playing the role of a runtime type identifier.
pub struct World<R, C, D> {
    resources: Table<u64, R>,
    components: Table<u64, Vec<C>>,
    new_events: Vec<(u64, D)>,
}

impl<R, C, D> World<R, C, D> {
    /// The resource store, as a value.
    pub closed spec fn res_table(&self) -> Table<u64, R> {
        self.resources
    }

    /// The component store, as a value.
    pub closed spec fn comp_table(&self) -> Table<u64, Vec<C>> {
        self.components
    }

    /// The queue of raised, undispatched events, oldest first.
    pub closed spec fn events(&self) -> Seq<(u64, D)> {
        self.new_events@
    }

    /// Both stores have pairwise-distinct keys.
    pub open spec fn wf(&self) -> bool {
        self.res_table().wf() && self.comp_table().wf()
    }

    /// Whether a resource is registered under `key`.
    pub open spec fn res_has(&self, key: u64) -> bool {
        self.res_table().contains_spec(key)
    }

    /// The resource registered under `key`.
    pub open spec fn res_at(&self, key: u64) -> R {
        self.res_table().get_spec(key)
    }

    /// Whether a component list is registered under `key`.
    pub open spec fn comp_has(&self, key: u64) -> bool {
        self.comp_table().contains_spec(key)
    }

    /// The component list registered under `key`, in insertion order.
    pub open spec fn comps_at(&self, key: u64) -> Seq<C> {
        self.comp_table().get_spec(key)@
    }

    /// A fresh world: nothing registered, no events pending.
    pub fn new() -> (r: Self)
        ensures
            r.wf(),
            forall|k: u64| !r.res_has(k),
            forall|k: u64| !r.comp_has(k),
            r.events() == Seq::<(u64, D)>::empty(),
    {
        World { resources: Table::new(), components: Table::new(), new_events: Vec::new() }
    }

    /// `post` is what registering `value` under `key` in `pre` leaves
    /// behind: with `key` already registered nothing moves, and otherwise
    /// `key` now holds `value` while everything else is untouched.
    pub open spec fn added_resource(pre: Self, post: Self, key: u64, value: R) -> bool {
        &&& pre.res_has(key) ==> post == pre
        &&& !pre.res_has(key) ==> post.res_at(key) == value
        &&& forall|k2: u64| post.res_has(k2) == (pre.res_has(k2) || k2 == key)
        &&& forall|k2: u64| k2 != key && pre.res_has(k2) ==> post.res_at(k2) == pre.res_at(k2)
        &&& post.comp_table() == pre.comp_table()
        &&& post.events() == pre.events()
    }

    /// The resource singleton law: registering under one key twice keeps
    /// the first value, whatever the second was, so a lookup after both
    /// calls sees the first value and never the second.
    pub proof fn lemma_resource_singleton(w0: Self, w1: Self, w2: Self, key: u64, v1: R, v2: R)
        requires
            !w0.res_has(key),
            Self::added_resource(w0, w1, key, v1),
            Self::added_resource(w1, w2, key, v2),
        ensures
            w2.res_has(key),
            w2.res_at(key) == v1,
    {
    }

    /// `post` is what appending `c` under `key` in `pre` leaves behind: the
    /// list under `key` grew by `c` at its end and everything else is
    /// untouched.
    pub open spec fn appended_component(pre: Self, post: Self, key: u64, c: C) -> bool {
        &&& forall|k2: u64| post.comp_has(k2) == (pre.comp_has(k2) || k2 == key)
        &&& post.comps_at(key) == (if pre.comp_has(key) {
            pre.comps_at(key)
        } else {
            Seq::<C>::empty()
        }).push(c)
        &&& forall|k2: u64| k2 != key && pre.comp_has(k2) ==> post.comps_at(k2) == pre.comps_at(k2)
        &&& post.res_table() == pre.res_table()
        &&& post.events() == pre.events()
    }

    /// The append-only law: appending `v1` then `v2` under one key yields
    /// the list ending in exactly `v1, v2`, in that order, never reordered
    /// and never deduplicated.
    pub proof fn lemma_component_append_order(w0: Self, w1: Self, w2: Self, key: u64, v1: C, v2: C)
        requires
            !w0.comp_has(key),
            Self::appended_component(w0, w1, key, v1),
            Self::appended_component(w1, w2, key, v2),
        ensures
            w2.comp_has(key),
            w2.comps_at(key) =~= seq![v1, v2],
    {
        assert(w1.comps_at(key) =~= seq![v1]);
    }

    /// Registers a resource under `key`. The first registration wins: when a
    /// resource already exists under `key`, the world is left untouched and
    /// `value` is discarded.
    pub fn add_resource(&mut self, key: u64, value: R)
        requires
            old(self).wf(),
        ensures
            final(self).wf(),
            old(self).res_has(key) ==> *final(self) == *old(self),
            !old(self).res_has(key) ==> final(self).res_at(key) == value,
            forall|k2: u64| final(self).res_has(k2) == (old(self).res_has(k2) || k2 == key),
            forall|k2: u64|
                k2 != key && old(self).res_has(k2) ==> final(self).res_at(k2) == old(
                self,
                ).res_at(k2),
            final(self).comp_table() == old(self).comp_table(),
            final(self).events() == old(self).events(),
            Self::added_resource(*old(self), *final(self), key, value),
    {
        if !self.resources.contains(&key) {
            self.resources.insert_new(key, value);
        }
    }

    /// Shared access to the resource under `key`; the registration must
    /// exist, there is no silent default.
    pub fn get_resource(&self, key: u64) -> (r: &R)
        requires
            self.wf(),
            self.res_has(key),
        ensures
            *r == self.res_at(key),
    {
        self.resources.get(&key)
    }

    /// Shared access to the resource under `key`, or `None` when `key` was
    /// never registered.
    pub fn try_get_resource(&self, key: u64) -> (r: Option<&R>)
        requires
            self.wf(),
        ensures
            match r {
                Some(v) => self.res_has(key) && *v == self.res_at(key),
                None => !self.res_has(key),
            },
    {
        self.resources.try_get(&key)
    }

    /// `post` is `pre` with the resource under `key` replaced by `v` and
    /// everything else untouched.
    pub open spec fn res_updated(pre: Self, post: Self, key: u64, v: R) -> bool {
        Table::updated_at(pre.res_table(), post.res_table(), key, v) && post.comp_table()
            == pre.comp_table() && post.events() == pre.events()
    }

    /// What a resource update means for the lookup functions.
    pub proof fn lemma_res_updated(pre: Self, post: Self, key: u64, v: R)
        requires
            pre.wf(),
            pre.res_has(key),
            Self::res_updated(pre, post, key, v),
        ensures
            post.wf(),
            forall|k2: u64| post.res_has(k2) == pre.res_has(k2),
            post.res_at(key) == v,
            forall|k2: u64| k2 != key && pre.res_has(k2) ==> post.res_at(k2) == pre.res_at(k2),
            forall|k2: u64| post.comp_has(k2) == pre.comp_has(k2),
            forall|k2: u64| pre.comp_has(k2) ==> post.comps_at(k2) == pre.comps_at(k2),
            post.events() == pre.events(),
    {
        Table::lemma_updated(pre.res_table(), post.res_table(), key, v);
    }

    /// Exclusive access to the resource under `key`: the returned reference
    /// reads the registered value, and whatever is left in it is the one
    /// change made to the world (see [`World::lemma_res_updated`]).
    pub fn get_resource_mut(&mut self, key: u64) -> (r: &mut R)
        requires
            old(self).wf(),
            old(self).res_has(key),
        ensures
            *r == old(self).res_at(key),
            Self::res_updated(*old(self), *final(self), key, *final(r)),
    {
        self.resources.get_mut(&key)
    }

    /// Exclusive access to the resource under `key`, or `None` when `key`
    /// was never registered; with `Some` the one change made to the world is
    /// what is left in the reference (see [`World::lemma_res_updated`]).
    pub fn try_get_resource_mut(&mut self, key: u64) -> (r: Option<&mut R>)
        requires
            old(self).wf(),
        ensures
            match r {
                Some(v) => old(self).res_has(key) && *v == old(self).res_at(key)
                    && Self::res_updated(*old(self), *final(self), key, *final(v)),
                None => !old(self).res_has(key) && *final(self) == *old(self),
            },
    {
        if self.resources.contains(&key) {
            Some(self.resources.get_mut(&key))
        } else {
            None
        }
    }

    /// Appends a component under `key`: the list under `key` grows by one at
    /// its end, and every other list is untouched.
    pub fn add_component(&mut self, key: u64, component: C)
        requires
            old(self).wf(),
        ensures
            final(self).wf(),
            forall|k2: u64| final(self).comp_has(k2) == (old(self).comp_has(k2) || k2 == key),
            final(self).comps_at(key) == if old(self).comp_has(key) {
                old(self).comps_at(key).push(component)
            } else {
                seq![component]
            },
            forall|k2: u64|
                k2 != key && old(self).comp_has(k2) ==> final(self).comps_at(k2) == old(
                self,
                ).comps_at(k2),
            final(self).res_table() == old(self).res_table(),
            final(self).events() == old(self).events(),
            Self::appended_component(*old(self), *final(self), key, component),
    {
        let ghost pre = *self;
        if self.components.contains(&key) {
            let list = self.components.get_mut(&key);
            list.push(component);
            let ghost vnew: Vec<C> = *list;
            proof {
                Table::lemma_updated(pre.components, self.components, key, vnew);
            }
        } else {
            let mut list: Vec<C> = Vec::new();
            list.push(component);
            self.components.insert_new(key, list);
        }
    }

    /// Appends a whole list of components under `key`, keeping their order.
    pub fn append_components(&mut self, key: u64, mut items: Vec<C>)
        requires
            old(self).wf(),
        ensures
            final(self).wf(),
            forall|k2: u64| final(self).comp_has(k2) == (old(self).comp_has(k2) || k2 == key),
            final(self).comps_at(key) == if old(self).comp_has(key) {
                old(self).comps_at(key) + items@
            } else {
                items@
            },
            forall|k2: u64|
                k2 != key && old(self).comp_has(k2) ==> final(self).comps_at(k2) == old(
                self,
                ).comps_at(k2),
            final(self).res_table() == old(self).res_table(),
            final(self).events() == old(self).events(),
    {
        let ghost pre = *self;
        let ghost items0 = items@;
        if self.components.contains(&key) {
            let list = self.components.get_mut(&key);
            list.append(&mut items);
            let ghost vnew: Vec<C> = *list;
            proof {
                Table::lemma_updated(pre.components, self.components, key, vnew);
            }
        } else {
            self.components.insert_new(key, items);
        }
    }

    /// Shared access to the component list under `key`; the registration
    /// must exist, there is no silent default.
    pub fn get_components(&self, key: u64) -> (r: &Vec<C>)
        requires
            self.wf(),
            self.comp_has(key),
        ensures
            r@ == self.comps_at(key),
    {
        self.components.get(&key)
    }

    /// Whether a resource is registered under `key`.
    pub fn has_resource(&self, key: u64) -> (r: bool)
        requires
            self.wf(),
        ensures
            r == self.res_has(key),
    {
        self.resources.contains(&key)
    }

    /// Whether a component list is registered under `key`.
    pub fn has_components(&self, key: u64) -> (r: bool)
        requires
            self.wf(),
        ensures
            r == self.comp_has(key),
    {
        self.components.contains(&key)
    }

    /// Whether any raised event is waiting to be dispatched.
    pub fn has_events(&self) -> (r: bool)
        ensures
            r == (self.events().len() != 0),
    {
        self.new_events.len() != 0
    }

    /// Replaces the component at `index` in the list under `key`. The list
    /// keeps its length and order: single instances are mutable, the list
    /// structure itself only ever grows by appending.
    pub fn set_component(&mut self, key: u64, index: usize, component: C)
        requires
            old(self).wf(),
            old(self).comp_has(key),
            index < old(self).comps_at(key).len(),
        ensures
            final(self).wf(),
            forall|k2: u64| final(self).comp_has(k2) == old(self).comp_has(k2),
            final(self).comps_at(key) == old(self).comps_at(key).update(
                index as int,
                component,
            ),
            forall|k2: u64|
                k2 != key && old(self).comp_has(k2) ==> final(self).comps_at(k2) == old(
                self,
                ).comps_at(k2),
            final(self).res_table() == old(self).res_table(),
            final(self).events() == old(self).events(),
    {
        let ghost pre = *self;
        let list = self.components.get_mut(&key);
        list[index] = component;
        let ghost vnew: Vec<C> = *list;
        proof {
            Table::lemma_updated(pre.components, self.components, key, vnew);
        }
    }

    /// Raises an event: appends it to the queue. Dispatch is pulled by the
    /// manager once per frame phase; raising never dispatches.
    pub fn raise_event(&mut self, kind: u64, data: D)
        ensures
            final(self).events() == old(self).events().push((kind, data)),
            final(self).res_table() == old(self).res_table(),
            final(self).comp_table() == old(self).comp_table(),
    {
        self.new_events.push((kind, data));
    }

    /// Takes the whole event queue, leaving it empty.
    pub fn drain_events(&mut self) -> (r: Vec<(u64, D)>)
        ensures
            r@ == old(self).events(),
            final(self).events() == Seq::<(u64, D)>::empty(),
            final(self).res_table() == old(self).res_table(),
            final(self).comp_table() == old(self).comp_table(),
    {
        let mut taken: Vec<(u64, D)> = Vec::new();
        core::mem::swap(&mut self.new_events, &mut taken);
        taken
    }
}


/// The manager: owns the world and the four system orders, runs the startup
/// order once, then drives each frame of the external event loop, dispatching
/// drained events to the handler orders registered per event kind.
pub struct Manager<S, WS, ES, R, C, D> {
    /// The world the systems run against.
    pub world: World<R, C, D>,
    /// Systems run once, in order, before the loop starts.
    pub startup_systems: SystemOrder<S>,
    /// Systems run every frame, in order.
    pub systems: SystemOrder<S>,
    /// Systems run for every raw platform event, in order.
    pub winit_event_systems: SystemOrder<WS>,
    /// Handler orders keyed by event kind.
    pub event_systems: Table<u64, SystemOrder<ES>>,
}

impl<S, WS, ES, R, C, D> Manager<S, WS, ES, R, C, D> {
    /// The world and the handler table have pairwise-distinct keys.
    pub open spec fn wf(&self) -> bool {
        self.world.wf() && self.event_systems.wf()
    }

    /// A fresh manager: an empty world and no systems.
    pub fn new() -> (r: Result<Self, EngineError>)
        ensures
            r matches Ok(m) ==> {
                &&& m.wf()
                &&& forall|k: u64| !m.world.res_has(k)
                &&& forall|k: u64| !m.world.comp_has(k)
                &&& forall|k: u64| !m.event_systems.contains_spec(k)
                &&& m.world.events() == Seq::<(u64, D)>::empty()
                &&& m.startup_systems.order@ == Seq::<S>::empty()
                &&& m.systems.order@ == Seq::<S>::empty()
                &&& m.winit_event_systems.order@ == Seq::<WS>::empty()
            },
            r is Ok,
    {
        Ok(
            Manager {
                world: World::new(),
                startup_systems: SystemOrder::empty(),
                systems: SystemOrder::empty(),
                winit_event_systems: SystemOrder::empty(),
                event_systems: Table::new(),
            },
        )
    }

    /// Sets the startup order; it replaces whatever was set before.
    pub fn add_startup_systems(self, systems: SystemOrder<S>) -> (r: Self)
        ensures
            r.startup_systems == systems,
            r.world == self.world,
            r.systems == self.systems,
            r.winit_event_systems == self.winit_event_systems,
            r.event_systems == self.event_systems,
    {
        let mut this = self;
        this.startup_systems = systems;
        this
    }

    /// Sets the per-frame order; it replaces whatever was set before.
    pub fn add_systems(self, systems: SystemOrder<S>) -> (r: Self)
        ensures
            r.systems == systems,
            r.world == self.world,
            r.startup_systems == self.startup_systems,
            r.winit_event_systems == self.winit_event_systems,
            r.event_systems == self.event_systems,
    {
        let mut this = self;
        this.systems = systems;
        this
    }

    /// Sets the platform-event order; it replaces whatever was set before.
    pub fn add_winit_event_systems(self, systems: SystemOrder<WS>) -> (r: Self)
        ensures
            r.winit_event_systems == systems,
            r.world == self.world,
            r.startup_systems == self.startup_systems,
            r.systems == self.systems,
            r.event_systems == self.event_systems,
    {
        let mut this = self;
        this.winit_event_systems = systems;
        this
    }

    /// Registers a handler order for an event kind. The first registration
    /// for a kind wins; a later one for the same kind is discarded.
    pub fn add_event_handler(self, kind: u64, order: SystemOrder<ES>) -> (r: Self)
        requires
            self.wf(),
        ensures
            r.wf(),
            self.event_systems.contains_spec(kind) ==> r == self,
            !self.event_systems.contains_spec(kind) ==> r.event_systems.get_spec(kind) == order,
            forall|k2: u64|
                r.event_systems.contains_spec(k2) == (self.event_systems.contains_spec(k2) || k2
                    == kind),
            forall|k2: u64|
                k2 != kind && self.event_systems.contains_spec(k2) ==> r.event_systems.get_spec(
                    k2,
                ) == self.event_systems.get_spec(k2),
            r.world == self.world,
            r.startup_systems == self.startup_systems,
            r.systems == self.systems,
            r.winit_event_systems == self.winit_event_systems,
    {
        let mut this = self;
        if !this.event_systems.contains(&kind) {
            this.event_systems.insert_new(kind, order);
        }
        this
    }

    /// Registers a resource in the world; the first registration wins.
    pub fn add_resource(self, key: u64, value: R) -> (r: Self)
        requires
            self.wf(),
        ensures
            r.wf(),
            self.world.res_has(key) ==> r.world == self.world,
            !self.world.res_has(key) ==> r.world.res_at(key) == value,
            forall|k2: u64| r.world.res_has(k2) == (self.world.res_has(k2) || k2 == key),
            forall|k2: u64|
                k2 != key && self.world.res_has(k2) ==> r.world.res_at(k2) == self.world.res_at(
                    k2,
                ),
            r.world.comp_table() == self.world.comp_table(),
            r.world.events() == self.world.events(),
            r.startup_systems == self.startup_systems,
            r.systems == self.systems,
            r.winit_event_systems == self.winit_event_systems,
            r.event_systems == self.event_systems,
    {
        let mut this = self;
        this.world.add_resource(key, value);
        this
    }

    /// Appends a component in the world, at the end of its key's list.
    pub fn add_component(self, key: u64, component: C) -> (r: Self)
        requires
            self.wf(),
        ensures
            r.wf(),
            forall|k2: u64| r.world.comp_has(k2) == (self.world.comp_has(k2) || k2 == key),
            r.world.comps_at(key) == if self.world.comp_has(key) {
                self.world.comps_at(key).push(component)
            } else {
                seq![component]
            },
            forall|k2: u64|
                k2 != key && self.world.comp_has(k2) ==> r.world.comps_at(k2)
                    == self.world.comps_at(k2),
            r.world.res_table() == self.world.res_table(),
            r.world.events() == self.world.events(),
            r.startup_systems == self.startup_systems,
            r.systems == self.systems,
            r.winit_event_systems == self.winit_event_systems,
            r.event_systems == self.event_systems,
    {
        let mut this = self;
        this.world.add_component(key, component);
        this
    }

    /// Merges a detached bundle into this manager, consuming both.
    ///
    /// System orders are appended to the manager's orders; handler orders are
    /// appended per event kind. Component lists are concatenated per key.
    /// Resources conflict hard: when the world already holds a resource under
    /// a key the bundle registers, the merge fails with `AlreadyRegistered`
    /// and the manager is given up. This asymmetry is deliberate: a duplicate
    /// singleton is a real bug, duplicate component lists are not.
    pub fn integrate(self, partial: PartialManager<S, WS, ES, R, C>) -> (r: Result<
        Self,
        EngineError,
    >)
        requires
            self.wf(),
            partial.wf(),
        ensures
            match r {
                Err(e) => e == EngineError::AlreadyRegistered && (exists|k: u64|
                    partial.resources.contains_spec(k) && self.world.res_has(k)),
                Ok(m) => {
                    &&& m.wf()
                    &&& forall|k: u64|
                        !(partial.resources.contains_spec(k) && self.world.res_has(k))
                    &&& m.startup_systems.order@ == self.startup_systems.order@
                        + partial.startup_systems.order@
                    &&& m.systems.order@ == self.systems.order@ + partial.systems.order@
                    &&& m.winit_event_systems.order@ == self.winit_event_systems.order@
                        + partial.winit_event_systems.order@
                    &&& forall|k: u64|
                        m.event_systems.contains_spec(k) == (self.event_systems.contains_spec(k)
                            || partial.event_systems.contains_spec(k))
                    &&& forall|k: u64|
                        self.event_systems.contains_spec(k)
                            && partial.event_systems.contains_spec(k)
                            ==> m.event_systems.get_spec(k).order@
                            == self.event_systems.get_spec(k).order@
                            + partial.event_systems.get_spec(k).order@
                    &&& forall|k: u64|
                        self.event_systems.contains_spec(k)
                            && !partial.event_systems.contains_spec(k)
                            ==> m.event_systems.get_spec(k) == self.event_systems.get_spec(k)
                    &&& forall|k: u64|
                        !self.event_systems.contains_spec(k)
                            && partial.event_systems.contains_spec(k)
                            ==> m.event_systems.get_spec(k) == partial.event_systems.get_spec(k)
                    &&& forall|k: u64|
                        m.world.res_has(k) == (self.world.res_has(k)
                            || partial.resources.contains_spec(k))
                    &&& forall|k: u64|
                        self.world.res_has(k) ==> m.world.res_at(k) == self.world.res_at(k)
                    &&& forall|k: u64|
                        partial.resources.contains_spec(k) ==> m.world.res_at(k)
                            == partial.resources.get_spec(k)
                    &&& forall|k: u64|
                        m.world.comp_has(k) == (self.world.comp_has(k)
                            || partial.components.contains_spec(k))
                    &&& forall|k: u64|
                        self.world.comp_has(k) && partial.components.contains_spec(k)
                            ==> m.world.comps_at(k) == self.world.comps_at(k)
                            + partial.components.get_spec(k)@
                    &&& forall|k: u64|
                        self.world.comp_has(k) && !partial.components.contains_spec(k)
                            ==> m.world.comps_at(k) == self.world.comps_at(k)
                    &&& forall|k: u64|
                        !self.world.comp_has(k) && partial.components.contains_spec(k)
                            ==> m.world.comps_at(k) == partial.components.get_spec(k)@
                    &&& m.world.events() == self.world.events()
                },
            },
    {
        let ghost m0 = self;
        let ghost p0 = partial;
        let mut this = self;
        let PartialManager {
            resources: pres,
            components: pcomp,
            startup_systems: pstart,
            systems: psys,
            winit_event_systems: pwinit,
            event_systems: pev,
        } = partial;
        let ghost pr = pres.entry_seq();
        let ghost pc = pcomp.entry_seq();
        let ghost ph = pev.entry_seq();

        // First pass: a resource conflict aborts the merge before it starts.
        let rn: usize = pres.len();
        let mut i: usize = 0;
        while i < rn
            invariant
                i <= rn,
                rn == pr.len(),
                pr == pres.entry_seq(),
                pres == p0.resources,
                this == m0,
                m0 == self,
                p0 == partial,
                m0.wf(),
                p0.wf(),
                forall|j: int| 0 <= j < i ==> !m0.world.res_has((#[trigger] pr[j]).0),
            decreases rn - i,
        {
            let entry = pres.entry_at(i);
            if this.world.has_resource(entry.0) {
                proof {
                    pres.lemma_get_at(entry.0, i as int);
                }
                return Err(EngineError::AlreadyRegistered);
            }
            i += 1;
        }
        proof {
            assert forall|k: u64| p0.resources.contains_spec(k) implies !m0.world.res_has(k) by {
                let j = choose|j: int| 0 <= j < pr.len() && (#[trigger] pr[j]).0 == k;
                assert(!m0.world.res_has(pr[j].0));
            }
        }

        // System orders append to the literal end of the manager's orders.
        this.startup_systems.extend_mut_ref(pstart);
        this.systems.extend_mut_ref(psys);
        this.winit_event_systems.extend_mut_ref(pwinit);
        let ghost m2 = this;

        // Handler orders merge per event kind: append where the kind is
        // known, insert where it is new.
        let mut handlers = pev.into_entries();
        let hn: usize = handlers.len();
        let mut p: usize = 0;
        while p < hn
            invariant
                p <= hn,
                hn == ph.len(),
                handlers@ == ph.skip(p as int),
                m0 == self,
                p0 == partial,
                ph == p0.event_systems.entry_seq(),
                forall|a: int, b: int|
                    0 <= a < b < ph.len() ==> (#[trigger] ph[a]).0 != (#[trigger] ph[b]).0,
                m0.wf(),
                this.event_systems.wf(),
                this.world == m2.world,
                this.startup_systems == m2.startup_systems,
                this.systems == m2.systems,
                this.winit_event_systems == m2.winit_event_systems,
                m2.event_systems == m0.event_systems,
                m2.world == m0.world,
                forall|k: u64|
                    this.event_systems.contains_spec(k) == (m0.event_systems.contains_spec(k)
                        || exists|j: int| 0 <= j < p && (#[trigger] ph[j]).0 == k),
                forall|k: u64|
                    m0.event_systems.contains_spec(k) && !(exists|j: int|
                        0 <= j < p && (#[trigger] ph[j]).0 == k)
                        ==> this.event_systems.get_spec(k) == m0.event_systems.get_spec(k),
                forall|j: int|
                    0 <= j < p && m0.event_systems.contains_spec((#[trigger] ph[j]).0)
                        ==> this.event_systems.get_spec(ph[j].0).order@
                        == m0.event_systems.get_spec(ph[j].0).order@ + ph[j].1.order@,
                forall|j: int|
                    0 <= j < p && !m0.event_systems.contains_spec((#[trigger] ph[j]).0)
                        ==> this.event_systems.get_spec(ph[j].0) == ph[j].1,
            decreases hn - p,
        {
            let ghost es0 = this.event_systems;
            let entry = handlers.remove(0);
            proof {
                assert(entry == ph[p as int]);
                assert(handlers@ =~= ph.skip(p + 1 as int));
            }
            let kind = entry.0;
            let order = entry.1;
            if this.event_systems.contains(&kind) {
                proof {
                    if exists|j: int| 0 <= j < p && (#[trigger] ph[j]).0 == kind {
                        let j = choose|j: int| 0 <= j < p && (#[trigger] ph[j]).0 == kind;
                        assert(ph[j].0 == ph[p as int].0);
                        assert(false);
                    }
                }
                let slot = this.event_systems.get_mut(&kind);
                slot.extend_mut_ref(order);
                let ghost vnew: SystemOrder<ES> = *slot;
                proof {
                    Table::lemma_updated(es0, this.event_systems, kind, vnew);
                }
            } else {
                this.event_systems.insert_new(kind, order);
            }
            p += 1;
            proof {
                assert forall|k: u64|
                    this.event_systems.contains_spec(k) == (m0.event_systems.contains_spec(k)
                        || exists|j: int| 0 <= j < p && (#[trigger] ph[j]).0 == k) by {
                    if k == kind {
                        assert(ph[p - 1].0 == k);
                    } else {
                        if exists|j: int| 0 <= j < p && (#[trigger] ph[j]).0 == k {
                            let j = choose|j: int| 0 <= j < p && (#[trigger] ph[j]).0 == k;
                            assert(j < p - 1 || ph[p - 1].0 == k);
                        }
                    }
                }
            }
        }
        proof {
            assert(handlers@ =~= ph.skip(ph.len() as int));
        }
        let ghost m3 = this;

        // Resources from the bundle: every key was checked fresh, so each
        // one registers.
        let mut res_entries = pres.into_entries();
        let mut q: usize = 0;
        while q < rn
            invariant
                q <= rn,
                rn == pr.len(),
                res_entries@ == pr.skip(q as int),
                m0 == self,
                p0 == partial,
                pr == p0.resources.entry_seq(),
                forall|a: int, b: int|
                    0 <= a < b < pr.len() ==> (#[trigger] pr[a]).0 != (#[trigger] pr[b]).0,
                m0.wf(),
                this.wf(),
                this.event_systems == m3.event_systems,
                this.startup_systems == m3.startup_systems,
                this.systems == m3.systems,
                this.winit_event_systems == m3.winit_event_systems,
                m3.world == m0.world,
                this.world.comp_table() == m0.world.comp_table(),
                this.world.events() == m0.world.events(),
                forall|j: int| 0 <= j < pr.len() ==> !m0.world.res_has((#[trigger] pr[j]).0),
                forall|k: u64|
                    this.world.res_has(k) == (m0.world.res_has(k) || exists|j: int|
                        0 <= j < q && (#[trigger] pr[j]).0 == k),
                forall|k: u64|
                    m0.world.res_has(k) ==> this.world.res_at(k) == m0.world.res_at(k),
                forall|j: int|
                    0 <= j < q ==> this.world.res_at((#[trigger] pr[j]).0) == pr[j].1,
            decreases rn - q,
        {
            let entry = res_entries.remove(0);
            proof {
                assert(entry == pr[q as int]);
                assert(res_entries@ =~= pr.skip(q + 1 as int));
                if exists|j: int| 0 <= j < q && (#[trigger] pr[j]).0 == entry.0 {
                    let j = choose|j: int| 0 <= j < q && (#[trigger] pr[j]).0 == entry.0;
                    assert(pr[j].0 == pr[q as int].0);
                    assert(false);
                }
                assert(!this.world.res_has(entry.0));
            }
            this.world.add_resource(entry.0, entry.1);
            q += 1;
            proof {
                assert forall|k: u64|
                    this.world.res_has(k) == (m0.world.res_has(k) || exists|j: int|
                        0 <= j < q && (#[trigger] pr[j]).0 == k) by {
                    if k != pr[q - 1].0 {
                        if exists|j: int| 0 <= j < q && (#[trigger] pr[j]).0 == k {
                            let j = choose|j: int| 0 <= j < q && (#[trigger] pr[j]).0 == k;
                            assert(j < q - 1 || pr[q - 1].0 == k);
                        }
                    }
                }
            }
        }
        proof {
            assert(res_entries@ =~= pr.skip(pr.len() as int));
        }
        let ghost m4 = this;

        // Component lists concatenate per key, keeping both orders.
        let mut comp_entries = pcomp.into_entries();
        let cn: usize = comp_entries.len();
        let mut t: usize = 0;
        while t < cn
            invariant
                t <= cn,
                cn == pc.len(),
                comp_entries@ == pc.skip(t as int),
                m0 == self,
                p0 == partial,
                pc == p0.components.entry_seq(),
                forall|a: int, b: int|
                    0 <= a < b < pc.len() ==> (#[trigger] pc[a]).0 != (#[trigger] pc[b]).0,
                m0.wf(),
                this.wf(),
                this.event_systems == m4.event_systems,
                this.startup_systems == m4.startup_systems,
                this.systems == m4.systems,
                this.winit_event_systems == m4.winit_event_systems,
                this.world.res_table() == m4.world.res_table(),
                m4.world.comp_table() == m0.world.comp_table(),
                this.world.events() == m0.world.events(),
                forall|k: u64|
                    this.world.comp_has(k) == (m0.world.comp_has(k) || exists|j: int|
                        0 <= j < t && (#[trigger] pc[j]).0 == k),
                forall|k: u64|
                    m0.world.comp_has(k) && !(exists|j: int|
                        0 <= j < t && (#[trigger] pc[j]).0 == k) ==> this.world.comps_at(k)
                        == m0.world.comps_at(k),
                forall|j: int|
                    0 <= j < t && m0.world.comp_has((#[trigger] pc[j]).0)
                        ==> this.world.comps_at(pc[j].0) == m0.world.comps_at(pc[j].0)
                        + pc[j].1@,
                forall|j: int|
                    0 <= j < t && !m0.world.comp_has((#[trigger] pc[j]).0)
                        ==> this.world.comps_at(pc[j].0) == pc[j].1@,
            decreases cn - t,
        {
            let entry = comp_entries.remove(0);
            proof {
                assert(entry == pc[t as int]);
                assert(comp_entries@ =~= pc.skip(t + 1 as int));
                if exists|j: int| 0 <= j < t && (#[trigger] pc[j]).0 == entry.0 {
                    let j = choose|j: int| 0 <= j < t && (#[trigger] pc[j]).0 == entry.0;
                    assert(pc[j].0 == pc[t as int].0);
                    assert(false);
                }
            }
            this.world.append_components(entry.0, entry.1);
            t += 1;
            proof {
                assert forall|k: u64|
                    this.world.comp_has(k) == (m0.world.comp_has(k) || exists|j: int|
                        0 <= j < t && (#[trigger] pc[j]).0 == k) by {
                    if k != pc[t - 1].0 {
                        if exists|j: int| 0 <= j < t && (#[trigger] pc[j]).0 == k {
                            let j = choose|j: int| 0 <= j < t && (#[trigger] pc[j]).0 == k;
                            assert(j < t - 1 || pc[t - 1].0 == k);
                        }
                    }
                }
            }
        }
        proof {
            assert(comp_entries@ =~= pc.skip(pc.len() as int));
            assert forall|k: u64|
                p0.resources.contains_spec(k) implies this.world.res_at(k)
                == p0.resources.get_spec(k) by {
                let j = choose|j: int| 0 <= j < pr.len() && (#[trigger] pr[j]).0 == k;
                p0.resources.lemma_get_at(k, j);
            }
            assert forall|k: u64|
                p0.components.contains_spec(k) implies #[trigger] p0.components.get_spec(k)@
                == pc[choose|j: int| 0 <= j < pc.len() && (#[trigger] pc[j]).0 == k].1@ by {
                let j = choose|j: int| 0 <= j < pc.len() && (#[trigger] pc[j]).0 == k;
                p0.components.lemma_get_at(k, j);
            }
            assert forall|k: u64|
                m0.world.comp_has(k) && p0.components.contains_spec(k) implies this.world.comps_at(
                k,
            ) == m0.world.comps_at(k) + p0.components.get_spec(k)@ by {
                let j = choose|j: int| 0 <= j < pc.len() && (#[trigger] pc[j]).0 == k;
                p0.components.lemma_get_at(k, j);
            }
            assert forall|k: u64|
                !m0.world.comp_has(k) && p0.components.contains_spec(k)
                implies this.world.comps_at(k) == p0.components.get_spec(k)@ by {
                let j = choose|j: int| 0 <= j < pc.len() && (#[trigger] pc[j]).0 == k;
                p0.components.lemma_get_at(k, j);
            }
            assert forall|k: u64|
                m0.event_systems.contains_spec(k) && p0.event_systems.contains_spec(k)
                implies this.event_systems.get_spec(k).order@ == m0.event_systems.get_spec(
                k,
            ).order@ + p0.event_systems.get_spec(k).order@ by {
                let j = choose|j: int| 0 <= j < ph.len() && (#[trigger] ph[j]).0 == k;
                p0.event_systems.lemma_get_at(k, j);
            }
            assert forall|k: u64|
                !m0.event_systems.contains_spec(k) && p0.event_systems.contains_spec(k)
                implies this.event_systems.get_spec(k) == p0.event_systems.get_spec(k) by {
                let j = choose|j: int| 0 <= j < ph.len() && (#[trigger] ph[j]).0 == k;
                p0.event_systems.lemma_get_at(k, j);
            }
        }
        Ok(this)
    }
}

impl<
    S: System<R, C, D>,
    WS: WinitEventSystem<R, C, D>,
    ES: EventSystem<R, C, D>,
    R,
    C,
    D,
> Manager<S, WS, ES, R, C, D> {
    /// Dispatches one event to the handler order registered for its kind,
    /// in registration order. The first handler error aborts dispatch of the
    /// remaining handlers and propagates; handlers already run stay run.
    /// With no order registered for `kind`, nothing happens.
    pub fn raise_event(&mut self, kind: u64, data: &D) -> (r: Result<(), EngineError>)
        requires
            old(self).event_systems.wf(),
        ensures
            final(self).event_systems == old(self).event_systems,
            final(self).startup_systems == old(self).startup_systems,
            final(self).systems == old(self).systems,
            final(self).winit_event_systems == old(self).winit_event_systems,
            !old(self).event_systems.contains_spec(kind) ==> r is Ok && final(self).world == old(
                self,
            ).world,
    {
        if !self.event_systems.contains(&kind) {
            return Ok(());
        }
        let n: usize = self.event_systems.get(&kind).order.len();
        let mut i: usize = 0;
        while i < n
            invariant
                i <= n,
                old(self).event_systems.wf(),
                old(self).event_systems.contains_spec(kind),
                n == old(self).event_systems.get_spec(kind).order@.len(),
                self.event_systems == old(self).event_systems,
                self.startup_systems == old(self).startup_systems,
                self.systems == old(self).systems,
                self.winit_event_systems == old(self).winit_event_systems,
            decreases n - i,
        {
            match self.event_systems.get(&kind).order[i].run(&mut self.world, data) {
                Ok(()) => {}
                Err(e) => {
                    return Err(e);
                }
            }
            i += 1;
        }
        Ok(())
    }

    /// Drains the event queue once and dispatches each drained event in
    /// raise order (first in, first out). Events raised by handlers during
    /// this dispatch stay queued for the next drain. The first handler error
    /// aborts the rest of the drain and propagates.
    pub fn check_events(&mut self) -> (r: Result<(), EngineError>)
        requires
            old(self).event_systems.wf(),
        ensures
            final(self).event_systems == old(self).event_systems,
            final(self).startup_systems == old(self).startup_systems,
            final(self).systems == old(self).systems,
            final(self).winit_event_systems == old(self).winit_event_systems,
            old(self).world.events().len() == 0 ==> r is Ok && final(self).world == old(
                self,
            ).world,
    {
        if !self.world.has_events() {
            return Ok(());
        }
        let drained = self.world.drain_events();
        let n: usize = drained.len();
        let mut i: usize = 0;
        while i < n
            invariant
                n == drained@.len(),
                n == old(self).world.events().len(),
                0 < n,
                i <= n,
                old(self).event_systems.wf(),
                self.event_systems == old(self).event_systems,
                self.startup_systems == old(self).startup_systems,
                self.systems == old(self).systems,
                self.winit_event_systems == old(self).winit_event_systems,
            decreases n - i,
        {
            let kind: u64 = drained[i].0;
            match self.raise_event(kind, &drained[i].1) {
                Ok(()) => {}
                Err(e) => {
                    return Err(e);
                }
            }
            i += 1;
        }
        Ok(())
    }

    /// Runs every startup system once, in order. The first error aborts
    /// startup and propagates; the loop phase is never reached then.
    pub fn run_startup(&mut self) -> (r: Result<(), EngineError>)
        requires
            old(self).event_systems.wf(),
        ensures
            final(self).event_systems == old(self).event_systems,
            final(self).startup_systems == old(self).startup_systems,
            final(self).systems == old(self).systems,
            final(self).winit_event_systems == old(self).winit_event_systems,
            old(self).startup_systems.order@.len() == 0 ==> r is Ok && final(self).world == old(
                self,
            ).world,
    {
        let n: usize = self.startup_systems.order.len();
        let mut i: usize = 0;
        while i < n
            invariant
                i <= n,
                old(self).event_systems.wf(),
                self.event_systems == old(self).event_systems,
                self.startup_systems == old(self).startup_systems,
                self.systems == old(self).systems,
                self.winit_event_systems == old(self).winit_event_systems,
                n == self.startup_systems.order@.len(),
                n == 0 ==> self.world == old(self).world,
            decreases n - i,
        {
            match self.startup_systems.order[i].run(&mut self.world) {
                Ok(()) => {}
                Err(e) => {
                    return Err(e);
                }
            }
            i += 1;
        }
        Ok(())
    }

    /// One iteration of the loop phase, for one raw platform event: every
    /// windowing-event system in order, a drain, every per-frame system in
    /// order, a second drain. The first error anywhere is fatal and
    /// propagates at once.
    pub fn run_frame(&mut self, event: &PlatformEvent) -> (r: Result<(), EngineError>)
        requires
            old(self).event_systems.wf(),
        ensures
            final(self).event_systems == old(self).event_systems,
            final(self).startup_systems == old(self).startup_systems,
            final(self).systems == old(self).systems,
            final(self).winit_event_systems == old(self).winit_event_systems,
            old(self).winit_event_systems.order@.len() == 0 && old(self).systems.order@.len() == 0
                && old(self).world.events().len() == 0 ==> r is Ok && final(self).world == old(
                self,
            ).world,
    {
        let n: usize = self.winit_event_systems.order.len();
        let mut i: usize = 0;
        while i < n
            invariant
                i <= n,
                old(self).event_systems.wf(),
                self.event_systems == old(self).event_systems,
                self.startup_systems == old(self).startup_systems,
                self.systems == old(self).systems,
                self.winit_event_systems == old(self).winit_event_systems,
                n == self.winit_event_systems.order@.len(),
                n == 0 ==> self.world == old(self).world,
            decreases n - i,
        {
            match self.winit_event_systems.order[i].run(&mut self.world, event) {
                Ok(()) => {}
                Err(e) => {
                    return Err(e);
                }
            }
            i += 1;
        }
        match self.check_events() {
            Ok(()) => {}
            Err(e) => {
                return Err(e);
            }
        }
        let m: usize = self.systems.order.len();
        let mut j: usize = 0;
        while j < m
            invariant
                j <= m,
                old(self).event_systems.wf(),
                self.event_systems == old(self).event_systems,
                self.startup_systems == old(self).startup_systems,
                self.systems == old(self).systems,
                self.winit_event_systems == old(self).winit_event_systems,
                m == self.systems.order@.len(),
                m == 0 && old(self).winit_event_systems.order@.len() == 0 && old(
                    self,
                ).world.events().len() == 0 ==> self.world == old(self).world,
            decreases m - j,
        {
            match self.systems.order[j].run(&mut self.world) {
                Ok(()) => {}
                Err(e) => {
                    return Err(e);
                }
            }
            j += 1;
        }
        self.check_events()
    }
}

} // verus!
