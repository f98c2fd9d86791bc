use vstd::prelude::*;
use crate::ecs::ordering::SystemOrder;
use crate::store::Table;

verus! {

/// A detached bundle of systems, resources and components, assembled by an
/// independent feature module and merged into a manager at composition time
/// with [`crate::ecs::Manager::integrate`].
///
/// It has the same shape as the manager but no world of its own.
pub struct PartialManager<S, WS, ES, R, C> {
    /// Resources to register; merging fails when the world already holds one.
    pub resources: Table<u64, R>,
    /// Component lists to concatenate per key.
    pub components: Table<u64, Vec<C>>,
    /// Systems to run once at startup, appended to the manager's order.
    pub startup_systems: SystemOrder<S>,
    /// Systems to run every frame, appended to the manager's order.
    pub systems: SystemOrder<S>,
    /// Systems to run per raw platform event, appended to the manager's order.
    pub winit_event_systems: SystemOrder<WS>,
    /// Handler orders per event kind, appended to the manager's orders.
    pub event_systems: Table<u64, SystemOrder<ES>>,
}

impl<S, WS, ES, R, C> PartialManager<S, WS, ES, R, C> {
    /// All three stores have pairwise-distinct keys.
    pub open spec fn wf(&self) -> bool {
        self.resources.wf() && self.components.wf() && self.event_systems.wf()
    }

    /// An empty bundle.
    pub fn new() -> (r: Self)
        ensures
            r.wf(),
            forall|k: u64| !r.resources.contains_spec(k),
            forall|k: u64| !r.components.contains_spec(k),
            forall|k: u64| !r.event_systems.contains_spec(k),
            r.startup_systems.order@ == Seq::<S>::empty(),
            r.systems.order@ == Seq::<S>::empty(),
            r.winit_event_systems.order@ == Seq::<WS>::empty(),
    {
        PartialManager {
            resources: Table::new(),
            components: Table::new(),
            startup_systems: SystemOrder::empty(),
            systems: SystemOrder::empty(),
            winit_event_systems: SystemOrder::empty(),
            event_systems: Table::new(),
        }
    }

    /// Adds a resource under `key`. Only one value can exist per key: the
    /// first registration wins and a second one is discarded.
    pub fn add_resource(self, key: u64, value: R) -> (r: Self)
        requires
            self.wf(),
        ensures
            r.wf(),
            self.resources.contains_spec(key) ==> r == self,
            !self.resources.contains_spec(key) ==> r.resources.get_spec(key) == value,
            forall|k2: u64|
                r.resources.contains_spec(k2) == (self.resources.contains_spec(k2) || k2 == key),
            forall|k2: u64|
                k2 != key && self.resources.contains_spec(k2) ==> r.resources.get_spec(k2)
                    == self.resources.get_spec(k2),
            r.components == self.components,
            r.startup_systems == self.startup_systems,
            r.systems == self.systems,
            r.winit_event_systems == self.winit_event_systems,
            r.event_systems == self.event_systems,
    {
        let mut this = self;
        if !this.resources.contains(&key) {
            this.resources.insert_new(key, value);
        }
        this
    }

    /// Appends a component under `key`. Many values can exist per key; they
    /// keep their insertion order.
    pub fn add_component(self, key: u64, component: C) -> (r: Self)
        requires
            self.wf(),
        ensures
            r.wf(),
            forall|k2: u64|
                r.components.contains_spec(k2) == (self.components.contains_spec(k2) || k2
                    == key),
            r.components.get_spec(key)@ == if self.components.contains_spec(key) {
                self.components.get_spec(key)@.push(component)
            } else {
                seq![component]
            },
            forall|k2: u64|
                k2 != key && self.components.contains_spec(k2) ==> r.components.get_spec(k2)
                    == self.components.get_spec(k2),
            r.resources == self.resources,
            r.startup_systems == self.startup_systems,
            r.systems == self.systems,
            r.winit_event_systems == self.winit_event_systems,
            r.event_systems == self.event_systems,
    {
        let mut this = self;
        let ghost pre = this;
        if this.components.contains(&key) {
            let list = this.components.get_mut(&key);
            list.push(component);
            let ghost vnew: Vec<C> = *list;
            proof {
                Table::lemma_updated(pre.components, this.components, key, vnew);
            }
        } else {
            let mut list: Vec<C> = Vec::new();
            list.push(component);
            this.components.insert_new(key, list);
        }
        this
    }

    /// Sets the startup order; it replaces whatever was set before.
    pub fn add_startup_systems(self, systems: SystemOrder<S>) -> (r: Self)
        ensures
            r.startup_systems == systems,
            r.resources == self.resources,
            r.components == self.components,
            r.systems == self.systems,
            r.winit_event_systems == self.winit_event_systems,
            r.event_systems == self.event_systems,
    {
        let mut this = self;
        this.startup_systems = systems;
        this
    }

    /// Sets the per-frame order; it replaces whatever was set before.
    pub fn add_systems(self, systems: SystemOrder<S>) -> (r: Self)
        ensures
            r.systems == systems,
            r.resources == self.resources,
            r.components == self.components,
            r.startup_systems == self.startup_systems,
            r.winit_event_systems == self.winit_event_systems,
            r.event_systems == self.event_systems,
    {
        let mut this = self;
        this.systems = systems;
        this
    }

    /// Sets the platform-event order; it replaces whatever was set before.
    pub fn add_winit_event_systems(self, systems: SystemOrder<WS>) -> (r: Self)
        ensures
            r.winit_event_systems == systems,
            r.resources == self.resources,
            r.components == self.components,
            r.startup_systems == self.startup_systems,
            r.systems == self.systems,
            r.event_systems == self.event_systems,
    {
        let mut this = self;
        this.winit_event_systems = systems;
        this
    }

    /// Registers a handler order for an event kind. The first registration
    /// for a kind wins, as for resources.
    pub fn add_event_handler(self, kind: u64, order: SystemOrder<ES>) -> (r: Self)
        requires
            self.wf(),
        ensures
            r.wf(),
            self.event_systems.contains_spec(kind) ==> r == self,
            !self.event_systems.contains_spec(kind) ==> r.event_systems.get_spec(kind) == order,
            forall|k2: u64|
                r.event_systems.contains_spec(k2) == (self.event_systems.contains_spec(k2) || k2
                    == kind),
            forall|k2: u64|
                k2 != kind && self.event_systems.contains_spec(k2) ==> r.event_systems.get_spec(
                    k2,
                ) == self.event_systems.get_spec(k2),
            r.resources == self.resources,
            r.components == self.components,
            r.startup_systems == self.startup_systems,
            r.systems == self.systems,
            r.winit_event_systems == self.winit_event_systems,
    {
        let mut this = self;
        if !this.event_systems.contains(&kind) {
            this.event_systems.insert_new(kind, order);
        }
        this
    }
}

} // verus!
