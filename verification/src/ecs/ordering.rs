use vstd::prelude::*;

verus! {

/// An ordered, append-only sequence of systems of one declared kind.
/// Execution order equals insertion order; there is no reordering and no
/// dependency resolution.
#[derive(Clone)]
pub struct SystemOrder<T> {
    pub order: Vec<T>,
}

impl<T> SystemOrder<T> {
    /// An order holding the one given system.
    pub fn new(system: T) -> (r: Self)
        ensures
            r.order@ == seq![system],
    {
        let mut order: Vec<T> = Vec::new();
        order.push(system);
        SystemOrder { order }
    }

    /// An order holding no systems.
    pub fn empty() -> (r: Self)
        ensures
            r.order@ == Seq::<T>::empty(),
    {
        SystemOrder { order: Vec::new() }
    }

    /// This order followed by all of `other`, in order.
    pub fn extend(self, other: SystemOrder<T>) -> (r: Self)
        ensures
            r.order@ == self.order@ + other.order@,
    {
        let mut order = self.order;
        let mut tail = other.order;
        order.append(&mut tail);
        SystemOrder { order }
    }

    /// Appends all of `other`, in order, to this order.
    pub fn extend_mut_ref(&mut self, other: SystemOrder<T>)
        ensures
            final(self).order@ == old(self).order@ + other.order@,
    {
        let mut tail = other.order;
        self.order.append(&mut tail);
    }
}

/// Fluent appending: `SystemOrder::new(a).after(b).after(c)` runs
/// `a`, `b`, `c` in exactly that order.
pub trait Ordering<T>: Sized {
    /// The kind of system this appends.
    type SystemType;

    /// The sequence the built order holds.
    spec fn after_spec(self, system: Self::SystemType) -> Seq<T>;

    /// Appends `system` to the literal end of this order.
    fn after(self, system: Self::SystemType) -> (r: SystemOrder<T>)
        ensures
            r.order@ == self.after_spec(system),
    ;
}

impl<T> Ordering<T> for SystemOrder<T> {
    type SystemType = T;

    open spec fn after_spec(self, system: T) -> Seq<T> {
        self.order@.push(system)
    }

    fn after(self, system: T) -> (r: SystemOrder<T>)
        ensures
            r.order@ == self.order@.push(system),
    {
        let mut order = self.order;
        order.push(system);
        SystemOrder { order }
    }
}

impl<T: Copy> Ordering<T> for T {
    type SystemType = T;

    open spec fn after_spec(self, system: T) -> Seq<T> {
        seq![self, system]
    }

    fn after(self, system: T) -> (r: SystemOrder<T>)
        ensures
            r.order@ == seq![self, system],
    {
        let mut order: Vec<T> = Vec::new();
        order.push(self);
        order.push(system);
        SystemOrder { order }
    }
}

/// The order a fluent chain executes in is exactly the insertion order:
/// `new(f1).after(f2).after(f3)` holds `f1, f2, f3`, each exactly once.
pub proof fn lemma_order_fidelity<T>(f1: T, f2: T, f3: T, built: SystemOrder<T>)
    requires
        built.order@ == seq![f1].push(f2).push(f3),
    ensures
        built.order@ =~= seq![f1, f2, f3],
        built.order@.len() == 3,
        built.order@[0] == f1,
        built.order@[1] == f2,
        built.order@[2] == f3,
{
}

} // verus!
