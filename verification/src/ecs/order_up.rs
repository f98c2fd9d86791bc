use vstd::prelude::*;
use crate::ecs::ordering::SystemOrder;

verus! {

/// Tuple-conversion sugar for building a [`SystemOrder`] from a literal:
/// `(a, b, c).order_up()` is the same order as repeated `.after()` calls.
pub trait OrderUp<S>: Sized {
    /// The sequence the built order holds.
    spec fn order_up_spec(self) -> Seq<S>;

    /// Turns this tuple into an order running its members left to right.
    fn order_up(self) -> (r: SystemOrder<S>)
        ensures
            r.order@ == self.order_up_spec(),
    ;
}

impl<S> OrderUp<S> for (S,) {
    open spec fn order_up_spec(self) -> Seq<S> {
        seq![self.0]
    }

    fn order_up(self) -> (r: SystemOrder<S>)
        ensures
            r.order@ == seq![self.0],
    {
        let (a,) = self;
        let mut order: Vec<S> = Vec::new();
        order.push(a);
        SystemOrder { order }
    }
}

impl<S> OrderUp<S> for (S, S) {
    open spec fn order_up_spec(self) -> Seq<S> {
        seq![self.0, self.1]
    }

    fn order_up(self) -> (r: SystemOrder<S>)
        ensures
            r.order@ == seq![self.0, self.1],
    {
        let (a, b) = self;
        let mut order: Vec<S> = Vec::new();
        order.push(a);
        order.push(b);
        SystemOrder { order }
    }
}

impl<S> OrderUp<S> for (S, S, S) {
    open spec fn order_up_spec(self) -> Seq<S> {
        seq![self.0, self.1, self.2]
    }

    fn order_up(self) -> (r: SystemOrder<S>)
        ensures
            r.order@ == seq![self.0, self.1, self.2],
    {
        let (a, b, c) = self;
        let mut order: Vec<S> = Vec::new();
        order.push(a);
        order.push(b);
        order.push(c);
        SystemOrder { order }
    }
}

impl<S> OrderUp<S> for (S, S, S, S) {
    open spec fn order_up_spec(self) -> Seq<S> {
        seq![self.0, self.1, self.2, self.3]
    }

    fn order_up(self) -> (r: SystemOrder<S>)
        ensures
            r.order@ == seq![self.0, self.1, self.2, self.3],
    {
        let (a, b, c, d) = self;
        let mut order: Vec<S> = Vec::new();
        order.push(a);
        order.push(b);
        order.push(c);
        order.push(d);
        SystemOrder { order }
    }
}

} // verus!
