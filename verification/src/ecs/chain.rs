use vstd::prelude::*;
use crate::ecs::ordering::SystemOrder;

verus! {

/// Tuple-conversion sugar: `(a, b, c).chain()` builds the same order as
/// `SystemOrder::new(a).after(b).after(c)`, with no semantic difference.
pub trait Chain<S>: Sized {
    /// The sequence the built order holds.
    spec fn chain_spec(self) -> Seq<S>;

    /// Turns this tuple into an order running its members left to right.
    fn chain(self) -> (r: SystemOrder<S>)
        ensures
            r.order@ == self.chain_spec(),
    ;
}

impl<S> Chain<S> for (S, S) {
    open spec fn chain_spec(self) -> Seq<S> {
        seq![self.0, self.1]
    }

    fn chain(self) -> (r: SystemOrder<S>)
        ensures
            r.order@ == seq![self.0, self.1],
    {
        let (a, b) = self;
        let mut order: Vec<S> = Vec::new();
        order.push(a);
        order.push(b);
        SystemOrder { order }
    }
}

impl<S> Chain<S> for (S, S, S) {
    open spec fn chain_spec(self) -> Seq<S> {
        seq![self.0, self.1, self.2]
    }

    fn chain(self) -> (r: SystemOrder<S>)
        ensures
            r.order@ == seq![self.0, self.1, self.2],
    {
        let (a, b, c) = self;
        let mut order: Vec<S> = Vec::new();
        order.push(a);
        order.push(b);
        order.push(c);
        SystemOrder { order }
    }
}

impl<S> Chain<S> for (S, S, S, S) {
    open spec fn chain_spec(self) -> Seq<S> {
        seq![self.0, self.1, self.2, self.3]
    }

    fn chain(self) -> (r: SystemOrder<S>)
        ensures
            r.order@ == seq![self.0, self.1, self.2, self.3],
    {
        let (a, b, c, d) = self;
        let mut order: Vec<S> = Vec::new();
        order.push(a);
        order.push(b);
        order.push(c);
        order.push(d);
        SystemOrder { order }
    }
}

impl<S> Chain<S> for (S, S, S, S, S) {
    open spec fn chain_spec(self) -> Seq<S> {
        seq![self.0, self.1, self.2, self.3, self.4]
    }

    fn chain(self) -> (r: SystemOrder<S>)
        ensures
            r.order@ == seq![self.0, self.1, self.2, self.3, self.4],
    {
        let (a, b, c, d, e) = self;
        let mut order: Vec<S> = Vec::new();
        order.push(a);
        order.push(b);
        order.push(c);
        order.push(d);
        order.push(e);
        SystemOrder { order }
    }
}

} // verus!
