use vstd::prelude::*;

verus! {

/// A variable that starts uninitialized and is given its value later.
/// Reading it before a value was set is ruled out by contract.
pub struct Init<T> {
    value: Option<T>,
}

impl<T> Init<T> {
    /// Whether a value was set.
    pub closed spec fn is_init(&self) -> bool {
        self.value is Some
    }

    /// The value that was set.
    pub closed spec fn value_spec(&self) -> T {
        self.value->Some_0
    }

    /// An uninitialized variable.
    pub fn uninit() -> (r: Self)
        ensures
            !r.is_init(),
    {
        Init { value: None }
    }

    /// Sets the value; a value already set is replaced.
    pub fn init(&mut self, value: T)
        ensures
            final(self).is_init(),
            final(self).value_spec() == value,
    {
        self.value = Some(value);
    }

    /// Reads the value set before.
    pub fn get(&self) -> (r: &T)
        requires
            self.is_init(),
        ensures
            *r == self.value_spec(),
    {
        self.value.as_ref().unwrap()
    }
}

} // verus!
