//! The base factory interface for creation of a value.
use vstd::prelude::*;

verus! {

/// A factory for values of one type.  `get_spec` fixes, at the level of
/// views, the value the factory produces, and `get` is bound to it;
/// implementations supply both.
pub trait Getter<T: View>: Sized {
    /// The view of the value every call produces.
    spec fn get_spec(&self) -> T::V;

    /// Produces the value.
    fn get(&self) -> (r: T)
        ensures
            r@ == self.get_spec(),
    ;
}

/// A factory that hands out copies of one fixed value.
pub struct ConstGetter<T> {
    /// The value produced by every call.
    pub value: T,
}

impl<T: Copy + View> Getter<T> for ConstGetter<T> {
    open spec fn get_spec(&self) -> T::V {
        self.value@
    }

    fn get(&self) -> (r: T) {
        self.value
    }
}

/// A concrete wrapper around a factory, so that differently typed
/// factories can be stored and handed around uniformly.
pub struct GetterWrap<G> {
    getter: G,
}

impl<G> GetterWrap<G> {
    /// The wrapped factory.
    pub closed spec fn getter(&self) -> G {
        self.getter
    }

    /// Wraps a factory.
    pub fn new(getter: G) -> (r: GetterWrap<G>)
        ensures
            r.getter() == getter,
    {
        GetterWrap { getter }
    }

    /// Produces a value using the inner factory.
    pub fn get<T: View>(&self) -> (r: T) where G: Getter<T>
        ensures
            r@ == self.getter().get_spec(),
    {
        self.getter.get()
    }
}

} // verus!
