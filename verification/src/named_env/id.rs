use vstd::prelude::*;
use core::marker::PhantomData;

verus! {

/// The index of an element of kind `T` in an environment.
#[derive(Debug)]
pub struct ID<T: ?Sized>(pub usize, pub PhantomData<T>);

/// An index as seen from inside local scopes: into the environment, or
/// into the local elements counted from the innermost scope outward.
#[derive(Debug)]
pub enum LocalID<T: ?Sized> {
    Global(usize, PhantomData<T>),
    Local(usize, PhantomData<T>),
}

impl<T: ?Sized> ID<T> {
    pub fn new(id: usize) -> (r: Self)
        ensures
            r.0 == id,
    {
        ID(id, PhantomData)
    }
}

impl<T: ?Sized> LocalID<T> {
    /// The local element `id`.
    pub fn new(id: usize) -> (r: Self)
        ensures
            r == LocalID::<T>::Local(id, PhantomData),
    {
        LocalID::Local(id, PhantomData)
    }
}

impl<T: ?Sized> From<ID<T>> for LocalID<T> {
    fn from(id: ID<T>) -> (r: Self) {
        LocalID::Global(id.0, id.1)
    }
}

impl<T: ?Sized> vstd::std_specs::convert::FromSpecImpl<ID<T>> for LocalID<T> {
    open spec fn obeys_from_spec() -> bool {
        true
    }

    open spec fn from_spec(id: ID<T>) -> Self {
        LocalID::Global(id.0, id.1)
    }
}

impl<T: ?Sized> Clone for ID<T> {
    fn clone(&self) -> (r: Self)
        ensures
            r == *self,
    {
        ID(self.0, PhantomData)
    }
}

impl<T: ?Sized> Clone for LocalID<T> {
    fn clone(&self) -> (r: Self)
        ensures
            r == *self,
    {
        match self {
            LocalID::Global(id, _) => LocalID::Global(*id, PhantomData),
            LocalID::Local(id, _) => LocalID::Local(*id, PhantomData),
        }
    }
}

impl<T: ?Sized> PartialEq for ID<T> {
    fn eq(&self, other: &Self) -> (r: bool) {
        self.0 == other.0
    }
}

impl<T: ?Sized> vstd::std_specs::cmp::PartialEqSpecImpl for ID<T> {
    open spec fn obeys_eq_spec() -> bool {
        true
    }

    open spec fn eq_spec(&self, other: &Self) -> bool {
        self.0 == other.0
    }
}

impl<T: ?Sized> PartialEq for LocalID<T> {
    fn eq(&self, other: &Self) -> (r: bool) {
        match (self, other) {
            (LocalID::Global(lhs, _), LocalID::Global(rhs, _)) => *lhs == *rhs,
            (LocalID::Local(lhs, _), LocalID::Local(rhs, _)) => *lhs == *rhs,
            _ => false,
        }
    }
}

impl<T: ?Sized> vstd::std_specs::cmp::PartialEqSpecImpl for LocalID<T> {
    open spec fn obeys_eq_spec() -> bool {
        true
    }

    open spec fn eq_spec(&self, other: &Self) -> bool {
        *self == *other
    }
}

impl<T: ?Sized> Eq for ID<T> {
}

impl<T: ?Sized> Eq for LocalID<T> {
}

impl<T: ?Sized> Copy for ID<T> {
}

impl<T: ?Sized> Copy for LocalID<T> {
}

} // verus!
