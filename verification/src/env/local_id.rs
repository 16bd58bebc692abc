use vstd::prelude::*;
use core::marker::PhantomData;
use super::{ ID, PushLocal };

verus! {

/// An identifier as seen from inside local scopes: either a global one, or
/// the index of a local binding counted from the innermost one outward.
#[derive(Debug)]
pub enum LocalID<T: ?Sized> {
    Global(ID<T>),
    Local(usize, PhantomData<T>),
}

impl<T: ?Sized> Clone for LocalID<T> {
    fn clone(&self) -> (r: Self)
        ensures
            r == *self,
    {
        match self {
            LocalID::Global(id) => LocalID::Global(*id),
            LocalID::Local(id, _) => LocalID::Local(*id, PhantomData),
        }
    }
}

impl<T: ?Sized> Copy for LocalID<T> {
}

impl<T: ?Sized> PartialEq for LocalID<T> {
    fn eq(&self, other: &Self) -> (r: bool) {
        match (self, other) {
            (LocalID::Global(lhs), LocalID::Global(rhs)) => *lhs == *rhs,
            (LocalID::Local(lhs, _), LocalID::Local(rhs, _)) => *lhs == *rhs,
            _ => false,
        }
    }
}

impl<T: ?Sized> vstd::std_specs::cmp::PartialEqSpecImpl for LocalID<T> {
    open spec fn obeys_eq_spec() -> bool {
        true
    }

    open spec fn eq_spec(&self, other: &Self) -> bool {
        match (*self, *other) {
            (LocalID::Global(lhs), LocalID::Global(rhs)) => lhs == rhs,
            (LocalID::Local(lhs, _), LocalID::Local(rhs, _)) => lhs == rhs,
            _ => false,
        }
    }
}

impl<T: ?Sized> PartialEq<ID<T>> for LocalID<T> {
    fn eq(&self, rhs: &ID<T>) -> (r: bool) {
        match self {
            LocalID::Global(lhs) => *lhs == *rhs,
            LocalID::Local(_, _) => false,
        }
    }
}

impl<T: ?Sized> vstd::std_specs::cmp::PartialEqSpecImpl<ID<T>> for LocalID<T> {
    open spec fn obeys_eq_spec() -> bool {
        true
    }

    open spec fn eq_spec(&self, rhs: &ID<T>) -> bool {
        match *self {
            LocalID::Global(lhs) => lhs == *rhs,
            LocalID::Local(_, _) => false,
        }
    }
}

impl<T: ?Sized> Eq for LocalID<T> {
}

impl<T: ?Sized> DeepView for LocalID<T> {
    type V = LocalID<T>;

    open spec fn deep_view(&self) -> LocalID<T> {
        *self
    }
}

impl<T: ?Sized> From<ID<T>> for LocalID<T> {
    fn from(id: ID<T>) -> (r: Self) {
        LocalID::Global(id)
    }
}

impl<T: ?Sized> vstd::std_specs::convert::FromSpecImpl<ID<T>> for LocalID<T> {
    open spec fn obeys_from_spec() -> bool {
        true
    }

    open spec fn from_spec(id: ID<T>) -> Self {
        LocalID::Global(id)
    }
}

/// The local identifier after moving it under `amount` new bindings.
pub open spec fn local_push<T: ?Sized>(id: LocalID<T>, min: int, amount: int) -> LocalID<T> {
    match id {
        LocalID::Global(g) => LocalID::Global(g),
        LocalID::Local(i, p) => LocalID::Local(if i >= min { (i + amount) as usize } else { i }, p),
    }
}

impl<T: ?Sized> PushLocal<T> for LocalID<T> {
    open spec fn push_local_model(v: LocalID<T>, min: int, amount: int) -> LocalID<T> {
        local_push(v, min, amount)
    }

    open spec fn push_local_fits(v: LocalID<T>, min: int, amount: int) -> bool {
        match v {
            LocalID::Global(_) => true,
            LocalID::Local(i, _) => i >= min ==> i + amount <= usize::MAX,
        }
    }

    fn push_local_with_min(&self, _p: PhantomData<T>, min: usize, amount: usize) -> (r: Self) {
        match self {
            LocalID::Global(id) => LocalID::Global(*id),
            LocalID::Local(id, _) => LocalID::Local(if *id >= min { *id + amount } else { *id }, PhantomData),
        }
    }

    fn push_local(&self, _p: PhantomData<T>, amount: usize) -> (r: Self) {
        match self {
            LocalID::Global(id) => LocalID::Global(*id),
            LocalID::Local(id, _) => LocalID::Local(*id + amount, PhantomData),
        }
    }
}

impl<T: ?Sized> LocalID<T> {
    /// The innermost-counted local binding `id`.
    pub fn new(id: usize) -> (r: Self)
        ensures
            r == LocalID::<T>::Local(id, PhantomData),
    {
        LocalID::Local(id, PhantomData)
    }

    /// The global identifier, or the local one unchanged.
    pub fn global(self) -> (r: Result<ID<T>, Self>)
        ensures
            r == match self {
                LocalID::Global(id) => Ok(id),
                _ => Err(self),
            },
    {
        match self {
            LocalID::Global(id) => Ok(id),
            id => Err(id),
        }
    }
}

} // verus!
