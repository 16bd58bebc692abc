use vstd::prelude::*;
use core::marker::PhantomData;

verus! {

/// Values that hold indices of local bindings of kind `T`, counted from the
/// innermost binding outward, and can be moved under `amount` new bindings.
///
/// Indices below `min` are bound inside the value itself and are left alone.
pub trait PushLocal<T: ?Sized>: Sized + DeepView {
    /// The value after moving it under `amount` new bindings.
    spec fn push_local_model(v: Self::V, min: int, amount: int) -> Self::V;

    /// Moving the value keeps every index within `usize`.
    spec fn push_local_fits(v: Self::V, min: int, amount: int) -> bool;

    fn push_local_with_min(&self, p: PhantomData<T>, min: usize, amount: usize) -> (r: Self)
        requires
            Self::push_local_fits(self.deep_view(), min as int, amount as int),
        ensures
            r.deep_view() == Self::push_local_model(self.deep_view(), min as int, amount as int),
    ;

    fn push_local(&self, p: PhantomData<T>, amount: usize) -> (r: Self)
        requires
            Self::push_local_fits(self.deep_view(), 0, amount as int),
        ensures
            r.deep_view() == Self::push_local_model(self.deep_view(), 0, amount as int),
    {
        self.push_local_with_min(p, 0, amount)
    }
}

impl<T: ?Sized, U: PushLocal<T>, V: PushLocal<T>> PushLocal<T> for (U, V) {
    open spec fn push_local_model(v: (U::V, V::V), min: int, amount: int) -> (U::V, V::V) {
        (U::push_local_model(v.0, min, amount), V::push_local_model(v.1, min, amount))
    }

    open spec fn push_local_fits(v: (U::V, V::V), min: int, amount: int) -> bool {
        U::push_local_fits(v.0, min, amount) && V::push_local_fits(v.1, min, amount)
    }

    fn push_local_with_min(&self, p: PhantomData<T>, min: usize, amount: usize) -> (r: Self) {
        (self.0.push_local_with_min(p, min, amount), self.1.push_local_with_min(p, min, amount))
    }
}

impl<T: ?Sized, U: PushLocal<T>> PushLocal<T> for Box<U> {
    open spec fn push_local_model(v: U::V, min: int, amount: int) -> U::V {
        U::push_local_model(v, min, amount)
    }

    open spec fn push_local_fits(v: U::V, min: int, amount: int) -> bool {
        U::push_local_fits(v, min, amount)
    }

    fn push_local_with_min(&self, p: PhantomData<T>, min: usize, amount: usize) -> (r: Self) {
        Box::new((&**self).push_local_with_min(p, min, amount))
    }
}

impl<T: ?Sized, U: PushLocal<T>> PushLocal<T> for Vec<U> {
    open spec fn push_local_model(v: Seq<U::V>, min: int, amount: int) -> Seq<U::V> {
        Seq::new(v.len(), |i: int| U::push_local_model(v[i], min, amount))
    }

    open spec fn push_local_fits(v: Seq<U::V>, min: int, amount: int) -> bool {
        forall|i: int| 0 <= i < v.len() ==> #[trigger] U::push_local_fits(v[i], min, amount)
    }

    fn push_local_with_min(&self, p: PhantomData<T>, min: usize, amount: usize) -> (r: Self) {
        let mut r: Vec<U> = Vec::new();
        let mut i: usize = 0;
        while i < self.len()
            invariant
                i <= self@.len(),
                r@.len() == i,
                Self::push_local_fits(self.deep_view(), min as int, amount as int),
                forall|j: int| 0 <= j < i ==> (#[trigger] r@[j]).deep_view() == U::push_local_model(self@[j].deep_view(), min as int, amount as int),
            decreases self@.len() - i,
        {
            assert(U::push_local_fits(self.deep_view()[i as int], min as int, amount as int));
            r.push(self[i].push_local_with_min(p, min, amount));
            i = i + 1;
        }
        assert(r.deep_view() =~= Self::push_local_model(self.deep_view(), min as int, amount as int));
        r
    }
}

} // verus!
