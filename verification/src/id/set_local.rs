use vstd::prelude::*;

verus! {

/// Values in which the bindings of one scope can be replaced by values of
/// kind `T` (substitution).
///
/// Bindings of scopes below `min` belong to the value itself and are left
/// alone; the scope `min` levels up is the one whose bindings are replaced
/// by the elements of `par`.
pub trait SetLocal<T: DeepView = Self>: Sized + DeepView {
    /// The value after the substitution.
    spec fn set_model(v: Self::V, min: int, par: Seq<T::V>) -> Self::V;

    /// The substitution is defined: every replaced binding has an element in
    /// `par`, and moving that element into place stays within `usize`.
    spec fn set_ok(v: Self::V, min: int, par: Seq<T::V>) -> bool;

    fn set_with_min(&self, min: usize, par: &[T]) -> (r: Self)
        requires
            Self::set_ok(self.deep_view(), min as int, par.deep_view()),
        ensures
            r.deep_view() == Self::set_model(self.deep_view(), min as int, par.deep_view()),
    ;

    fn set(&self, par: &[T]) -> (r: Self)
        requires
            Self::set_ok(self.deep_view(), 0, par.deep_view()),
        ensures
            r.deep_view() == Self::set_model(self.deep_view(), 0, par.deep_view()),
    {
        self.set_with_min(0, par)
    }
}

impl<T: DeepView, U: SetLocal<T>> SetLocal<T> for Box<U> {
    open spec fn set_model(v: U::V, min: int, par: Seq<T::V>) -> U::V {
        U::set_model(v, min, par)
    }

    open spec fn set_ok(v: U::V, min: int, par: Seq<T::V>) -> bool {
        U::set_ok(v, min, par)
    }

    fn set_with_min(&self, min: usize, par: &[T]) -> (r: Self) {
        Box::new((&**self).set_with_min(min, par))
    }
}

impl<T: DeepView, U: SetLocal<T>> SetLocal<T> for Vec<U> {
    open spec fn set_model(v: Seq<U::V>, min: int, par: Seq<T::V>) -> Seq<U::V> {
        Seq::new(v.len(), |i: int| U::set_model(v[i], min, par))
    }

    open spec fn set_ok(v: Seq<U::V>, min: int, par: Seq<T::V>) -> bool {
        forall|i: int| 0 <= i < v.len() ==> #[trigger] U::set_ok(v[i], min, par)
    }

    fn set_with_min(&self, min: usize, par: &[T]) -> (r: Self) {
        let mut r: Vec<U> = Vec::new();
        let mut i: usize = 0;
        while i < self.len()
            invariant
                i <= self@.len(),
                r@.len() == i,
                Self::set_ok(self.deep_view(), min as int, par.deep_view()),
                forall|j: int| 0 <= j < i ==> (#[trigger] r@[j]).deep_view() == U::set_model(self@[j].deep_view(), min as int, par.deep_view()),
            decreases self@.len() - i,
        {
            assert(U::set_ok(self.deep_view()[i as int], min as int, par.deep_view()));
            r.push(self[i].set_with_min(min, par));
            i = i + 1;
        }
        assert(r.deep_view() =~= Self::set_model(self.deep_view(), min as int, par.deep_view()));
        r
    }
}

} // verus!
