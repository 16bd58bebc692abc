use vstd::prelude::*;

verus! {

/// Values that hold identifiers which count scopes upward, and can be moved
/// into deeper scopes (`push`) or back out of them (`pop`).
///
/// Identifiers whose scope count is below `min` are bound inside the value
/// itself and are left alone.
pub trait PushID: Sized + DeepView {
    /// The value after moving it `amount` scopes deeper.
    spec fn push_model(v: Self::V, min: int, amount: int) -> Self::V;

    /// The value after moving it `amount` scopes out, or `None` where it
    /// refers to one of the scopes that are left.
    spec fn pop_model(v: Self::V, min: int, amount: int) -> Option<Self::V>;

    /// Moving the value deeper keeps every scope count within `usize`.
    spec fn push_fits(v: Self::V, min: int, amount: int) -> bool;

    /// Moving the value out can be computed: `min + amount` fits in
    /// `usize`, or the value holds no identifier of a scope (which is all
    /// that needs the sum).
    spec fn pop_ok(v: Self::V, min: int, amount: int) -> bool;

    /// Where `min + amount` fits, moving out can be computed.
    proof fn lemma_pop_ok(v: Self::V, min: int, amount: int)
        requires
            0 <= min,
            0 <= amount,
            min + amount <= usize::MAX,
        ensures
            Self::pop_ok(v, min, amount),
    ;

    /// Moving a value out of the scopes it was moved into gives it back.
    proof fn lemma_pop_push(v: Self::V, min: int, amount: int)
        requires
            0 <= min,
            0 <= amount,
            Self::push_fits(v, min, amount),
        ensures
            Self::pop_model(Self::push_model(v, min, amount), min, amount) == Some(v),
    ;

    fn push_id_with_min(&self, min: usize, amount: usize) -> (r: Self)
        requires
            Self::push_fits(self.deep_view(), min as int, amount as int),
        ensures
            r.deep_view() == Self::push_model(self.deep_view(), min as int, amount as int),
    ;

    fn pop_id_with_min(&self, min: usize, amount: usize) -> (r: Option<Self>)
        requires
            Self::pop_ok(self.deep_view(), min as int, amount as int),
        ensures
            r.deep_view() == Self::pop_model(self.deep_view(), min as int, amount as int),
    ;

    fn push_id(&self, amount: usize) -> (r: Self)
        requires
            Self::push_fits(self.deep_view(), 0, amount as int),
        ensures
            r.deep_view() == Self::push_model(self.deep_view(), 0, amount as int),
    {
        self.push_id_with_min(0, amount)
    }

    fn pop_id(&self, amount: usize) -> (r: Option<Self>)
        ensures
            r.deep_view() == Self::pop_model(self.deep_view(), 0, amount as int),
    {
        proof {
            Self::lemma_pop_ok(self.deep_view(), 0, amount as int);
        }
        self.pop_id_with_min(0, amount)
    }
}

impl<U: PushID> PushID for Box<U> {
    open spec fn push_model(v: U::V, min: int, amount: int) -> U::V {
        U::push_model(v, min, amount)
    }

    open spec fn pop_model(v: U::V, min: int, amount: int) -> Option<U::V> {
        U::pop_model(v, min, amount)
    }

    open spec fn push_fits(v: U::V, min: int, amount: int) -> bool {
        U::push_fits(v, min, amount)
    }

    open spec fn pop_ok(v: U::V, min: int, amount: int) -> bool {
        U::pop_ok(v, min, amount)
    }

    proof fn lemma_pop_ok(v: U::V, min: int, amount: int) {
        U::lemma_pop_ok(v, min, amount);
        assert(<Box<U> as PushID>::pop_ok(v, min, amount));
    }

    proof fn lemma_pop_push(v: U::V, min: int, amount: int) {
        U::lemma_pop_push(v, min, amount);
    }

    fn push_id_with_min(&self, min: usize, amount: usize) -> (r: Self) {
        Box::new((&**self).push_id_with_min(min, amount))
    }

    fn pop_id_with_min(&self, min: usize, amount: usize) -> (r: Option<Self>) {
        proof {
            assert(<Box<U> as PushID>::pop_ok(self.deep_view(), min as int, amount as int));
        }
        match (&**self).pop_id_with_min(min, amount) {
            Some(e) => {
                let b = Box::new(e);
                assert(b.deep_view() == e.deep_view());
                Some(b)
            },
            None => None,
        }
    }
}

/// Every element of `v` moved deeper.
pub open spec fn seq_push_model<U: PushID>(v: Seq<U::V>, min: int, amount: int) -> Seq<U::V> {
    Seq::new(v.len(), |i: int| U::push_model(v[i], min, amount))
}

/// Every element of `v` moved out, or `None` where one of them cannot be.
pub open spec fn seq_pop_model<U: PushID>(v: Seq<U::V>, min: int, amount: int) -> Option<Seq<U::V>> {
    if forall|i: int| 0 <= i < v.len() ==> (#[trigger] U::pop_model(v[i], min, amount)).is_some() {
        Some(Seq::new(v.len(), |i: int| U::pop_model(v[i], min, amount).unwrap()))
    } else {
        None
    }
}

impl<U: PushID> PushID for Vec<U> {
    open spec fn push_model(v: Seq<U::V>, min: int, amount: int) -> Seq<U::V> {
        seq_push_model::<U>(v, min, amount)
    }

    open spec fn pop_model(v: Seq<U::V>, min: int, amount: int) -> Option<Seq<U::V>> {
        seq_pop_model::<U>(v, min, amount)
    }

    open spec fn push_fits(v: Seq<U::V>, min: int, amount: int) -> bool {
        forall|i: int| 0 <= i < v.len() ==> #[trigger] U::push_fits(v[i], min, amount)
    }

    open spec fn pop_ok(v: Seq<U::V>, min: int, amount: int) -> bool {
        forall|i: int| 0 <= i < v.len() ==> #[trigger] U::pop_ok(v[i], min, amount)
    }

    proof fn lemma_pop_ok(v: Seq<U::V>, min: int, amount: int) {
        assert forall|i: int| 0 <= i < v.len() implies #[trigger] U::pop_ok(v[i], min, amount) by {
            U::lemma_pop_ok(v[i], min, amount);
        }
        assert(<Vec<U> as PushID>::pop_ok(v, min, amount));
    }

    proof fn lemma_pop_push(v: Seq<U::V>, min: int, amount: int) {
        let p = seq_push_model::<U>(v, min, amount);
        assert forall|i: int| 0 <= i < p.len() implies (#[trigger] U::pop_model(p[i], min, amount)) == Some(v[i]) by {
            U::lemma_pop_push(v[i], min, amount);
        }
        assert(Seq::new(p.len(), |i: int| U::pop_model(p[i], min, amount).unwrap()) =~= v);
    }

    fn push_id_with_min(&self, min: usize, amount: usize) -> (r: Self) {
        let mut r: Vec<U> = Vec::new();
        let mut i: usize = 0;
        while i < self.len()
            invariant
                i <= self@.len(),
                r@.len() == i,
                Self::push_fits(self.deep_view(), min as int, amount as int),
                forall|j: int| 0 <= j < i ==> (#[trigger] r@[j]).deep_view() == U::push_model(self@[j].deep_view(), min as int, amount as int),
            decreases self@.len() - i,
        {
            assert(U::push_fits(self.deep_view()[i as int], min as int, amount as int));
            r.push(self[i].push_id_with_min(min, amount));
            i = i + 1;
        }
        assert(r.deep_view() =~= seq_push_model::<U>(self.deep_view(), min as int, amount as int));
        r
    }

    fn pop_id_with_min(&self, min: usize, amount: usize) -> (r: Option<Self>) {
        proof {
            assert(<Vec<U> as PushID>::pop_ok(self.deep_view(), min as int, amount as int));
        }
        let mut r: Vec<U> = Vec::new();
        let mut i: usize = 0;
        while i < self.len()
            invariant
                i <= self@.len(),
                r@.len() == i,
                forall|j: int| 0 <= j < self@.len() ==> U::pop_ok(#[trigger] self.deep_view()[j], min as int, amount as int),
                forall|j: int| 0 <= j < i ==> Some((#[trigger] r@[j]).deep_view()) == U::pop_model(self@[j].deep_view(), min as int, amount as int),
            decreases self@.len() - i,
        {
            assert(self.deep_view()[i as int] == self@[i as int].deep_view());
            match self[i].pop_id_with_min(min, amount) {
                Some(e) => r.push(e),
                None => {
                    assert(U::pop_model(self.deep_view()[i as int], min as int, amount as int).is_none());
                    return None;
                },
            }
            i = i + 1;
        }
        let ghost dv = self.deep_view();
        assert forall|j: int| 0 <= j < dv.len() implies (#[trigger] U::pop_model(dv[j], min as int, amount as int)).is_some() by {
            assert(Some(r@[j].deep_view()) == U::pop_model(self@[j].deep_view(), min as int, amount as int));
        }
        assert(r.deep_view() =~= Seq::new(dv.len(), |j: int| U::pop_model(dv[j], min as int, amount as int).unwrap()));
        Some(r)
    }
}

} // verus!
