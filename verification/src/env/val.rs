use vstd::prelude::*;
use crate::name_map::NameMap;
use super::ID;
use super::space::SpaceModel;

verus! {

/// A value a name can stand for: an identifier, or a nested map of names.
#[derive(Debug)]
pub enum Val<T: ?Sized> {
    ID(ID<T>),
    Space(NameMap<Val<T>>),
}

/// The model of a value: an identifier, or the entries of the nested map.
pub closed spec fn val_view<T: ?Sized>(v: Val<T>) -> SpaceModel<T>
    decreases v,
{
    match v {
        Val::ID(id) => SpaceModel::Val(id),
        Val::Space(m) => {
            let es = m.entries@;
            SpaceModel::Space(
                Seq::new(
                    es.len(),
                    |i: int|
                        if 0 <= i < es.len() {
                            proof {
                                assert(decreases_to!(m.entries => m.entries@));
                            }
                            (es[i].0@, val_view(es[i].1))
                        } else {
                            (Seq::empty(), SpaceModel::Space(Seq::empty()))
                        },
                ),
            )
        },
    }
}

impl<T: ?Sized> DeepView for Val<T> {
    type V = SpaceModel<T>;

    open spec fn deep_view(&self) -> SpaceModel<T> {
        val_view(*self)
    }
}

closed spec fn val_entries<T: ?Sized>(v: Val<T>) -> Seq<(Seq<char>, SpaceModel<T>)> {
    match val_view(v) {
        SpaceModel::Space(r) => r,
        _ => Seq::empty(),
    }
}

proof fn lemma_val_view<T: ?Sized>(v: Val<T>)
    ensures
        v matches Val::ID(id) ==> val_view(v) == SpaceModel::Val(id),
        v matches Val::Space(m) ==> {
            &&& val_view(v) == SpaceModel::Space(val_entries(v))
            &&& val_entries(v).len() == m.entries@.len()
            &&& forall|i: int| 0 <= i < m.entries@.len() ==> #[trigger] val_entries(v)[i] == (m.entries@[i].0@, val_view(m.entries@[i].1))
        },
{
    if let Val::Space(m) = v {
        let es = m.entries@;
        assert forall|i: int| 0 <= i < es.len() implies #[trigger] val_entries(v)[i] == (es[i].0@, val_view(es[i].1)) by {
            assert(decreases_to!(v => v->Space_0));
            assert(decreases_to!(m => m.entries));
            assert(decreases_to!(m.entries => m.entries@));
            assert(decreases_to!(m.entries@ => m.entries@[i]));
            assert(decreases_to!(m.entries@[i] => m.entries@[i].1));
        }
    }
}

fn copy<T: ?Sized>(v: &Val<T>) -> (r: Val<T>)
    ensures
        r.deep_view() == v.deep_view(),
    decreases v,
{
    match v {
        Val::ID(id) => {
            proof {
                lemma_val_view(*v);
                lemma_val_view(Val::<T>::ID(*id));
            }
            Val::ID(*id)
        },
        Val::Space(m) => {
            proof {
                lemma_val_view(*v);
            }
            let mut entries: Vec<(String, Val<T>)> = Vec::new();
            let mut i: usize = 0;
            while i < m.entries.len()
                invariant
                    i <= m.entries@.len(),
                    entries@.len() == i,
                    *v == Val::Space(*m),
                    forall|j: int| 0 <= j < i ==> (#[trigger] entries@[j]).0@ == m.entries@[j].0@ && val_view(entries@[j].1) == val_view(m.entries@[j].1),
                decreases m.entries@.len() - i,
            {
                proof {
                    let w = *v;
                    assert(decreases_to!(w => w->Space_0));
                    assert(decreases_to!(*m => m.entries));
                    assert(decreases_to!(m.entries => m.entries@));
                    assert(decreases_to!(m.entries@ => m.entries@[i as int]));
                    assert(decreases_to!(m.entries@[i as int] => m.entries@[i as int].1));
                }
                let e = &m.entries[i];
                let x = copy(&e.1);
                entries.push((e.0.clone(), x));
                i = i + 1;
            }
            let r = Val::Space(NameMap { entries });
            proof {
                lemma_val_view(r);
            }
            assert(val_entries(r) =~= val_entries(*v));
            r
        },
    }
}

impl<T: ?Sized> Clone for Val<T> {
    fn clone(&self) -> (r: Self)
        ensures
            r.deep_view() == self.deep_view(),
    {
        copy(self)
    }
}

impl<T: ?Sized> From<ID<T>> for Val<T> {
    fn from(id: ID<T>) -> (r: Self) {
        Val::ID(id)
    }
}

impl<T: ?Sized> vstd::std_specs::convert::FromSpecImpl<ID<T>> for Val<T> {
    open spec fn obeys_from_spec() -> bool {
        true
    }

    open spec fn from_spec(id: ID<T>) -> Self {
        Val::ID(id)
    }
}

} // verus!
