use vstd::prelude::*;
use core::marker::PhantomData;
use crate::name_map::{ NameMap, entry_insert, entry_lookup, keys_unique, lemma_lookup_insert };
use super::{ LocalID, Namespace, Path, PushLocal };
use super::local_id::local_push;
use super::namespace::{ resolve_id, resolve_fits, super_overruns, names };

verus! {

/// Names of local bindings of elements of kind `T`, in scopes nested in a
/// namespace. A scope numbers its names from 0 in order.
#[derive(Debug)]
pub enum LocalNamespace<'a, T: ?Sized> {
    Base(&'a Namespace<'a, T>),
    Scope(&'a LocalNamespace<'a, T>, NameMap<usize>),
}

/// The names of `v` with their indices; of equal names the last counts.
pub open spec fn index_entries(v: Seq<Seq<char>>) -> Seq<(Seq<char>, usize)>
    decreases v.len(),
{
    if v.len() == 0 {
        Seq::empty()
    } else {
        entry_insert(index_entries(v.drop_last()), v.last(), (v.len() - 1) as usize)
    }
}

/// What the path `p` names in the local scopes `ln`: a local binding,
/// counted from the innermost scope outward, or a global identifier; or
/// the part of the path that could not be resolved.
pub open spec fn local_get<'a, T: ?Sized>(ln: LocalNamespace<'a, T>, p: Seq<Seq<char>>) -> Result<LocalID<T>, Seq<Seq<char>>>
    decreases ln,
{
    match ln {
        LocalNamespace::Base(ns) => match resolve_id(ns.frames(), p) {
            Ok(id) => Ok(LocalID::Global(id)),
            Err(e) => Err(e),
        },
        LocalNamespace::Scope(space, m) => match entry_lookup(m@, p.last()) {
            Some(i) if p.len() == 1 => Ok(LocalID::Local(i, PhantomData)),
            _ => match local_get(*space, p) {
                Ok(id) => Ok(local_push(id, 0, m@.len() as int)),
                Err(e) => Err(e),
            },
        },
    }
}

/// Resolving `p` in the local scopes `ln` stays within what the namespace
/// beneath can resolve and within `usize`.
pub open spec fn local_get_ok<'a, T: ?Sized>(ln: LocalNamespace<'a, T>, p: Seq<Seq<char>>) -> bool
    decreases ln,
{
    match ln {
        LocalNamespace::Base(ns) => {
            &&& ns.frames().len() <= usize::MAX
            &&& !super_overruns(ns.frames()[0].supers, p)
            &&& resolve_fits(ns.frames(), p)
        },
        LocalNamespace::Scope(space, m) => match entry_lookup(m@, p.last()) {
            Some(i) if p.len() == 1 => true,
            _ => {
                &&& local_get_ok(*space, p)
                &&& (local_get(*space, p) matches Ok(LocalID::Local(i, _)) ==> i + m@.len() <= usize::MAX)
            },
        },
    }
}

/// Every scope of `ln` holds each name at most once.
pub open spec fn local_wf<'a, T: ?Sized>(ln: LocalNamespace<'a, T>) -> bool
    decreases ln,
{
    match ln {
        LocalNamespace::Base(_) => true,
        LocalNamespace::Scope(space, m) => keys_unique(m@) && local_wf(*space),
    }
}

impl<'a, T: ?Sized> LocalNamespace<'a, T> {
    pub fn new(space: &'a Namespace<'a, T>) -> (r: Self)
        ensures
            r == LocalNamespace::Base(space),
    {
        LocalNamespace::Base(space)
    }

    /// A local scope binding no name.
    pub fn scope_empty<'b>(&'b self) -> (r: LocalNamespace<'b, T>)
        where 'a: 'b
        ensures
            r matches LocalNamespace::Scope(s, m) && *s == *self && m@ == Seq::<(Seq<char>, usize)>::empty(),
            local_wf(*self) ==> local_wf(r),
    {
        LocalNamespace::Scope(self, NameMap::new())
    }

    /// A local scope binding the names of `v`, each to its index in `v` (of
    /// equal names the last counts).
    pub fn scope<'b>(&'b self, v: Vec<String>) -> (r: LocalNamespace<'b, T>)
        where 'a: 'b
        ensures
            r matches LocalNamespace::Scope(s, m) && *s == *self && m@ == index_entries(names(v@)),
            local_wf(*self) ==> local_wf(r),
    {
        let mut m: NameMap<usize> = NameMap::new();
        let mut i: usize = 0;
        while i < v.len()
            invariant
                i <= v@.len(),
                m@ == index_entries(names(v@).take(i as int)),
                m.wf(),
            decreases v@.len() - i,
        {
            m.insert(v[i].clone(), i);
            proof {
                let t = names(v@).take(i + 1);
                assert(t.drop_last() =~= names(v@).take(i as int));
                assert(t.last() == v@[i as int]@);
            }
            i = i + 1;
        }
        assert(names(v@).take(v@.len() as int) =~= names(v@));
        LocalNamespace::Scope(self, m)
    }

    /// What the path `p` names: a local binding, counted from the innermost
    /// scope outward, or a global identifier; or the part of the path that
    /// could not be resolved.
    pub fn get(&self, p: &Path<String>) -> (r: Result<LocalID<T>, Path<String>>)
        requires
            p@.len() > 0,
            local_get_ok(*self, p.deep_view()),
        ensures
            match (r, local_get(*self, p.deep_view())) {
                (Ok(id), Ok(m)) => id == m,
                (Err(e), Err(m)) => e.deep_view() == m,
                _ => false,
            },
        decreases *self,
    {
        match self {
            LocalNamespace::Base(space) => match space.get(p) {
                Ok(id) => Ok(LocalID::Global(id)),
                Err(e) => Err(e),
            },
            LocalNamespace::Scope(space, m) => {
                let name = p.name();
                assert(p.deep_view().last() == name@);
                match m.get(name) {
                    Some(id) if p.len() == 1 => Ok(LocalID::new(*id)),
                    _ => match space.get(p) {
                        Ok(id) => Ok(id.push_local(PhantomData::<T>, m.len())),
                        Err(e) => Err(e),
                    },
                }
            },
        }
    }
}

/// A name bound by the innermost scope names its local binding there.
pub proof fn law_local_scope_binds<'a, T: ?Sized>(ln: LocalNamespace<'a, T>, v: Seq<Seq<char>>, j: int)
    requires
        ln matches LocalNamespace::Scope(_, m) && m@ == index_entries(v),
        0 <= j < v.len() <= usize::MAX,
    ensures
        local_get(ln, seq![v[j]]) matches Ok(LocalID::Local(i, _)) && 0 <= i < v.len() && v[i as int] == v[j],
{
    lemma_index_entries(v, v[j]);
}

/// A local identifier as seen from under `k` more local bindings, or the
/// error unchanged.
pub open spec fn local_shift<T: ?Sized>(r: Result<LocalID<T>, Seq<Seq<char>>>, k: int) -> Result<LocalID<T>, Seq<Seq<char>>> {
    match r {
        Ok(id) => Ok(local_push(id, 0, k)),
        Err(e) => Err(e),
    }
}

/// A scope binding the names `v` holds as many bindings as `v` has
/// distinct names: all of them where no name occurs twice.
pub proof fn lemma_index_entries_len(v: Seq<Seq<char>>)
    requires
        v.len() <= usize::MAX,
        forall|i: int, j: int| 0 <= i < j < v.len() ==> v[i] != v[j],
    ensures
        index_entries(v).len() == v.len(),
    decreases v.len(),
{
    if v.len() > 0 {
        let w = v.drop_last();
        assert forall|i: int, j: int| 0 <= i < j < w.len() implies w[i] != w[j] by {
            assert(w[i] == v[i] && w[j] == v[j]);
        }
        lemma_index_entries_len(w);
        assert forall|j: int| 0 <= j < w.len() implies w[j] != v.last() by {
            assert(w[j] == v[j]);
        }
        lemma_index_entries(w, v.last());
    }
}

/// In a scope binding the names `v`, a path that is not one of those names
/// resolves as beneath it: local bindings move past the scope's bindings,
/// global identifiers and errors stay.
pub proof fn law_local_scope_shift<'a, T: ?Sized>(ln: LocalNamespace<'a, T>, v: Seq<Seq<char>>, p: Seq<Seq<char>>)
    requires
        ln matches LocalNamespace::Scope(_, m) && m@ == index_entries(v),
        v.len() <= usize::MAX,
        p.len() > 1 || forall|j: int| 0 <= j < v.len() ==> v[j] != p.last(),
    ensures
        ln matches LocalNamespace::Scope(s, m) && local_get(ln, p) == local_shift(local_get(*s, p), m@.len() as int),
        (forall|i: int, j: int| 0 <= i < j < v.len() ==> v[i] != v[j]) ==> ln->Scope_1@.len() == v.len(),
{
    lemma_index_entries(v, p.last());
    if forall|i: int, j: int| 0 <= i < j < v.len() ==> v[i] != v[j] {
        lemma_index_entries_len(v);
    }
}

/// With no local scope, a path names the global identifier it names in the
/// namespace, or fails as there.
pub proof fn law_local_base<'a, T: ?Sized>(ns: &'a Namespace<'a, T>, p: Seq<Seq<char>>)
    ensures
        local_get(LocalNamespace::Base(ns), p) == match resolve_id(ns.frames(), p) {
            Ok(id) => Ok(LocalID::Global(id)),
            Err(e) => Err::<LocalID<T>, Seq<Seq<char>>>(e),
        },
{
}

/// An empty local scope changes no lookup.
pub proof fn law_local_scope_empty<'a, T: ?Sized>(ln: LocalNamespace<'a, T>, p: Seq<Seq<char>>)
    requires
        ln matches LocalNamespace::Scope(_, m) && m@ == Seq::<(Seq<char>, usize)>::empty(),
    ensures
        local_get(ln, p) == local_get(*ln->Scope_0, p),
{
    if let Ok(id) = local_get(*ln->Scope_0, p) {
        assert(local_push(id, 0, 0) == id);
    }
}

/// The index a name gets in `index_entries` is one of its positions.
proof fn lemma_index_entries(v: Seq<Seq<char>>, k: Seq<char>)
    requires
        v.len() <= usize::MAX,
    ensures
        (exists|j: int| 0 <= j < v.len() && v[j] == k) ==> (entry_lookup(index_entries(v), k) matches Some(i) && 0 <= i < v.len() && v[i as int] == k),
        (forall|j: int| 0 <= j < v.len() ==> v[j] != k) ==> entry_lookup(index_entries(v), k).is_none(),
    decreases v.len(),
{
    if v.len() > 0 {
        let w = v.drop_last();
        lemma_index_entries(w, k);
        lemma_lookup_insert(index_entries(w), v.last(), (v.len() - 1) as usize, k);
        if v.last() != k {
            if exists|j: int| 0 <= j < v.len() && v[j] == k {
                let j = choose|j: int| 0 <= j < v.len() && v[j] == k;
                assert(w[j] == k);
            }
        }
    }
}

} // verus!
