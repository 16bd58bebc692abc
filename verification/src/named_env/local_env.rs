use vstd::prelude::*;
use core::marker::PhantomData;
use crate::name_map::{ NameMap, entry_insert, entry_lookup, lemma_entry_index, lemma_lookup_insert };
use super::{ Env, LocalID };

verus! {

/// Named elements of kind `T` in local scopes nested in an environment;
/// local elements are numbered from the innermost scope outward.
#[derive(Debug)]
pub enum LocalEnv<'a, T: 'a> {
    Base(&'a Env<'a, T>),
    Scope(&'a LocalEnv<'a, T>, NameMap<usize>, Vec<T>),
}

/// The local elements, innermost scope first.
pub open spec fn named_items<'a, T>(le: LocalEnv<'a, T>) -> Seq<T>
    decreases le,
{
    match le {
        LocalEnv::Base(_) => Seq::empty(),
        LocalEnv::Scope(p, _, v) => v@ + named_items(*p),
    }
}

/// The environment the local scopes are nested in.
pub open spec fn named_base<'a, T>(le: LocalEnv<'a, T>) -> Env<'a, T>
    decreases le,
{
    match le {
        LocalEnv::Base(env) => *env,
        LocalEnv::Scope(p, _, _) => named_base(*p),
    }
}

/// The identifier `name` stands for: in the innermost scope that binds it,
/// else in the environment beneath.
pub open spec fn named_get_id<'a, T>(le: LocalEnv<'a, T>, name: Seq<char>) -> Option<LocalID<T>>
    decreases le,
{
    match le {
        LocalEnv::Base(env) => match entry_lookup(env.names(), name) {
            Some(i) => Some(LocalID::Global(i, PhantomData)),
            None => None,
        },
        LocalEnv::Scope(p, m, v) => match entry_lookup(m@, name) {
            Some(i) => Some(LocalID::Local(i, PhantomData)),
            None => match named_get_id(*p, name) {
                Some(LocalID::Global(i, q)) => Some(LocalID::Global(i, q)),
                Some(LocalID::Local(i, q)) => Some(LocalID::Local((i + v@.len()) as usize, q)),
                None => None,
            },
        },
    }
}

/// The element an identifier names, if any.
pub open spec fn named_get<'a, T>(le: LocalEnv<'a, T>, id: LocalID<T>) -> Option<T> {
    match id {
        LocalID::Global(i, _) => if i < named_base(le).elements().len() {
            Some(named_base(le).elements()[i as int])
        } else {
            None
        },
        LocalID::Local(i, _) => if i < named_items(le).len() {
            Some(named_items(le)[i as int])
        } else {
            None
        },
    }
}

/// The element `name` stands for: the one bound to it in the innermost
/// scope that binds it, else the one the environment maps it to.
pub open spec fn named_value<'a, T>(le: LocalEnv<'a, T>, name: Seq<char>) -> Option<T>
    decreases le,
{
    match le {
        LocalEnv::Base(env) => match entry_lookup(env.names(), name) {
            Some(i) => if i < env.elements().len() {
                Some(env.elements()[i as int])
            } else {
                None
            },
            None => None,
        },
        LocalEnv::Scope(p, m, v) => match entry_lookup(m@, name) {
            Some(i) => Some(v@[i as int]),
            None => named_value(*p, name),
        },
    }
}

/// Every name a scope binds stands for one of its elements, and the local
/// elements are countable.
pub open spec fn named_wf<'a, T>(le: LocalEnv<'a, T>) -> bool
    decreases le,
{
    match le {
        LocalEnv::Base(_) => true,
        LocalEnv::Scope(p, m, v) => {
            &&& forall|k: Seq<char>| #[trigger] entry_lookup(m@, k) matches Some(i) ==> i < v@.len()
            &&& named_items(le).len() <= usize::MAX
            &&& named_wf(*p)
        },
    }
}

/// The names of `v` with their indices; of equal names the last counts.
pub open spec fn pair_entries<T>(v: Seq<(String, T)>) -> Seq<(Seq<char>, usize)>
    decreases v.len(),
{
    if v.len() == 0 {
        Seq::empty()
    } else {
        entry_insert(pair_entries(v.drop_last()), v.last().0@, (v.len() - 1) as usize)
    }
}

/// An identifier as seen from under a scope of `k` more local elements.
pub open spec fn named_shift<T>(id: Option<LocalID<T>>, k: int) -> Option<LocalID<T>> {
    match id {
        Some(LocalID::Global(i, q)) => Some(LocalID::Global(i, q)),
        Some(LocalID::Local(i, q)) => Some(LocalID::Local((i + k) as usize, q)),
        None => None,
    }
}

/// The index a name gets in `pair_entries` is that of its last pair.
proof fn lemma_pair_entries_last<T>(v: Seq<(String, T)>, k: Seq<char>)
    ensures
        (forall|j: int| 0 <= j < v.len() ==> v[j].0@ != k) ==> entry_lookup(pair_entries(v), k).is_none(),
        forall|j: int| 0 <= j < v.len() && (#[trigger] v[j].0@) == k && (forall|l: int| j < l < v.len() ==> v[l].0@ != k)
            ==> entry_lookup(pair_entries(v), k) == Some(j as usize),
    decreases v.len(),
{
    if v.len() > 0 {
        let w = v.drop_last();
        lemma_pair_entries_last(w, k);
        lemma_lookup_insert(pair_entries(w), v.last().0@, (v.len() - 1) as usize, k);
        assert forall|j: int| 0 <= j < v.len() && (#[trigger] v[j].0@) == k && (forall|l: int| j < l < v.len() ==> v[l].0@ != k)
            implies entry_lookup(pair_entries(v), k) == Some(j as usize) by {
            if j < v.len() - 1 {
                assert(v[v.len() - 1].0@ != k);
                assert(w[j] == v[j]);
                assert forall|l: int| j < l < w.len() implies w[l].0@ != k by {
                    assert(w[l] == v[l]);
                }
            }
        }
        if forall|j: int| 0 <= j < v.len() ==> v[j].0@ != k {
            assert(v[v.len() - 1].0@ != k);
            assert forall|j: int| 0 <= j < w.len() implies w[j].0@ != k by {
                assert(w[j] == v[j]);
            }
        }
    }
}

/// In a scope binding the pairs `w`, a name stands for the local element of
/// its last pair there; a name the scope does not bind stands for what it
/// stood for beneath, local elements moved past the scope's.
pub proof fn law_named_scope_get_id<'a, T>(le: LocalEnv<'a, T>, w: Seq<(String, T)>, n: Seq<char>)
    requires
        le matches LocalEnv::Scope(_, m, e) && m@ == pair_entries(w) && e@.len() == w.len(),
    ensures
        (forall|j: int| 0 <= j < w.len() ==> w[j].0@ != n) ==> named_get_id(le, n) == named_shift(named_get_id(*le->Scope_0, n), w.len() as int),
        forall|j: int| 0 <= j < w.len() && (#[trigger] w[j].0@) == n && (forall|l: int| j < l < w.len() ==> w[l].0@ != n)
            ==> named_get_id(le, n) == Some(LocalID::<T>::Local(j as usize, PhantomData)),
{
    lemma_pair_entries_last(w, n);
}

/// A scope holding the elements `ws` under no name: every name stands for
/// what it stood for beneath, moved past them; its local elements come
/// first, those beneath after them, and global elements stay.
pub proof fn law_named_scope_anon<'a, T>(le: LocalEnv<'a, T>, ws: Seq<T>)
    requires
        le matches LocalEnv::Scope(_, m, e) && m@ == Seq::<(Seq<char>, usize)>::empty() && e@ == ws,
    ensures
        forall|n: Seq<char>| #[trigger] named_get_id(le, n) == named_shift(named_get_id(*le->Scope_0, n), ws.len() as int),
        forall|i: usize| i < ws.len() ==> #[trigger] named_get(le, LocalID::Local(i, PhantomData)) == Some(ws[i as int]),
        forall|j: usize| j + ws.len() <= usize::MAX ==> #[trigger] named_get(le, LocalID::Local((j + ws.len()) as usize, PhantomData))
            == named_get(*le->Scope_0, LocalID::Local(j, PhantomData)),
        forall|g: usize| #[trigger] named_get(le, LocalID::Global(g, PhantomData)) == named_get(*le->Scope_0, LocalID::Global(g, PhantomData)),
{
    let p = *le->Scope_0;
    assert forall|j: usize| j + ws.len() <= usize::MAX implies #[trigger] named_get(le, LocalID::Local((j + ws.len()) as usize, PhantomData))
        == named_get(p, LocalID::Local(j, PhantomData)) by {
        assert(named_items(le) == ws + named_items(p));
        if j < named_items(p).len() {
            assert(named_items(le)[j + ws.len()] == named_items(p)[j as int]);
        }
    }
    assert forall|i: usize| i < ws.len() implies #[trigger] named_get(le, LocalID::Local(i, PhantomData)) == Some(ws[i as int]) by {
        assert(named_items(le) == ws + named_items(p));
    }
}

proof fn lemma_pair_entries<T>(v: Seq<(String, T)>, k: Seq<char>)
    requires
        v.len() <= usize::MAX,
    ensures
        entry_lookup(pair_entries(v), k) matches Some(i) ==> i < v.len() && v[i as int].0@ == k,
    decreases v.len(),
{
    if v.len() > 0 {
        lemma_pair_entries(v.drop_last(), k);
        lemma_lookup_insert(pair_entries(v.drop_last()), v.last().0@, (v.len() - 1) as usize, k);
    }
}

impl<'a, T: 'a> LocalEnv<'a, T> {
    pub fn new(env: &'a Env<'a, T>) -> (r: Self)
        ensures
            r == LocalEnv::Base(env),
    {
        LocalEnv::Base(env)
    }

    /// A local scope holding the elements of `v`, each bound to its name
    /// (of equal names the last counts).
    pub fn scope<'b>(&'b self, v: Vec<(String, T)>) -> (r: LocalEnv<'b, T>)
        where 'a: 'b
        requires
            v@.len() + named_items(*self).len() <= usize::MAX,
        ensures
            r matches LocalEnv::Scope(p, m, e) && *p == *self && m@ == pair_entries(v@) && e@ == v@.map_values(|x: (String, T)| x.1),
            named_wf(*self) ==> named_wf(r),
    {
        let ghost v0 = v@;
        assert(v0.len() <= usize::MAX);
        let mut m: NameMap<usize> = NameMap::new();
        let mut i: usize = 0;
        while i < v.len()
            invariant
                i <= v@.len(),
                v@ == v0,
                m@ == pair_entries(v0.take(i as int)),
            decreases v@.len() - i,
        {
            m.insert(v[i].0.clone(), i);
            assert(v0.take(i + 1).drop_last() =~= v0.take(i as int));
            i = i + 1;
        }
        assert(v0.take(v0.len() as int) =~= v0);
        let mut v = v;
        let mut rev: Vec<T> = Vec::new();
        while v.len() > 0
            invariant
                v@.len() + rev@.len() == v0.len(),
                m@ == pair_entries(v0),
                v0.len() <= usize::MAX,
                v@ == v0.take(v@.len() as int),
                forall|j: int| 0 <= j < rev@.len() ==> #[trigger] rev@[j] == v0[v0.len() - 1 - j].1,
            decreases v@.len(),
        {
            let (_, e) = v.pop().unwrap();
            rev.push(e);
            assert(v@ =~= v0.take(v@.len() as int));
        }
        let mut e: Vec<T> = Vec::new();
        while rev.len() > 0
            invariant
                e@.len() + rev@.len() == v0.len(),
                m@ == pair_entries(v0),
                v0.len() <= usize::MAX,
                forall|j: int| 0 <= j < rev@.len() ==> #[trigger] rev@[j] == v0[v0.len() - 1 - j].1,
                forall|j: int| 0 <= j < e@.len() ==> #[trigger] e@[j] == v0[j].1,
            decreases rev@.len(),
        {
            let x = rev.pop().unwrap();
            e.push(x);
        }
        assert(e@ =~= v0.map_values(|x: (String, T)| x.1));
        proof {
            assert(e@.len() == v0.len());
            assert forall|k: Seq<char>| (#[trigger] entry_lookup(m@, k) matches Some(i) ==> i < e@.len()) by {
                lemma_pair_entries(v0, k);
                assert(entry_lookup(m@, k) == entry_lookup(pair_entries(v0), k));
                assert(v0.len() == e@.len());
            }
        }
        let r = LocalEnv::Scope(self, m, e);
        assert(named_items(r).len() == e@.len() + named_items(*self).len());
        r
    }

    /// A local scope holding the elements of `v`, bound to no name.
    pub fn scope_anon<'b>(&'b self, v: Vec<T>) -> (r: LocalEnv<'b, T>)
        where 'a: 'b
        requires
            v@.len() + named_items(*self).len() <= usize::MAX,
        ensures
            r matches LocalEnv::Scope(p, m, e) && *p == *self && m@ == Seq::<(Seq<char>, usize)>::empty() && e@ == v@,
            named_wf(*self) ==> named_wf(r),
    {
        let r = LocalEnv::Scope(self, NameMap::new(), v);
        assert(named_items(r).len() == v@.len() + named_items(*self).len());
        r
    }

    /// The identifier `name` stands for.
    pub fn get_id(&self, name: &String) -> (r: Option<LocalID<T>>)
        requires
            named_wf(*self),
        ensures
            r == named_get_id(*self, name@),
        decreases *self,
    {
        match self {
            LocalEnv::Base(env) => match env.get_id(name) {
                Some(id) => Some(LocalID::Global(*id, PhantomData)),
                None => None,
            },
            LocalEnv::Scope(env, m, v) => match m.get(name) {
                Some(id) => Some(LocalID::Local(*id, PhantomData)),
                None => match env.get_id(name) {
                    Some(LocalID::Global(id, _)) => Some(LocalID::Global(id, PhantomData)),
                    Some(LocalID::Local(id, _)) => {
                        proof {
                            lemma_get_id_local(**env, name@);
                        }
                        Some(LocalID::Local(id + v.len(), PhantomData))
                    },
                    None => None,
                },
            },
        }
    }

    /// The element `id` names, if any.
    pub fn get(&self, id: LocalID<T>) -> (r: Option<&T>)
        requires
            id matches LocalID::Local(i, _) ==> i < named_items(*self).len(),
        ensures
            match r {
                Some(e) => named_get(*self, id) == Some(*e),
                None => named_get(*self, id).is_none(),
            },
        decreases *self,
    {
        match (self, id) {
            (LocalEnv::Base(env), LocalID::Global(id, _)) => env.get(id),
            (LocalEnv::Base(_), LocalID::Local(_, _)) => vstd::pervasive::unreached(),
            (LocalEnv::Scope(env, _, _), LocalID::Global(id, _)) => env.get(LocalID::Global(id, PhantomData)),
            (LocalEnv::Scope(env, _, v), LocalID::Local(id, _)) => {
                if v.len() > id {
                    assert(named_items(*self)[id as int] == v@[id as int]);
                    Some(&v[id])
                } else {
                    assert(named_items(*self)[id as int] == named_items(**env)[id - v@.len()]);
                    env.get(LocalID::new(id - v.len()))
                }
            },
        }
    }
}

/// A local identifier a name stands for lies among the local elements.
proof fn lemma_get_id_local<'a, T>(le: LocalEnv<'a, T>, name: Seq<char>)
    requires
        named_wf(le),
    ensures
        named_get_id(le, name) matches Some(LocalID::Local(i, _)) ==> i < named_items(le).len(),
    decreases le,
{
    if let LocalEnv::Scope(p, m, v) = le {
        lemma_get_id_local(*p, name);
        assert(entry_lookup(m@, name) matches Some(i) ==> i < v@.len());
    }
}

/// What a name stands for is the element bound to it: looking up the
/// identifier of a name gives the element of the name.
pub proof fn law_get_of_get_id<'a, T>(le: LocalEnv<'a, T>, name: Seq<char>)
    requires
        named_wf(le),
    ensures
        named_get_id(le, name) matches Some(id) ==> named_get(le, id) == named_value(le, name),
    decreases le,
{
    lemma_get_id_local(le, name);
    if let LocalEnv::Scope(p, m, v) = le {
        law_get_of_get_id(*p, name);
        lemma_get_id_local(*p, name);
        assert(entry_lookup(m@, name) matches Some(i) ==> i < v@.len());
        match named_get_id(*p, name) {
            Some(LocalID::Local(i, _)) => {
                if entry_lookup(m@, name).is_none() {
                    assert(named_items(le)[i + v@.len()] == named_items(*p)[i as int]);
                }
            },
            _ => {},
        }
    }
}

} // verus!
