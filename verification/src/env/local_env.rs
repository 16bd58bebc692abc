use vstd::prelude::*;
use super::{ Env, LocalID };
use super::env::{ env_lookup, env_contains };
use super::local_id::local_push;

verus! {

/// The elements of kind `T` visible in local scopes nested in an
/// environment: the local ones are numbered from the innermost scope
/// outward.
#[derive(Debug)]
pub enum LocalEnv<'a, T> {
    Base(&'a Env<'a, T>),
    Scope(&'a LocalEnv<'a, T>, Vec<T>),
}

/// The local elements, innermost scope first.
pub open spec fn local_items<'a, T>(le: LocalEnv<'a, T>) -> Seq<T>
    decreases le,
{
    match le {
        LocalEnv::Base(_) => Seq::empty(),
        LocalEnv::Scope(p, v) => v@ + local_items(*p),
    }
}

/// The environment the local scopes are nested in.
pub open spec fn base_env<'a, T>(le: LocalEnv<'a, T>) -> Env<'a, T>
    decreases le,
{
    match le {
        LocalEnv::Base(env) => *env,
        LocalEnv::Scope(p, _) => base_env(*p),
    }
}

/// The identifier names an element of the local scopes or of the
/// environment beneath.
pub open spec fn local_contains<'a, T>(le: LocalEnv<'a, T>, id: LocalID<T>) -> bool {
    match id {
        LocalID::Global(g) => env_contains(base_env(le).predef_view(), base_env(le).frames(), g),
        LocalID::Local(i, _) => i < local_items(le).len(),
    }
}

/// The element the identifier names.
pub open spec fn local_lookup<'a, T>(le: LocalEnv<'a, T>, id: LocalID<T>) -> T {
    match id {
        LocalID::Global(g) => env_lookup(base_env(le).predef_view(), base_env(le).frames(), g),
        LocalID::Local(i, _) => local_items(le)[i as int],
    }
}

impl<'a, T> LocalEnv<'a, T> {
    pub fn new(env: &'a Env<'a, T>) -> (r: Self)
        ensures
            r == LocalEnv::Base(env),
    {
        LocalEnv::Base(env)
    }

    /// A local scope holding the elements `v`, numbered from 0.
    pub fn scope<'b>(&'b self, v: Vec<T>) -> (r: LocalEnv<'b, T>)
        where 'a: 'b
        ensures
            local_items(r) == v@ + local_items(*self),
            base_env(r) == base_env(*self),
    {
        LocalEnv::Scope(self, v)
    }

    /// The element `id` names.
    pub fn index(&self, id: LocalID<T>) -> (r: &T)
        requires
            local_contains(*self, id),
        ensures
            *r == local_lookup(*self, id),
        decreases *self,
    {
        match (self, id) {
            (LocalEnv::Base(env), LocalID::Global(id)) => env.index(id),
            (LocalEnv::Base(_), LocalID::Local(_, _)) => vstd::pervasive::unreached(),
            (LocalEnv::Scope(env, _), LocalID::Global(id)) => env.index(LocalID::Global(id)),
            (LocalEnv::Scope(env, v), LocalID::Local(i, _)) => {
                if v.len() > i {
                    assert(local_items(*self)[i as int] == v@[i as int]);
                    &v[i]
                } else {
                    assert(local_items(*self)[i as int] == local_items(**env)[i - v@.len()]);
                    env.index(LocalID::new(i - v.len()))
                }
            },
        }
    }
}

/// A local identifier moved under the bindings of a new scope names, inside
/// it, what it named outside it.
pub proof fn law_index_in_local_scope<'a, 'b, T>(outer: LocalEnv<'a, T>, inner: LocalEnv<'b, T>, v: Seq<T>, id: LocalID<T>)
    requires
        local_items(inner) == v + local_items(outer),
        base_env(inner) == base_env(outer),
        local_contains(outer, id),
        id matches LocalID::Local(i, _) ==> i + v.len() <= usize::MAX,
    ensures
        local_contains(inner, local_push(id, 0, v.len() as int)),
        local_lookup(inner, local_push(id, 0, v.len() as int)) == local_lookup(outer, id),
{
}

} // verus!
