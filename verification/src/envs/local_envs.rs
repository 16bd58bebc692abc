use vstd::prelude::*;
use crate::env::LocalEnv;
use crate::env::local_env::{ local_items, base_env };
use super::{ ExpVal, TypeVal, TruthVal };

verus! {

/// The elements of each kind, in local scopes over environments.
#[derive(Debug)]
pub struct LocalEnvs<'a> {
    pub ty: LocalEnv<'a, TypeVal>,
    pub exp: LocalEnv<'a, ExpVal>,
    pub truth: LocalEnv<'a, TruthVal>,
}

/// `inner` is a local scope inside `outer` holding the elements `v`.
pub open spec fn local_env_scope_of<'a, 'b, T>(outer: LocalEnv<'a, T>, inner: LocalEnv<'b, T>, v: Seq<T>) -> bool {
    &&& local_items(inner) == v + local_items(outer)
    &&& base_env(inner) == base_env(outer)
}

impl<'a> LocalEnvs<'a> {
    /// A scope holding the types `v`, and empty scopes for the other kinds.
    pub fn scope_ty<'b>(&'b self, v: Vec<TypeVal>) -> (r: LocalEnvs<'b>)
        where 'a: 'b
        ensures
            local_env_scope_of(self.ty, r.ty, v@),
            local_env_scope_of(self.exp, r.exp, Seq::empty()),
            local_env_scope_of(self.truth, r.truth, Seq::empty()),
    {
        let r = LocalEnvs {
            ty: self.ty.scope(v),
            exp: self.exp.scope(Vec::new()),
            truth: self.truth.scope(Vec::new()),
        };
        assert(local_items(r.exp) =~= Seq::<ExpVal>::empty() + local_items(self.exp));
        assert(local_items(r.truth) =~= Seq::<TruthVal>::empty() + local_items(self.truth));
        r
    }

    /// A scope holding the expression variables `v`, and empty scopes for
    /// the other kinds.
    pub fn scope_exp<'b>(&'b self, v: Vec<ExpVal>) -> (r: LocalEnvs<'b>)
        where 'a: 'b
        ensures
            local_env_scope_of(self.ty, r.ty, Seq::empty()),
            local_env_scope_of(self.exp, r.exp, v@),
            local_env_scope_of(self.truth, r.truth, Seq::empty()),
    {
        let r = LocalEnvs {
            ty: self.ty.scope(Vec::new()),
            exp: self.exp.scope(v),
            truth: self.truth.scope(Vec::new()),
        };
        assert(local_items(r.ty) =~= Seq::<TypeVal>::empty() + local_items(self.ty));
        assert(local_items(r.truth) =~= Seq::<TruthVal>::empty() + local_items(self.truth));
        r
    }

    /// A scope holding the truths `v`, and empty scopes for the other kinds.
    pub fn scope_truth<'b>(&'b self, v: Vec<TruthVal>) -> (r: LocalEnvs<'b>)
        where 'a: 'b
        ensures
            local_env_scope_of(self.ty, r.ty, Seq::empty()),
            local_env_scope_of(self.exp, r.exp, Seq::empty()),
            local_env_scope_of(self.truth, r.truth, v@),
    {
        let r = LocalEnvs {
            ty: self.ty.scope(Vec::new()),
            exp: self.exp.scope(Vec::new()),
            truth: self.truth.scope(v),
        };
        assert(local_items(r.ty) =~= Seq::<TypeVal>::empty() + local_items(self.ty));
        assert(local_items(r.exp) =~= Seq::<ExpVal>::empty() + local_items(self.exp));
        r
    }
}

} // verus!
