use vstd::prelude::*;
use crate::env::Env;
use super::{ ExpVal, TypeVal, TruthVal };

verus! {

/// The predefined types, expression variables and truths.
#[derive(Debug)]
pub struct EnvData {
    pub types: Vec<TypeVal>,
    pub exps: Vec<ExpVal>,
    pub truths: Vec<TruthVal>,
}

/// The elements of each kind, in nested scopes over the predefined ones.
#[derive(Debug)]
pub struct Envs<'a> {
    pub ty: Env<'a, TypeVal>,
    pub exp: Env<'a, ExpVal>,
    pub truth: Env<'a, TruthVal>,
}

/// `inner` is a scope inside `outer` holding the elements `v`.
pub open spec fn env_scope_of<'a, 'b, T>(outer: Env<'a, T>, inner: Env<'b, T>, v: Seq<T>) -> bool {
    &&& inner.predef_view() == outer.predef_view()
    &&& inner.frames() == seq![v] + outer.frames()
    &&& !inner.is_root()
}

impl<'a> Envs<'a> {
    /// The outermost environments, over the predefined elements of `data`.
    pub fn new(data: EnvData) -> (r: Self)
        ensures
            r.ty.predef_view() == data.types@ && r.ty.frames() == seq![Seq::<TypeVal>::empty()] && r.ty.is_root(),
            r.exp.predef_view() == data.exps@ && r.exp.frames() == seq![Seq::<ExpVal>::empty()] && r.exp.is_root(),
            r.truth.predef_view() == data.truths@ && r.truth.frames() == seq![Seq::<TruthVal>::empty()] && r.truth.is_root(),
    {
        let EnvData { types, exps, truths } = data;
        Envs {
            exp: Env::new(exps),
            ty: Env::new(types),
            truth: Env::new(truths),
        }
    }

    /// Empty scopes inside each environment.
    pub fn scope_empty<'b>(&'b self) -> (r: Envs<'b>)
        where 'a: 'b
        ensures
            env_scope_of(self.ty, r.ty, Seq::empty()),
            env_scope_of(self.exp, r.exp, Seq::empty()),
            env_scope_of(self.truth, r.truth, Seq::empty()),
    {
        Envs {
            ty: self.ty.scope(Vec::new()),
            exp: self.exp.scope(Vec::new()),
            truth: self.truth.scope(Vec::new()),
        }
    }

    /// A scope holding the types `v`, and empty scopes for the other kinds.
    pub fn scope_ty<'b>(&'b self, v: Vec<TypeVal>) -> (r: Envs<'b>)
        where 'a: 'b
        ensures
            env_scope_of(self.ty, r.ty, v@),
            env_scope_of(self.exp, r.exp, Seq::empty()),
            env_scope_of(self.truth, r.truth, Seq::empty()),
    {
        Envs {
            ty: self.ty.scope(v),
            exp: self.exp.scope(Vec::new()),
            truth: self.truth.scope(Vec::new()),
        }
    }

    /// A scope holding the expression variables `v`, and empty scopes for
    /// the other kinds.
    pub fn scope_exp<'b>(&'b self, v: Vec<ExpVal>) -> (r: Envs<'b>)
        where 'a: 'b
        ensures
            env_scope_of(self.ty, r.ty, Seq::empty()),
            env_scope_of(self.exp, r.exp, v@),
            env_scope_of(self.truth, r.truth, Seq::empty()),
    {
        Envs {
            ty: self.ty.scope(Vec::new()),
            exp: self.exp.scope(v),
            truth: self.truth.scope(Vec::new()),
        }
    }

    /// A scope holding the truths `v`, and empty scopes for the other kinds.
    pub fn scope_truth<'b>(&'b self, v: Vec<TruthVal>) -> (r: Envs<'b>)
        where 'a: 'b
        ensures
            env_scope_of(self.ty, r.ty, Seq::empty()),
            env_scope_of(self.exp, r.exp, Seq::empty()),
            env_scope_of(self.truth, r.truth, v@),
    {
        Envs {
            ty: self.ty.scope(Vec::new()),
            exp: self.exp.scope(Vec::new()),
            truth: self.truth.scope(v),
        }
    }

    /// Gives back the predefined elements, with the changes made to them,
    /// from the outermost environments, which own them; scopes inside
    /// others give `None`.
    pub fn into_data(self) -> (r: Option<EnvData>)
        ensures
            r is Some <==> (self.ty.is_root() && self.exp.is_root() && self.truth.is_root()),
            r matches Some(d) ==> d.types@ == self.ty.predef_view() && d.exps@ == self.exp.predef_view()
                && d.truths@ == self.truth.predef_view(),
    {
        let Envs { ty, exp, truth } = self;
        match (ty.into_predef(), exp.into_predef(), truth.into_predef()) {
            (Some(types), Some(exps), Some(truths)) => Some(EnvData { types, exps, truths }),
            _ => None,
        }
    }

    /// The number of elements of the innermost scope of each kind.
    pub fn lens(&self) -> (r: (usize, usize, usize))
        ensures
            r == (self.ty.frames()[0].len() as usize, self.exp.frames()[0].len() as usize, self.truth.frames()[0].len() as usize),
    {
        (self.ty.len(), self.exp.len(), self.truth.len())
    }
}

} // verus!
