use vstd::prelude::*;
use crate::env::{ LocalID, LocalNamespace, Path };
use crate::env::local_namespace::{ local_get, local_get_ok, index_entries };
use crate::env::namespace::names;
use crate::ast::ErrAst;
use super::{ TypeVal, ExpVal, TruthVal };

verus! {

/// The local names of types, expression variables and truths, in scopes
/// nested in namespaces.
#[derive(Debug)]
pub struct LocalNamespaces<'a> {
    pub types: LocalNamespace<'a, TypeVal>,
    pub exps: LocalNamespace<'a, ExpVal>,
    pub truths: LocalNamespace<'a, TruthVal>,
}

/// `inner` is a scope inside `outer` binding the names of `v`, each to its
/// index (of equal names the last counts).
pub open spec fn local_scope_of<'a, 'b, T: ?Sized>(outer: LocalNamespace<'a, T>, inner: LocalNamespace<'b, T>, v: Seq<Seq<char>>) -> bool {
    inner matches LocalNamespace::Scope(s, m) && *s == outer && m@ == index_entries(v)
}

impl<'a> LocalNamespaces<'a> {
    /// The type `p` names; `UndefinedPath` where the unresolved part stops
    /// short of `p`, else `UnknownType`.
    pub fn get_type(&self, p: &Path<String>) -> (r: Result<LocalID<TypeVal>, ErrAst<String>>)
        requires
            p@.len() > 0,
            local_get_ok(self.types, p.deep_view()),
        ensures
            match (r, local_get(self.types, p.deep_view())) {
                (Ok(id), Ok(m)) => id == m,
                (Err(ErrAst::UndefinedPath(x)), Err(m)) => x.deep_view() == m && m.len() < p.deep_view().len(),
                (Err(ErrAst::UnknownType(x)), Err(m)) => x.deep_view() == m && m.len() >= p.deep_view().len(),
                _ => false,
            },
    {
        match self.types.get(p) {
            Ok(id) => Ok(id),
            Err(e) => if e.len() < p.len() {
                Err(ErrAst::UndefinedPath(e))
            } else {
                Err(ErrAst::UnknownType(e))
            },
        }
    }

    /// The expression variable `p` names; `UndefinedPath` as for
    /// `get_type`, else `UnknownVar`.
    pub fn get_exp(&self, p: &Path<String>) -> (r: Result<LocalID<ExpVal>, ErrAst<String>>)
        requires
            p@.len() > 0,
            local_get_ok(self.exps, p.deep_view()),
        ensures
            match (r, local_get(self.exps, p.deep_view())) {
                (Ok(id), Ok(m)) => id == m,
                (Err(ErrAst::UndefinedPath(x)), Err(m)) => x.deep_view() == m && m.len() < p.deep_view().len(),
                (Err(ErrAst::UnknownVar(x)), Err(m)) => x.deep_view() == m && m.len() >= p.deep_view().len(),
                _ => false,
            },
    {
        match self.exps.get(p) {
            Ok(id) => Ok(id),
            Err(e) => if e.len() < p.len() {
                Err(ErrAst::UndefinedPath(e))
            } else {
                Err(ErrAst::UnknownVar(e))
            },
        }
    }

    /// The truth `p` names; `UndefinedPath` as for `get_type`, else
    /// `UnknownTruth`.
    pub fn get_truth(&self, p: &Path<String>) -> (r: Result<LocalID<TruthVal>, ErrAst<String>>)
        requires
            p@.len() > 0,
            local_get_ok(self.truths, p.deep_view()),
        ensures
            match (r, local_get(self.truths, p.deep_view())) {
                (Ok(id), Ok(m)) => id == m,
                (Err(ErrAst::UndefinedPath(x)), Err(m)) => x.deep_view() == m && m.len() < p.deep_view().len(),
                (Err(ErrAst::UnknownTruth(x)), Err(m)) => x.deep_view() == m && m.len() >= p.deep_view().len(),
                _ => false,
            },
    {
        match self.truths.get(p) {
            Ok(id) => Ok(id),
            Err(e) => if e.len() < p.len() {
                Err(ErrAst::UndefinedPath(e))
            } else {
                Err(ErrAst::UnknownTruth(e))
            },
        }
    }

    /// A scope binding the type names `v`, and empty scopes for the other
    /// kinds.
    pub fn scope_type<'b>(&'b self, v: Vec<String>) -> (r: LocalNamespaces<'b>)
        where 'a: 'b
        ensures
            local_scope_of(self.types, r.types, names(v@)),
            local_scope_of(self.exps, r.exps, Seq::<Seq<char>>::empty()),
            local_scope_of(self.truths, r.truths, Seq::<Seq<char>>::empty()),
    {
        LocalNamespaces {
            exps: self.exps.scope_empty(),
            types: self.types.scope(v),
            truths: self.truths.scope_empty(),
        }
    }

    /// A scope binding the expression variable names `v`, and empty scopes
    /// for the other kinds.
    pub fn scope_exp<'b>(&'b self, v: Vec<String>) -> (r: LocalNamespaces<'b>)
        where 'a: 'b
        ensures
            local_scope_of(self.types, r.types, Seq::<Seq<char>>::empty()),
            local_scope_of(self.exps, r.exps, names(v@)),
            local_scope_of(self.truths, r.truths, Seq::<Seq<char>>::empty()),
    {
        LocalNamespaces {
            exps: self.exps.scope(v),
            types: self.types.scope_empty(),
            truths: self.truths.scope_empty(),
        }
    }

    /// A scope binding the truth names `v`, and empty scopes for the other
    /// kinds.
    pub fn scope_truth<'b>(&'b self, v: Vec<String>) -> (r: LocalNamespaces<'b>)
        where 'a: 'b
        ensures
            local_scope_of(self.types, r.types, Seq::<Seq<char>>::empty()),
            local_scope_of(self.exps, r.exps, Seq::<Seq<char>>::empty()),
            local_scope_of(self.truths, r.truths, names(v@)),
    {
        LocalNamespaces {
            exps: self.exps.scope_empty(),
            types: self.types.scope_empty(),
            truths: self.truths.scope(v),
        }
    }
}

} // verus!
