use vstd::prelude::*;
use crate::env::{ Namespace, Space, ID, Path };
use crate::env::namespace::{
    NsFrame, Entries, resolve, resolve_id, resolve_fits, super_overruns,
    opened_sub_space, closed_sub_space, aliased, scope_of, empty_scope_of,
};
use crate::env::space::entries_from;
use crate::ast::ErrAst;
use super::{ TypeVal, ExpVal, TruthVal };

verus! {

/// The full paths of the types, expression variables and truths added to
/// a chain of namespaces, by identifier.
#[derive(Debug)]
pub struct NameData {
    types: Vec<Path<String>>,
    exps: Vec<Path<String>>,
    truths: Vec<Path<String>>,
}

/// The models of a list of paths.
pub open spec fn paths_model(v: Seq<Path<String>>) -> Seq<Seq<Seq<char>>> {
    Seq::new(v.len(), |i: int| v[i].deep_view())
}

impl NameData {
    pub closed spec fn types_view(&self) -> Seq<Seq<Seq<char>>> {
        paths_model(self.types@)
    }

    pub closed spec fn exps_view(&self) -> Seq<Seq<Seq<char>>> {
        paths_model(self.exps@)
    }

    pub closed spec fn truths_view(&self) -> Seq<Seq<Seq<char>>> {
        paths_model(self.truths@)
    }

    /// No path recorded yet.
    pub fn new() -> (r: Self)
        ensures
            r.types_view() == Seq::<Seq<Seq<char>>>::empty(),
            r.exps_view() == Seq::<Seq<Seq<char>>>::empty(),
            r.truths_view() == Seq::<Seq<Seq<char>>>::empty(),
    {
        let r = NameData { types: Vec::new(), exps: Vec::new(), truths: Vec::new() };
        assert(r.types_view() =~= Seq::<Seq<Seq<char>>>::empty());
        assert(r.exps_view() =~= Seq::<Seq<Seq<char>>>::empty());
        assert(r.truths_view() =~= Seq::<Seq<Seq<char>>>::empty());
        r
    }
}

/// The names of types, expression variables and truths, each kind in a
/// namespace of its own.
#[derive(Debug)]
pub struct Namespaces<'a> {
    pub types: Namespace<'a, TypeVal>,
    pub exps: Namespace<'a, ExpVal>,
    pub truths: Namespace<'a, TruthVal>,
}

/// `ns` is a fresh namespace of the names `items`, recording `paths`.
pub open spec fn fresh_namespace<'a, T: ?Sized>(ns: Namespace<'a, T>, items: Seq<(Seq<char>, ID<T>)>, paths: Seq<Seq<Seq<char>>>) -> bool {
    &&& ns.frames() == seq![NsFrame { local: entries_from(items), supers: Seq::<Entries<T>>::empty() }]
    &&& ns.space_view() == entries_from(items)
    &&& ns.paths_view() == paths
    &&& ns.path_view() == Seq::<Seq<char>>::empty()
    &&& !ns.is_sub_space()
}

/// The names and identifiers of `v`, as models.
pub open spec fn items_model<T: ?Sized>(v: Seq<(String, ID<T>)>) -> Seq<(Seq<char>, ID<T>)> {
    v.map_values(|e: (String, ID<T>)| (e.0@, e.1))
}

/// The longest of three unresolved path parts; of equally long ones the
/// last.
pub open spec fn longest(a: Seq<Seq<char>>, b: Seq<Seq<char>>, c: Seq<Seq<char>>) -> Seq<Seq<char>> {
    if c.len() >= a.len() && c.len() >= b.len() {
        c
    } else if b.len() >= a.len() {
        b
    } else {
        a
    }
}

/// A path can be looked up in a namespace: it is not empty, and stays
/// within what the namespace and `usize` can hold.
pub open spec fn can_get<'a, T: ?Sized>(ns: Namespace<'a, T>, p: Seq<Seq<char>>) -> bool {
    &&& p.len() > 0
    &&& ns.frames().len() <= usize::MAX
    &&& !super_overruns(ns.frames()[0].supers, p)
    &&& resolve_fits(ns.frames(), p)
}

impl<'a> Namespaces<'a> {
    /// Namespaces of the predefined names `types`, `exps` and `truths`,
    /// recording the paths of new elements in `data`.
    pub fn new(data: NameData, types: Vec<(String, ID<TypeVal>)>, exps: Vec<(String, ID<ExpVal>)>, truths: Vec<(String, ID<TruthVal>)>) -> (r: Self)
        ensures
            fresh_namespace(r.types, items_model(types@), data.types_view()),
            fresh_namespace(r.exps, items_model(exps@), data.exps_view()),
            fresh_namespace(r.truths, items_model(truths@), data.truths_view()),
    {
        let NameData { types: tp, exps: ep, truths: pp } = data;
        Namespaces {
            types: Namespace::new(tp, Space::new(types)),
            exps: Namespace::new(ep, Space::new(exps)),
            truths: Namespace::new(pp, Space::new(truths)),
        }
    }

    /// Gives back the full paths of the elements added so far, of each
    /// kind, by identifier.
    pub fn into_data(self) -> (r: NameData)
        ensures
            r.types_view() == self.types.paths_view(),
            r.exps_view() == self.exps.paths_view(),
            r.truths_view() == self.truths.paths_view(),
    {
        let Namespaces { types, exps, truths } = self;
        let r = NameData { types: types.into_paths(), exps: exps.into_paths(), truths: truths.into_paths() };
        assert(r.types_view() =~= Seq::new(r.types@.len(), |i: int| r.types@[i].deep_view()));
        assert(r.exps_view() =~= Seq::new(r.exps@.len(), |i: int| r.exps@[i].deep_view()));
        assert(r.truths_view() =~= Seq::new(r.truths@.len(), |i: int| r.truths@[i].deep_view()));
        r
    }

    /// Opens the module `n` in each of the three namespaces.
    pub fn sub_space(&mut self, n: &String) -> (r: Namespaces<'a>)
        ensures
            opened_sub_space(old(self).types, final(self).types, r.types, n@),
            opened_sub_space(old(self).exps, final(self).exps, r.exps, n@),
            opened_sub_space(old(self).truths, final(self).truths, r.truths, n@),
    {
        let types = self.types.sub_space(n);
        let exps = self.exps.sub_space(n);
        let truths = self.truths.sub_space(n);
        Namespaces { types, exps, truths }
    }

    /// Closes the module `sub` opened by `sub_space` in each of the three
    /// namespaces.
    pub fn end_sub_space(&mut self, sub: Namespaces<'a>)
        requires
            sub.types.is_sub_space(),
            sub.exps.is_sub_space(),
            sub.truths.is_sub_space(),
        ensures
            closed_sub_space(old(self).types, final(self).types, sub.types),
            closed_sub_space(old(self).exps, final(self).exps, sub.exps),
            closed_sub_space(old(self).truths, final(self).truths, sub.truths),
    {
        let Namespaces { types, exps, truths } = sub;
        self.types.end_sub_space(types);
        self.exps.end_sub_space(exps);
        self.truths.end_sub_space(truths);
    }

    /// Makes `n` stand for what `p` names, in each namespace where `p`
    /// names something. Fails only where `p` names nothing in any of the
    /// three; the error is then the longest of the three unresolved parts
    /// (of equally long ones, that of the truths, else that of the
    /// expression variables).
    pub fn alias(&mut self, n: &String, p: &Path<String>) -> (r: Result<(), Path<String>>)
        requires
            can_get(old(self).types, p.deep_view()),
            can_get(old(self).exps, p.deep_view()),
            can_get(old(self).truths, p.deep_view()),
        ensures
            aliased(old(self).types, final(self).types, n@, p.deep_view(), match resolve(old(self).types.frames(), p.deep_view()) {
                Ok(_) => Ok::<(), Seq<Seq<char>>>(()),
                Err(e) => Err(e),
            }),
            aliased(old(self).exps, final(self).exps, n@, p.deep_view(), match resolve(old(self).exps.frames(), p.deep_view()) {
                Ok(_) => Ok::<(), Seq<Seq<char>>>(()),
                Err(e) => Err(e),
            }),
            aliased(old(self).truths, final(self).truths, n@, p.deep_view(), match resolve(old(self).truths.frames(), p.deep_view()) {
                Ok(_) => Ok::<(), Seq<Seq<char>>>(()),
                Err(e) => Err(e),
            }),
            match (resolve(old(self).types.frames(), p.deep_view()), resolve(old(self).exps.frames(), p.deep_view()), resolve(old(self).truths.frames(), p.deep_view())) {
                (Err(a), Err(b), Err(c)) => r matches Err(e) && e.deep_view() == longest(a, b, c),
                _ => r is Ok,
            },
    {
        let rt = self.types.alias(n, p);
        let re = self.exps.alias(n, p);
        let rp = self.truths.alias(n, p);
        match (rt, re, rp) {
            (Err(a), Err(b), Err(c)) => {
                if c.len() >= a.len() && c.len() >= b.len() {
                    Err(c)
                } else if b.len() >= a.len() {
                    Err(b)
                } else {
                    Err(a)
                }
            },
            _ => Ok(()),
        }
    }

    /// The type `p` names; `UndefinedPath` with the part that was resolved
    /// up to the failure where that part stops short of `p`, else
    /// `UnknownType`.
    pub fn get_type(&self, p: &Path<String>) -> (r: Result<ID<TypeVal>, ErrAst<String>>)
        requires
            can_get(self.types, p.deep_view()),
        ensures
            match (r, resolve_id(self.types.frames(), p.deep_view())) {
                (Ok(id), Ok(m)) => id == m,
                (Err(ErrAst::UndefinedPath(x)), Err(m)) => x.deep_view() == m && m.len() < p.deep_view().len(),
                (Err(ErrAst::UnknownType(x)), Err(m)) => x.deep_view() == m && m.len() >= p.deep_view().len(),
                _ => false,
            },
    {
        match self.types.get(p) {
            Ok(id) => Ok(id),
            Err(e) => if e.len() < p.len() {
                Err(ErrAst::UndefinedPath(e))
            } else {
                Err(ErrAst::UnknownType(e))
            },
        }
    }

    /// The expression variable `p` names; `UndefinedPath` as for
    /// `get_type`, else `UnknownVar`.
    pub fn get_exp(&self, p: &Path<String>) -> (r: Result<ID<ExpVal>, ErrAst<String>>)
        requires
            can_get(self.exps, p.deep_view()),
        ensures
            match (r, resolve_id(self.exps.frames(), p.deep_view())) {
                (Ok(id), Ok(m)) => id == m,
                (Err(ErrAst::UndefinedPath(x)), Err(m)) => x.deep_view() == m && m.len() < p.deep_view().len(),
                (Err(ErrAst::UnknownVar(x)), Err(m)) => x.deep_view() == m && m.len() >= p.deep_view().len(),
                _ => false,
            },
    {
        match self.exps.get(p) {
            Ok(id) => Ok(id),
            Err(e) => if e.len() < p.len() {
                Err(ErrAst::UndefinedPath(e))
            } else {
                Err(ErrAst::UnknownVar(e))
            },
        }
    }

    /// The truth `p` names; `UndefinedPath` as for `get_type`, else
    /// `UnknownTruth`.
    pub fn get_truth(&self, p: &Path<String>) -> (r: Result<ID<TruthVal>, ErrAst<String>>)
        requires
            can_get(self.truths, p.deep_view()),
        ensures
            match (r, resolve_id(self.truths.frames(), p.deep_view())) {
                (Ok(id), Ok(m)) => id == m,
                (Err(ErrAst::UndefinedPath(x)), Err(m)) => x.deep_view() == m && m.len() < p.deep_view().len(),
                (Err(ErrAst::UnknownTruth(x)), Err(m)) => x.deep_view() == m && m.len() >= p.deep_view().len(),
                _ => false,
            },
    {
        match self.truths.get(p) {
            Ok(id) => Ok(id),
            Err(e) => if e.len() < p.len() {
                Err(ErrAst::UndefinedPath(e))
            } else {
                Err(ErrAst::UnknownTruth(e))
            },
        }
    }

    /// Empty scopes inside each namespace, recording paths in `names`.
    pub fn scope_empty<'b>(&'b self, names: NameData) -> (r: Namespaces<'b>)
        where 'a: 'b
        ensures
            empty_scope_of(self.types, r.types, names.types_view()),
            empty_scope_of(self.exps, r.exps, names.exps_view()),
            empty_scope_of(self.truths, r.truths, names.truths_view()),
    {
        let NameData { types, exps, truths } = names;
        Namespaces {
            exps: self.exps.scope_empty(exps),
            types: self.types.scope_empty(types),
            truths: self.truths.scope_empty(truths),
        }
    }

    /// A scope binding the type names `v`, and empty scopes for the other
    /// kinds.
    pub fn scope_type<'b>(&'b self, names: NameData, v: Vec<String>) -> (r: Namespaces<'b>)
        where 'a: 'b
        ensures
            scope_of(self.types, r.types, crate::env::namespace::names(v@), names.types_view()),
            empty_scope_of(self.exps, r.exps, names.exps_view()),
            empty_scope_of(self.truths, r.truths, names.truths_view()),
    {
        let NameData { types, exps, truths } = names;
        Namespaces {
            exps: self.exps.scope_empty(exps),
            types: self.types.scope(types, v),
            truths: self.truths.scope_empty(truths),
        }
    }

    /// A scope binding the expression variable names `v`, and empty scopes
    /// for the other kinds.
    pub fn scope_exp<'b>(&'b self, names: NameData, v: Vec<String>) -> (r: Namespaces<'b>)
        where 'a: 'b
        ensures
            empty_scope_of(self.types, r.types, names.types_view()),
            scope_of(self.exps, r.exps, crate::env::namespace::names(v@), names.exps_view()),
            empty_scope_of(self.truths, r.truths, names.truths_view()),
    {
        let NameData { types, exps, truths } = names;
        Namespaces {
            exps: self.exps.scope(exps, v),
            types: self.types.scope_empty(types),
            truths: self.truths.scope_empty(truths),
        }
    }

    /// A scope binding the truth names `v`, and empty scopes for the other
    /// kinds.
    pub fn scope_truth<'b>(&'b self, names: NameData, v: Vec<String>) -> (r: Namespaces<'b>)
        where 'a: 'b
        ensures
            empty_scope_of(self.types, r.types, names.types_view()),
            empty_scope_of(self.exps, r.exps, names.exps_view()),
            scope_of(self.truths, r.truths, crate::env::namespace::names(v@), names.truths_view()),
    {
        let NameData { types, exps, truths } = names;
        Namespaces {
            exps: self.exps.scope_empty(exps),
            types: self.types.scope_empty(types),
            truths: self.truths.scope(truths, v),
        }
    }
}

} // verus!
