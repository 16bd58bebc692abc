use vstd::prelude::*;
use crate::variance::Variance;
use crate::id::{ Type, Exp };
use crate::id::ty::TypeModel;
use crate::id::exp::ExpModel;
use super::{ ID, Env, LocalEnv };
use super::local_env::{ named_items, pair_entries };

verus! {

/// What is known of a named expression variable: its value if it has one,
/// and its type.
#[derive(Debug)]
pub struct ExpVal {
    val: Option<Exp>,
    ty: Type,
}

/// What is known of a named type: the variance of each of its generic
/// parameters, and its constructors without and with an argument.
#[derive(Debug)]
pub struct TypeVal {
    gen: Vec<Variance>,
    atoms: Vec<ID<ExpVal>>,
    comps: Vec<ID<ExpVal>>,
}

impl ExpVal {
    pub closed spec fn val_view(&self) -> Option<ExpModel> {
        self.val.deep_view()
    }

    pub closed spec fn ty_view(&self) -> TypeModel {
        self.ty.deep_view()
    }

    /// A variable of type `ty` with no value.
    pub fn new_empty(ty: Type) -> (r: Self)
        ensures
            r.val_view() == None::<ExpModel>,
            r.ty_view() == ty.deep_view(),
    {
        ExpVal { val: None, ty }
    }

    /// A variable of type `ty` with the value `e`.
    pub fn new(e: Exp, ty: Type) -> (r: Self)
        ensures
            r.val_view() == Some(e.deep_view()),
            r.ty_view() == ty.deep_view(),
    {
        ExpVal { val: Some(e), ty }
    }

    /// A copy of the value, if there is one.
    pub fn val(&self) -> (r: Option<Exp>)
        ensures
            r.deep_view() == self.val_view(),
    {
        match &self.val {
            Some(e) => Some(e.clone()),
            None => None,
        }
    }

    /// A copy of the type.
    pub fn ty(&self) -> (r: Type)
        ensures
            r.deep_view() == self.ty_view(),
    {
        self.ty.clone()
    }
}

/// Whether `v` holds `id`.
fn holds(v: &Vec<ID<ExpVal>>, id: &ID<ExpVal>) -> (r: bool)
    ensures
        r == v@.contains(*id),
{
    let mut i: usize = 0;
    while i < v.len()
        invariant
            i <= v@.len(),
            forall|j: int| 0 <= j < i ==> v@[j] != *id,
        decreases v@.len() - i,
    {
        if v[i] == *id {
            assert(v@[i as int] == *id);
            return true;
        }
        i = i + 1;
    }
    false
}

impl TypeVal {
    pub closed spec fn gen_view(&self) -> Seq<Variance> {
        self.gen@
    }

    pub closed spec fn atoms_view(&self) -> Seq<ID<ExpVal>> {
        self.atoms@
    }

    pub closed spec fn comps_view(&self) -> Seq<ID<ExpVal>> {
        self.comps@
    }

    /// A type with the given generic parameters and no constructor yet.
    pub fn new(gen: Vec<Variance>) -> (r: Self)
        ensures
            r.gen_view() == gen@,
            r.atoms_view() == Seq::<ID<ExpVal>>::empty(),
            r.comps_view() == Seq::<ID<ExpVal>>::empty(),
    {
        TypeVal { gen, atoms: Vec::new(), comps: Vec::new() }
    }

    pub fn gen(&self) -> (r: &Vec<Variance>)
        ensures
            r@ == self.gen_view(),
    {
        &self.gen
    }

    pub fn push_atom(&mut self, id: ID<ExpVal>)
        ensures
            final(self).atoms_view() == old(self).atoms_view().push(id),
            final(self).comps_view() == old(self).comps_view(),
            final(self).gen_view() == old(self).gen_view(),
    {
        self.atoms.push(id);
    }

    pub fn push_comp(&mut self, id: ID<ExpVal>)
        ensures
            final(self).comps_view() == old(self).comps_view().push(id),
            final(self).atoms_view() == old(self).atoms_view(),
            final(self).gen_view() == old(self).gen_view(),
    {
        self.comps.push(id);
    }

    pub fn contains_atom(&self, id: &ID<ExpVal>) -> (r: bool)
        ensures
            r == self.atoms_view().contains(*id),
    {
        holds(&self.atoms, id)
    }

    pub fn contains_comp(&self, id: &ID<ExpVal>) -> (r: bool)
        ensures
            r == self.comps_view().contains(*id),
    {
        holds(&self.comps, id)
    }
}

/// Named expression variables and types.
#[derive(Debug)]
pub struct Envs<'a> {
    pub exp: Env<'a, ExpVal>,
    pub ty: Env<'a, TypeVal>,
}

/// Named expression variables and types, in local scopes.
#[derive(Debug)]
pub struct LocalEnvs<'a> {
    pub exp: LocalEnv<'a, ExpVal>,
    pub ty: LocalEnv<'a, TypeVal>,
}

/// `inner` is a scope inside `outer` binding the elements of `v` to their
/// names.
pub open spec fn named_scope_of<'a, 'b, T>(outer: LocalEnv<'a, T>, inner: LocalEnv<'b, T>, v: Seq<(String, T)>) -> bool {
    inner matches LocalEnv::Scope(p, m, e) && *p == outer && m@ == pair_entries(v) && e@ == v.map_values(|x: (String, T)| x.1)
}

/// `inner` is a scope inside `outer` holding the elements of `v`, bound to
/// no name.
pub open spec fn anon_scope_of<'a, 'b, T>(outer: LocalEnv<'a, T>, inner: LocalEnv<'b, T>, v: Seq<T>) -> bool {
    inner matches LocalEnv::Scope(p, m, e) && *p == outer && m@ == Seq::<(Seq<char>, usize)>::empty() && e@ == v
}

impl<'a> Envs<'a> {
    /// Environments over the elements of `exps` and `tys`, with no name
    /// yet.
    pub fn new(exps: &'a mut Vec<ExpVal>, tys: &'a mut Vec<TypeVal>) -> (r: Self)
        ensures
            r.exp.names() == Seq::<(Seq<char>, usize)>::empty(),
            r.exp.elements() == old(exps)@,
            r.ty.names() == Seq::<(Seq<char>, usize)>::empty(),
            r.ty.elements() == old(tys)@,
    {
        Envs {
            exp: Env::new(exps),
            ty: Env::new(tys),
        }
    }

    /// The local scopes over these environments, with none yet.
    pub fn local<'b>(&'b self) -> (r: LocalEnvs<'b>)
        where 'a: 'b
        ensures
            r.exp == LocalEnv::Base(&self.exp),
            r.ty == LocalEnv::Base(&self.ty),
    {
        LocalEnvs {
            exp: self.exp.local(),
            ty: self.ty.local(),
        }
    }
}

impl<'a> LocalEnvs<'a> {
    /// A scope binding the expression variables of `v` to their names.
    pub fn scope<'b>(&'b self, v: Vec<(String, ExpVal)>) -> (r: LocalEnvs<'b>)
        where 'a: 'b
        requires
            v@.len() + named_items(self.exp).len() <= usize::MAX,
            named_items(self.ty).len() <= usize::MAX,
        ensures
            named_scope_of(self.exp, r.exp, v@),
            named_scope_of(self.ty, r.ty, Seq::empty()),
    {
        LocalEnvs {
            exp: self.exp.scope(v),
            ty: self.ty.scope(Vec::new()),
        }
    }

    /// A scope binding the types of `v` to their names.
    pub fn scope_ty<'b>(&'b self, v: Vec<(String, TypeVal)>) -> (r: LocalEnvs<'b>)
        where 'a: 'b
        requires
            named_items(self.exp).len() <= usize::MAX,
            v@.len() + named_items(self.ty).len() <= usize::MAX,
        ensures
            named_scope_of(self.exp, r.exp, Seq::empty()),
            named_scope_of(self.ty, r.ty, v@),
    {
        LocalEnvs {
            exp: self.exp.scope(Vec::new()),
            ty: self.ty.scope(v),
        }
    }

    /// A scope holding the expression variables of `v`, bound to no name.
    pub fn scope_anon<'b>(&'b self, v: Vec<ExpVal>) -> (r: LocalEnvs<'b>)
        where 'a: 'b
        requires
            v@.len() + named_items(self.exp).len() <= usize::MAX,
            named_items(self.ty).len() <= usize::MAX,
        ensures
            anon_scope_of(self.exp, r.exp, v@),
            anon_scope_of(self.ty, r.ty, Seq::empty()),
    {
        LocalEnvs {
            exp: self.exp.scope_anon(v),
            ty: self.ty.scope_anon(Vec::new()),
        }
    }

    /// A scope holding the types of `v`, bound to no name.
    pub fn scope_ty_anon<'b>(&'b self, v: Vec<TypeVal>) -> (r: LocalEnvs<'b>)
        where 'a: 'b
        requires
            named_items(self.exp).len() <= usize::MAX,
            v@.len() + named_items(self.ty).len() <= usize::MAX,
        ensures
            anon_scope_of(self.exp, r.exp, Seq::empty()),
            anon_scope_of(self.ty, r.ty, v@),
    {
        LocalEnvs {
            exp: self.exp.scope_anon(Vec::new()),
            ty: self.ty.scope_anon(v),
        }
    }
}

} // verus!
