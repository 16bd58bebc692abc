use vstd::prelude::*;
use crate::env::ID;
use crate::env::id::{ id_push, id_up };
use crate::variance::Variance;
use super::ExpVal;

verus! {

/// What is known of a type: the variance of each of its generic
/// parameters, and the constructors of its values (those without argument,
/// atoms, and those with one, compounds).
#[derive(Debug, Clone, PartialEq, Eq)]
pub struct TypeVal {
    gen: Vec<Variance>,
    atoms: Vec<ID<ExpVal>>,
    comps: Vec<ID<ExpVal>>,
}

/// Whether the constructor `id`, as seen from where the type `ty_id` is
/// looked up, is one of `ctors` (recorded as seen from the type's own
/// scope).
pub open spec fn ctor_listed(ctors: Seq<ID<ExpVal>>, ty_id: ID<TypeVal>, id: ID<ExpVal>) -> bool {
    match (ty_id, id) {
        (ID::Predef(_, _), id) => ctors.contains(id),
        (ID::Normal(_, ty_up, _), ID::Normal(i, up, p)) => ty_up <= up && ctors.contains(ID::Normal(i, (up - ty_up) as usize, p)),
        _ => false,
    }
}

/// Whether `v` holds `id`.
fn holds(v: &Vec<ID<ExpVal>>, id: ID<ExpVal>) -> (r: bool)
    ensures
        r == v@.contains(id),
{
    let mut i: usize = 0;
    while i < v.len()
        invariant
            i <= v@.len(),
            forall|j: int| 0 <= j < i ==> v@[j] != id,
        decreases v@.len() - i,
    {
        if v[i] == id {
            assert(v@[i as int] == id);
            return true;
        }
        i = i + 1;
    }
    false
}

/// Whether the constructor `id` is one of `ctors`, seen from where `ty_id`
/// is looked up.
fn ctor_in(ctors: &Vec<ID<ExpVal>>, ty_id: ID<TypeVal>, id: &ID<ExpVal>) -> (r: bool)
    ensures
        r == ctor_listed(ctors@, ty_id, *id),
{
    match (ty_id, id) {
        (ID::Predef(_, _), id) => holds(ctors, *id),
        (ID::Normal(_, ty_up, _), ID::Normal(i, up, _)) => {
            if ty_up <= *up {
                holds(ctors, ID::Normal(*i, *up - ty_up, core::marker::PhantomData))
            } else {
                false
            }
        },
        _ => false,
    }
}

impl TypeVal {
    /// The variances of the generic parameters.
    pub closed spec fn gen_view(&self) -> Seq<Variance> {
        self.gen@
    }

    /// The atoms of the type, in the order they were added.
    pub closed spec fn atoms_view(&self) -> Seq<ID<ExpVal>> {
        self.atoms@
    }

    /// The compound constructors of the type, in the order they were added.
    pub closed spec fn comps_view(&self) -> Seq<ID<ExpVal>> {
        self.comps@
    }

    /// A type with the given generic parameters and no constructor yet.
    pub fn new(gen: Vec<Variance>) -> (r: Self)
        ensures
            r.gen_view() == gen@,
            r.atoms_view() == Seq::<ID<ExpVal>>::empty(),
            r.comps_view() == Seq::<ID<ExpVal>>::empty(),
    {
        TypeVal { gen, atoms: Vec::new(), comps: Vec::new() }
    }

    /// The variances of the generic parameters.
    pub fn gen(&self) -> (r: &Vec<Variance>)
        ensures
            r@ == self.gen_view(),
    {
        &self.gen
    }

    /// Records an atom of the type.
    pub fn push_atom(&mut self, id: ID<ExpVal>)
        ensures
            final(self).atoms_view() == old(self).atoms_view().push(id),
            final(self).comps_view() == old(self).comps_view(),
            final(self).gen_view() == old(self).gen_view(),
    {
        self.atoms.push(id);
    }

    /// Records a compound constructor of the type.
    pub fn push_comp(&mut self, id: ID<ExpVal>)
        ensures
            final(self).comps_view() == old(self).comps_view().push(id),
            final(self).atoms_view() == old(self).atoms_view(),
            final(self).gen_view() == old(self).gen_view(),
    {
        self.comps.push(id);
    }

    /// Whether `id` is an atom of this type, which is the one `ty_id` names.
    pub fn contains_atom(&self, ty_id: ID<Self>, id: &ID<ExpVal>) -> (r: bool)
        ensures
            r == ctor_listed(self.atoms_view(), ty_id, *id),
    {
        ctor_in(&self.atoms, ty_id, id)
    }

    /// Whether `id` is a compound constructor of this type, which is the
    /// one `ty_id` names.
    pub fn contains_comp(&self, ty_id: ID<Self>, id: &ID<ExpVal>) -> (r: bool)
        ensures
            r == ctor_listed(self.comps_view(), ty_id, *id),
    {
        ctor_in(&self.comps, ty_id, id)
    }
}

/// A constructor just recorded for a type is found when the type is looked
/// up from `ty_up` scopes below it, the constructor being seen from there
/// too (a predefined type's constructors are seen unmoved). Constructors
/// of a type that is not predefined are themselves not predefined.
pub proof fn law_ctor_listed_after_push(ctors: Seq<ID<ExpVal>>, ty_id: ID<TypeVal>, c: ID<ExpVal>)
    requires
        ty_id is Predef || (c is Normal && id_up(c) + id_up(ty_id) <= usize::MAX),
    ensures
        ctor_listed(ctors.push(c), ty_id, if ty_id is Predef { c } else { id_push(c, 0, id_up(ty_id) as int) }),
{
    assert(ctors.push(c)[ctors.len() as int] == c);
}

} // verus!
