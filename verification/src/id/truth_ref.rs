use vstd::prelude::*;
use crate::env::ID;
use crate::envs::TruthVal;
use super::{ Type, Exp };
use super::ty::TypeModel;
use super::exp::ExpModel;

verus! {

/// The way an equality is used to rewrite: left to right, or right to left.
#[derive(Debug, Clone, Copy, PartialEq, Eq, Structural)]
pub enum Direction {
    Forwards,
    Backwards,
}

/// What a reference to a truth names: a proved truth, the definition of a
/// variable, or the case of a match.
#[derive(Debug, Clone, Copy, PartialEq, Eq)]
pub enum RefType {
    Ref(ID<TruthVal>),
    Def,
    Match,
}

/// A reference to a truth, with the generic types and the argument it is
/// used with.
#[derive(Debug, Clone)]
pub struct TruthRef {
    id: RefType,
    gen: Vec<Type>,
    par: Option<Exp>,
}

impl TruthRef {
    /// What the reference names.
    pub closed spec fn id_view(&self) -> RefType {
        self.id
    }

    /// The generic types the truth is used with.
    pub closed spec fn gen_view(&self) -> Seq<TypeModel> {
        self.gen.deep_view()
    }

    /// The argument the truth is used with, if any.
    pub closed spec fn par_view(&self) -> Option<ExpModel> {
        self.par.deep_view()
    }

    /// A reference to the truth `id` used with the generic types `gen` and
    /// the argument `par`.
    pub fn new(id: RefType, gen: Vec<Type>, par: Option<Exp>) -> (r: Self)
        ensures
            r.id_view() == id,
            r.gen_view() == gen.deep_view(),
            r.par_view() == par.deep_view(),
    {
        TruthRef { id, gen, par }
    }
}

} // verus!
