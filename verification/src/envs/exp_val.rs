use vstd::prelude::*;
use crate::id::{ Type, Exp, SetLocal };
use crate::id::ty::{ TypeModel, type_set, type_set_ok };
use crate::id::exp::ExpModel;

verus! {

/// What is known of an expression variable: its value if it has one, its
/// number of generic parameters, and its type.
#[derive(Debug, Clone, PartialEq, Eq)]
pub struct ExpVal {
    val: Option<Exp>,
    gen: usize,
    ty: Type,
}

impl ExpVal {
    /// The value of the variable, if it has one.
    pub closed spec fn val_view(&self) -> Option<ExpModel> {
        self.val.deep_view()
    }

    /// The number of generic parameters of the variable.
    pub closed spec fn gen_view(&self) -> usize {
        self.gen
    }

    /// The type of the variable, over its generic parameters.
    pub closed spec fn ty_view(&self) -> TypeModel {
        self.ty.deep_view()
    }

    /// A variable of type `ty` with `gen` generic parameters and no value.
    pub fn new_empty(ty: Type, gen: usize) -> (r: Self)
        ensures
            r.val_view() == None::<ExpModel>,
            r.gen_view() == gen,
            r.ty_view() == ty.deep_view(),
    {
        ExpVal { val: None, ty, gen }
    }

    /// A variable of type `ty` with `gen` generic parameters and the value
    /// `e`.
    pub fn new(e: Exp, ty: Type, gen: usize) -> (r: Self)
        ensures
            r.val_view() == Some(e.deep_view()),
            r.gen_view() == gen,
            r.ty_view() == ty.deep_view(),
    {
        ExpVal { val: Some(e), ty, gen }
    }

    /// Gives the variable its value; a variable is given a value once.
    pub fn set_val(&mut self, e: Exp)
        requires
            old(self).val_view() is None,
        ensures
            final(self).val_view() == Some(e.deep_view()),
            final(self).gen_view() == old(self).gen_view(),
            final(self).ty_view() == old(self).ty_view(),
    {
        self.val = Some(e);
    }

    /// The type of the variable with the generic parameters `gen` filled in.
    pub fn ty(&self, gen: &[Type]) -> (r: Type)
        requires
            type_set_ok(self.ty_view(), 0, gen.deep_view()),
        ensures
            r.deep_view() == type_set(self.ty_view(), 0, gen.deep_view()),
    {
        self.ty.set(gen)
    }
}

} // verus!
