use vstd::prelude::*;
use crate::id::Exp;
use crate::id::exp::ExpModel;

verus! {

/// A proved truth: an expression with `gs` generic parameters.
#[derive(Debug, Clone, PartialEq, Eq)]
pub struct TruthVal {
    e: Exp,
    gs: usize,
}

impl TruthVal {
    /// The statement of the truth.
    pub closed spec fn exp_view(&self) -> ExpModel {
        self.e.deep_view()
    }

    /// The number of generic parameters of the truth.
    pub closed spec fn gen_view(&self) -> usize {
        self.gs
    }

    /// The truth `e` with `gs` generic parameters.
    pub fn new(e: Exp, gs: usize) -> (r: Self)
        ensures
            r.exp_view() == e.deep_view(),
            r.gen_view() == gs,
    {
        TruthVal { e, gs }
    }
}

} // verus!
