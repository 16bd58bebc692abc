use vstd::prelude::*;
use crate::env::EnvData;
use super::{ ExpVal, TypeVal, TruthVal };

verus! {

/// The elements of each kind: predefined ones and those defined so far.
pub struct EnvsData {
    pub exps: EnvData<ExpVal>,
    pub types: EnvData<TypeVal>,
    pub truths: EnvData<TruthVal>,
}

impl EnvsData {
    /// Over the predefined elements `exps`, `types` and `truths`, with none
    /// defined yet.
    pub fn new(exps: Vec<ExpVal>, types: Vec<TypeVal>, truths: Vec<TruthVal>) -> (r: Self)
        ensures
            r.exps.predef_view() == exps@ && r.exps.normal_view() == Seq::<ExpVal>::empty(),
            r.types.predef_view() == types@ && r.types.normal_view() == Seq::<TypeVal>::empty(),
            r.truths.predef_view() == truths@ && r.truths.normal_view() == Seq::<TruthVal>::empty(),
    {
        EnvsData {
            exps: EnvData::new(exps),
            types: EnvData::new(types),
            truths: EnvData::new(truths),
        }
    }

    /// The number of elements of each kind defined so far.
    pub fn lens(&self) -> (r: (usize, usize, usize))
        ensures
            r == (self.exps.normal_view().len() as usize, self.types.normal_view().len() as usize, self.truths.normal_view().len() as usize),
    {
        (self.exps.len(), self.types.len(), self.truths.len())
    }
}

} // verus!
