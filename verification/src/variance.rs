use vstd::prelude::*;

verus! {

/// How a type depends on one of its generic parameters.
#[derive(Debug, Clone, Copy, PartialEq, Eq, Structural)]
pub enum Variance {
    Invariant,
    Covariant,
    Contravariant,
}

impl DeepView for Variance {
    type V = Variance;

    open spec fn deep_view(&self) -> Variance {
        *self
    }
}

} // verus!
