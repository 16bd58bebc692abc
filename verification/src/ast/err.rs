use vstd::prelude::*;
use crate::env::Path;
use crate::id::ErrID;

verus! {

/// Why a name could not be resolved: an unknown variable, type or truth
/// (the path leads to a space but names nothing there), a path that leads
/// nowhere, or an error on the resolved identifiers.
#[derive(Debug, PartialEq, Eq)]
pub enum ErrAst<T> {
    UnknownVar(Path<T>),
    UnknownType(Path<T>),
    UnknownTruth(Path<T>),
    UndefinedPath(Path<T>),
    ErrID(ErrID),
}

impl<T> From<ErrID> for ErrAst<T> {
    fn from(err: ErrID) -> (r: Self) {
        ErrAst::ErrID(err)
    }
}

impl<T> vstd::std_specs::convert::FromSpecImpl<ErrID> for ErrAst<T> {
    open spec fn obeys_from_spec() -> bool {
        true
    }

    open spec fn from_spec(err: ErrID) -> Self {
        ErrAst::ErrID(err)
    }
}

} // verus!
