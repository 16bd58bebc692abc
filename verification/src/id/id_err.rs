use vstd::prelude::*;
use crate::env::ID;
use crate::envs::{ ExpVal, TypeVal, TruthVal };
use super::{ Type, Exp, RefType };

verus! {

/// Why an operation on resolved identifiers failed.
#[derive(Debug, PartialEq, Eq)]
pub enum ErrID {
    UnknownExpID(ID<ExpVal>),
    UnknownTypeID(ID<TypeVal>),
    UnknownTruthID(ID<TruthVal>),
    ExpMismatch(Exp, Exp),
    TypeMismatch(Type, Type),
    GenericAmount(usize, usize),
    NotAtomic(ID<ExpVal>, Type),
    ArgumentAmount(RefType, usize),
    VarNotSet(ID<ExpVal>),
    NoMatch(Exp),
    NotContained,
}

impl From<ID<ExpVal>> for ErrID {
    fn from(id: ID<ExpVal>) -> (r: Self) {
        ErrID::UnknownExpID(id)
    }
}

impl vstd::std_specs::convert::FromSpecImpl<ID<ExpVal>> for ErrID {
    open spec fn obeys_from_spec() -> bool {
        true
    }

    open spec fn from_spec(id: ID<ExpVal>) -> Self {
        ErrID::UnknownExpID(id)
    }
}

impl From<ID<TypeVal>> for ErrID {
    fn from(id: ID<TypeVal>) -> (r: Self) {
        ErrID::UnknownTypeID(id)
    }
}

impl vstd::std_specs::convert::FromSpecImpl<ID<TypeVal>> for ErrID {
    open spec fn obeys_from_spec() -> bool {
        true
    }

    open spec fn from_spec(id: ID<TypeVal>) -> Self {
        ErrID::UnknownTypeID(id)
    }
}

impl From<ID<TruthVal>> for ErrID {
    fn from(id: ID<TruthVal>) -> (r: Self) {
        ErrID::UnknownTruthID(id)
    }
}

impl vstd::std_specs::convert::FromSpecImpl<ID<TruthVal>> for ErrID {
    open spec fn obeys_from_spec() -> bool {
        true
    }

    open spec fn from_spec(id: ID<TruthVal>) -> Self {
        ErrID::UnknownTruthID(id)
    }
}

} // verus!
