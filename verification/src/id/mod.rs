pub mod ty;
pub mod pattern;
pub mod exp;
pub mod set_local;
pub mod id_err;
pub mod truth_ref;

pub use self::ty::Type;
pub use self::pattern::Pattern;
pub use self::exp::Exp;
pub use self::set_local::SetLocal;
pub use self::id_err::ErrID;
pub use self::truth_ref::{ Direction, RefType, TruthRef };
