pub mod err;

pub use self::err::ErrAst;
