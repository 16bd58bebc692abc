pub mod id;
pub mod env;
pub mod local_env;
pub mod envs;

pub use self::id::{ ID, LocalID };
pub use self::env::Env;
pub use self::local_env::LocalEnv;
pub use self::envs::{ Envs, LocalEnvs };
