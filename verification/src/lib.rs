pub mod name_map;
pub mod variance;
pub mod env;
pub mod named_env;
pub mod id;
pub mod envs;
pub mod ast;
