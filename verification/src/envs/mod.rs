pub mod type_val;
pub mod exp_val;
pub mod truth_val;
pub mod namespaces;
pub mod local_namespaces;
pub mod envs;
pub mod local_envs;
pub mod data;

pub use self::type_val::TypeVal;
pub use self::exp_val::ExpVal;
pub use self::truth_val::TruthVal;
pub use self::namespaces::{ NameData, Namespaces };
pub use self::local_namespaces::LocalNamespaces;
pub use self::envs::{ Envs, EnvData };
pub use self::local_envs::LocalEnvs;
pub use self::data::EnvsData;
