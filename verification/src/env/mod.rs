pub mod push_id;
pub mod push_local;
pub mod id;
pub mod local_id;
pub mod path;
pub mod space;
pub mod namespace;
pub mod local_namespace;
pub mod env;
pub mod local_env;
pub mod data;
pub mod val;

pub use self::push_id::PushID;
pub use self::push_local::PushLocal;
pub use self::id::ID;
pub use self::local_id::LocalID;
pub use self::path::Path;
pub use self::space::{ Space, SpaceVal };
pub use self::namespace::{ Namespace, ParentSpace };
pub use self::local_namespace::LocalNamespace;
pub use self::env::Env;
pub use self::local_env::LocalEnv;
pub use self::data::EnvData;
pub use self::val::Val;
