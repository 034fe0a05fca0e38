//! The declarations of a program and the model that holds them.

pub mod decl_method;
pub mod duplicates;
pub mod expr;
pub mod function;
pub mod imported;
pub mod model;
pub mod names;
pub mod rendering;
pub mod resolution;
pub mod rlc_type;
pub mod robot;
pub mod ros_call;
pub mod typ;

pub use self::decl_method::{DeclMethod, DeclMethodId};
pub use self::expr::Expr;
pub use self::function::{Function, FunctionId, Parameter, ParameterId};
pub use self::imported::{ExportedType, ImportedModel, Skillset, SkillsetId, TypeId};
pub use self::model::{GetFromId, Model};
pub use self::rendering::ToLang;
pub use self::rlc_type::{RlcType, RlcTypeId};
pub use self::robot::{Robot, RobotId};
pub use self::ros_call::{RosCall, RosCallType};
pub use self::typ::Type;
