//! Semantic model of a small robot-control language: an append-only store of
//! declarations, duplicate detection, resolution of type references and of the
//! identifiers used in function bodies, and a textual rendering of the model.

pub mod parser;
pub mod model;

pub use crate::model::{
    DeclMethod, DeclMethodId, Expr, ExportedType, Function, FunctionId, GetFromId, ImportedModel,
    Model, Parameter, ParameterId, RlcType, RlcTypeId, Robot, RobotId, RosCall, RosCallType,
    Skillset, SkillsetId, ToLang, Type, TypeId,
};
pub use crate::parser::{Identifier, Position, RlcError};
