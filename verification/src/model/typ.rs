//! The type of a parameter: a name still to be resolved, or a reference to
//! the declaration that the name stands for.

use crate::model::imported::{SkillsetId, TypeId};
use crate::model::model::{Model, ModelView};
use crate::model::names::names_of;
use crate::model::rendering::{name_or_placeholder, pending_to_lang, type_text, ToLang};
use crate::model::rlc_type::RlcTypeId;
use crate::parser::position::{Position, PositionView};
use vstd::prelude::*;
use vstd::string::StringExecFns;

verus! {

/// A type as a parameter carries it.
#[derive(Debug, PartialEq, Eq, Hash)]
pub enum Type {
    /// No type was given.
    Undefined,
    /// A type name as written, with the place where it was written.
    Unresolved(String, Option<Position>),
    Boolean,
    /// A skillset of the imported model.
    Skillset(SkillsetId),
    /// A type that the imported model exports.
    ImportedType(TypeId),
    /// A type that the program declares.
    LocalType(RlcTypeId),
}

/// The mathematical value of a [`Type`]; handles are taken as indices.
pub enum TypeView {
    Undefined,
    Unresolved(Seq<char>, Option<PositionView>),
    Boolean,
    Skillset(nat),
    ImportedType(nat),
    LocalType(nat),
}

impl View for Type {
    type V = TypeView;

    open spec fn view(&self) -> TypeView {
        match self {
            Type::Undefined => TypeView::Undefined,
            Type::Unresolved(name, position) => TypeView::Unresolved(name@, position.deep_view()),
            Type::Boolean => TypeView::Boolean,
            Type::Skillset(id) => TypeView::Skillset(id.0 as nat),
            Type::ImportedType(id) => TypeView::ImportedType(id.0 as nat),
            Type::LocalType(id) => TypeView::LocalType(id.0 as nat),
        }
    }
}

impl DeepView for Type {
    type V = TypeView;

    open spec fn deep_view(&self) -> TypeView {
        self.view()
    }
}

impl Clone for Type {
    fn clone(&self) -> (r: Self)
        ensures
            r == *self,
    {
        match self {
            Type::Undefined => Type::Undefined,
            Type::Unresolved(name, position) => Type::Unresolved(name.clone(), position.clone()),
            Type::Boolean => Type::Boolean,
            Type::Skillset(id) => Type::Skillset(*id),
            Type::ImportedType(id) => Type::ImportedType(*id),
            Type::LocalType(id) => Type::LocalType(*id),
        }
    }
}

impl ToLang for Type {
    open spec fn lang(&self, model: ModelView) -> Seq<char> {
        type_text(self@, model)
    }

    /// The name of what the type refers to. A handle that refers to nothing
    /// and `Undefined` are printed as `undef`, `Boolean` as `bool`, and a name
    /// that is not resolved yet with a question mark after it.
    fn to_lang(&self, model: &Model) -> (s: String) {
        proof {
            assert(names_of(model.imported_model.skillsets@) =~= model@.imported.skillsets);
            assert(names_of(model.imported_model.types@) =~= model@.imported.types);
            assert(names_of(model.types@) =~= model@.type_names());
        }
        match self {
            Type::Unresolved(name, _) => pending_to_lang(name),
            Type::Undefined => String::from_str("undef"),
            Type::Skillset(id) => name_or_placeholder(&model.imported_model.skillsets, id.0),
            Type::ImportedType(id) => name_or_placeholder(&model.imported_model.types, id.0),
            Type::LocalType(id) => name_or_placeholder(&model.types, id.0),
            Type::Boolean => String::from_str("bool"),
        }
    }
}

} // verus!
