//! Expressions of a function body. The model looks at an expression only for
//! the identifier it uses: a name still to be bound, or what the name is
//! bound to.

use crate::model::function::{FunctionId, Parameter, ParameterId};
use crate::model::model::Model;
use crate::model::names::names_of;
use crate::model::rendering::{expr_text, name_or_placeholder, pending_to_lang};
use crate::model::resolution::parameter_names;
use crate::model::imported::{SkillsetId, TypeId};
use crate::model::rlc_type::RlcTypeId;
use crate::parser::position::{Position, PositionView};
use vstd::prelude::*;

verus! {

/// An identifier used in a function body.
#[derive(Debug, PartialEq, Eq)]
pub enum Expr {
    /// An identifier as written, with the place where it was written.
    Unresolved(String, Option<Position>),
    /// A parameter of the enclosing function.
    Parameter(ParameterId),
    /// A function of the model.
    Function(FunctionId),
    /// A type that the program declares.
    LocalType(RlcTypeId),
    /// A type that the imported model exports.
    ImportedType(TypeId),
    /// A skillset of the imported model.
    Skillset(SkillsetId),
}

/// The mathematical value of an [`Expr`]; handles are taken as indices.
pub enum ExprView {
    Unresolved(Seq<char>, Option<PositionView>),
    Parameter(nat),
    Function(nat),
    LocalType(nat),
    ImportedType(nat),
    Skillset(nat),
}

impl View for Expr {
    type V = ExprView;

    open spec fn view(&self) -> ExprView {
        match self {
            Expr::Unresolved(name, position) => ExprView::Unresolved(name@, position.deep_view()),
            Expr::Parameter(id) => ExprView::Parameter(id.0 as nat),
            Expr::Function(id) => ExprView::Function(id.0 as nat),
            Expr::LocalType(id) => ExprView::LocalType(id.0 as nat),
            Expr::ImportedType(id) => ExprView::ImportedType(id.0 as nat),
            Expr::Skillset(id) => ExprView::Skillset(id.0 as nat),
        }
    }
}

impl DeepView for Expr {
    type V = ExprView;

    open spec fn deep_view(&self) -> ExprView {
        self.view()
    }
}

impl Clone for Expr {
    fn clone(&self) -> (r: Self)
        ensures
            r == *self,
    {
        match self {
            Expr::Unresolved(name, position) => Expr::Unresolved(name.clone(), position.clone()),
            Expr::Parameter(id) => Expr::Parameter(*id),
            Expr::Function(id) => Expr::Function(*id),
            Expr::LocalType(id) => Expr::LocalType(*id),
            Expr::ImportedType(id) => Expr::ImportedType(*id),
            Expr::Skillset(id) => Expr::Skillset(*id),
        }
    }
}

impl Expr {
    /// The name of what the expression refers to, in a function with
    /// parameters `params`. A handle that refers to nothing is printed as
    /// `undef`, and an identifier that is not bound yet with a question mark
    /// after it.
    pub fn to_lang(&self, params: &Vec<Parameter>, model: &Model) -> (s: String)
        ensures
            s@ == expr_text(self@, params.deep_view(), model@),
    {
        proof {
            assert(names_of(model.imported_model.skillsets@) =~= model@.imported.skillsets);
            assert(names_of(model.imported_model.types@) =~= model@.imported.types);
            assert(names_of(model.types@) =~= model@.type_names());
            assert(names_of(model.functions@) =~= model@.function_names());
            assert(names_of(params@) =~= parameter_names(params.deep_view()));
        }
        match self {
            Expr::Unresolved(name, _) => pending_to_lang(name),
            Expr::Parameter(id) => name_or_placeholder(params, id.0),
            Expr::Function(id) => name_or_placeholder(&model.functions, id.0),
            Expr::LocalType(id) => name_or_placeholder(&model.types, id.0),
            Expr::ImportedType(id) => name_or_placeholder(&model.imported_model.types, id.0),
            Expr::Skillset(id) => name_or_placeholder(&model.imported_model.skillsets, id.0),
        }
    }
}

} // verus!
