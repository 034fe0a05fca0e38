//! The errors that checking and resolving a model can end in.

use crate::parser::position::{Position, PositionView};
use vstd::prelude::*;

verus! {

/// Why a model was refused. Each error ends the stage that met it.
#[derive(Debug, PartialEq, Eq)]
pub enum RlcError {
    /// A file is included twice.
    DuplInclude { name: String },
    /// Two declarations of one namespace share a name.
    Duplicate { name: String, first: Option<Position>, second: Option<Position> },
    /// A local type has the name of a type of the imported model.
    DuplType { name: String },
    /// A type name or an identifier refers to nothing.
    Resolve { element: String, position: Option<Position> },
}

/// The mathematical value of an [`RlcError`].
pub enum RlcErrorView {
    DuplInclude { name: Seq<char> },
    Duplicate { name: Seq<char>, first: Option<PositionView>, second: Option<PositionView> },
    DuplType { name: Seq<char> },
    Resolve { element: Seq<char>, position: Option<PositionView> },
}

impl View for RlcError {
    type V = RlcErrorView;

    open spec fn view(&self) -> RlcErrorView {
        match self {
            RlcError::DuplInclude { name } => RlcErrorView::DuplInclude { name: name@ },
            RlcError::Duplicate { name, first, second } => RlcErrorView::Duplicate {
                name: name@,
                first: first.deep_view(),
                second: second.deep_view(),
            },
            RlcError::DuplType { name } => RlcErrorView::DuplType { name: name@ },
            RlcError::Resolve { element, position } => RlcErrorView::Resolve {
                element: element@,
                position: position.deep_view(),
            },
        }
    }
}

impl DeepView for RlcError {
    type V = RlcErrorView;

    open spec fn deep_view(&self) -> RlcErrorView {
        self.view()
    }
}

/// How a stage ended, as a mathematical value.
pub open spec fn outcome(r: Result<(), RlcError>) -> Result<(), RlcErrorView> {
    match r {
        Ok(_) => Ok(()),
        Err(e) => Err(e@),
    }
}

} // verus!
