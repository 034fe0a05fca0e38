//! Types declared by the program itself.

use crate::model::model::{Model, ModelView};
use crate::model::names::Named;
use crate::model::rendering::{local_type_text, ToLang};
use crate::parser::position::{Position, PositionView};
use vstd::prelude::*;
use vstd::string::StringExecFns;

verus! {

/// Handle of a local type: its index in the model's store of types.
#[derive(Clone, Copy, Debug, PartialEq, Eq, Hash, Structural)]
pub struct RlcTypeId(pub usize);

impl RlcTypeId {
    pub fn index(&self) -> (i: usize)
        ensures
            i == self.0,
    {
        self.0
    }
}

/// A type declared locally.
#[derive(Debug, PartialEq, Eq)]
pub struct RlcType {
    pub(crate) name: String,
    pub(crate) position: Option<Position>,
    pub(crate) id: RlcTypeId,
}

/// The mathematical value of an [`RlcType`].
pub struct RlcTypeView {
    pub name: Seq<char>,
    pub position: Option<PositionView>,
    pub id: nat,
}

impl View for RlcType {
    type V = RlcTypeView;

    open(crate) spec fn view(&self) -> RlcTypeView {
        RlcTypeView {
            name: self.name@,
            position: self.position.deep_view(),
            id: self.id.0 as nat,
        }
    }
}

impl DeepView for RlcType {
    type V = RlcTypeView;

    open spec fn deep_view(&self) -> RlcTypeView {
        self.view()
    }
}

impl Named for RlcType {
    open spec fn name_view(&self) -> Seq<char> {
        self@.name
    }

    fn name_string(&self) -> (n: &String) {
        &self.name
    }
}

impl Clone for RlcType {
    fn clone(&self) -> (r: Self)
        ensures
            r == *self,
    {
        RlcType { name: self.name.clone(), position: self.position.clone(), id: self.id }
    }
}

impl RlcType {
    /// A type that no model holds yet; its handle is set when it is added.
    pub fn new(name: &str, position: Option<Position>) -> (r: Self)
        ensures
            r@.name == name@,
            r@.position == position.deep_view(),
            r@.id == 0,
    {
        RlcType { name: String::from_str(name), position, id: RlcTypeId(0) }
    }

    pub fn name(&self) -> (n: &str)
        ensures
            n@ == self@.name,
    {
        self.name.as_str()
    }

    pub fn position(&self) -> (p: &Option<Position>)
        ensures
            p.deep_view() == self@.position,
    {
        &self.position
    }

    pub fn id(&self) -> (id: RlcTypeId)
        ensures
            id.0 == self@.id,
    {
        self.id
    }

    pub fn set_id(&mut self, id: RlcTypeId)
        ensures
            final(self)@ == (RlcTypeView { id: id.0 as nat, ..old(self)@ }),
    {
        self.id = id;
    }

    /// The type as it is printed: its name.
    pub fn to_string(&self) -> (s: String)
        ensures
            s@ == self@.name,
    {
        self.name.clone()
    }
}

impl ToLang for RlcType {
    open spec fn lang(&self, model: ModelView) -> Seq<char> {
        local_type_text(self@)
    }

    /// The declaration of the type: the word `type` and its name.
    fn to_lang(&self, model: &Model) -> (s: String) {
        let mut s = String::from_str("type ");
        s.append(self.name.as_str());
        s
    }
}

} // verus!
