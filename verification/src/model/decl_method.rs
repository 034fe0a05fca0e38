//! Declared methods: a name and parameters, without a body.

use crate::model::function::{signature_to_lang, Parameter, ParameterView};
use crate::model::model::{Model, ModelView};
use crate::model::rendering::{decl_method_text, ToLang};
use crate::model::names::Named;
use crate::parser::position::{Position, PositionView};
use vstd::prelude::*;
use vstd::string::StringExecFns;

verus! {

/// Handle of a declared method: its index in the model's store of them.
#[derive(Clone, Copy, Debug, PartialEq, Eq, Hash, Structural)]
pub struct DeclMethodId(pub usize);

impl DeclMethodId {
    pub fn index(&self) -> (i: usize)
        ensures
            i == self.0,
    {
        self.0
    }
}

/// A method that is declared and not defined.
#[derive(Debug, PartialEq, Eq)]
pub struct DeclMethod {
    pub(crate) name: String,
    pub(crate) position: Option<Position>,
    pub(crate) parameters: Vec<Parameter>,
    pub(crate) id: DeclMethodId,
}

/// The mathematical value of a [`DeclMethod`].
pub struct DeclMethodView {
    pub name: Seq<char>,
    pub position: Option<PositionView>,
    pub parameters: Seq<ParameterView>,
    pub id: nat,
}

impl View for DeclMethod {
    type V = DeclMethodView;

    open(crate) spec fn view(&self) -> DeclMethodView {
        DeclMethodView {
            name: self.name@,
            position: self.position.deep_view(),
            parameters: self.parameters.deep_view(),
            id: self.id.0 as nat,
        }
    }
}

impl DeepView for DeclMethod {
    type V = DeclMethodView;

    open spec fn deep_view(&self) -> DeclMethodView {
        self.view()
    }
}

impl Named for DeclMethod {
    open spec fn name_view(&self) -> Seq<char> {
        self@.name
    }

    fn name_string(&self) -> (n: &String) {
        &self.name
    }
}

impl Clone for DeclMethod {
    fn clone(&self) -> (r: Self)
        ensures
            r@ == self@,
    {
        let r = DeclMethod {
            name: self.name.clone(),
            position: self.position.clone(),
            parameters: self.parameters.clone(),
            id: self.id,
        };
        assert(r.parameters.deep_view() =~= self.parameters.deep_view());
        r
    }
}

impl DeclMethod {
    /// A declared method that no model holds yet; its handle is set when it
    /// is added.
    pub fn new(name: &str, parameters: Vec<Parameter>, position: Option<Position>) -> (r: Self)
        ensures
            r@ == (DeclMethodView {
                name: name@,
                position: position.deep_view(),
                parameters: parameters.deep_view(),
                id: 0,
            }),
    {
        DeclMethod { name: String::from_str(name), position, parameters, id: DeclMethodId(0) }
    }

    pub fn name(&self) -> (n: &str)
        ensures
            n@ == self@.name,
    {
        self.name.as_str()
    }

    pub fn position(&self) -> (p: &Option<Position>)
        ensures
            p.deep_view() == self@.position,
    {
        &self.position
    }

    pub fn id(&self) -> (id: DeclMethodId)
        ensures
            id.0 == self@.id,
    {
        self.id
    }

    pub fn set_id(&mut self, id: DeclMethodId)
        ensures
            final(self)@ == (DeclMethodView { id: id.0 as nat, ..old(self)@ }),
    {
        self.id = id;
    }

    pub fn parameters(&self) -> (p: &Vec<Parameter>)
        ensures
            p.deep_view() == self@.parameters,
    {
        &self.parameters
    }
}

impl ToLang for DeclMethod {
    open spec fn lang(&self, model: ModelView) -> Seq<char> {
        decl_method_text(self@, model)
    }

    /// The signature of the method.
    fn to_lang(&self, model: &Model) -> (s: String) {
        signature_to_lang(&self.name, &self.parameters, model)
    }
}

} // verus!
