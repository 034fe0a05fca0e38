//! Robots: named declarations in a namespace of their own.

use crate::model::model::{Model, ModelView};
use crate::model::names::Named;
use crate::model::rendering::{robot_text, ToLang};
use crate::parser::position::{Position, PositionView};
use vstd::prelude::*;
use vstd::string::StringExecFns;

verus! {

/// Handle of a robot: its index in the model's store of robots.
#[derive(Clone, Copy, Debug, PartialEq, Eq, Hash, Structural)]
pub struct RobotId(pub usize);

impl RobotId {
    pub fn index(&self) -> (i: usize)
        ensures
            i == self.0,
    {
        self.0
    }
}

/// A declared robot.
#[derive(Debug, PartialEq, Eq)]
pub struct Robot {
    pub(crate) name: String,
    pub(crate) position: Option<Position>,
    pub(crate) id: RobotId,
}

/// The mathematical value of a [`Robot`].
pub struct RobotView {
    pub name: Seq<char>,
    pub position: Option<PositionView>,
    pub id: nat,
}

impl View for Robot {
    type V = RobotView;

    open(crate) spec fn view(&self) -> RobotView {
        RobotView {
            name: self.name@,
            position: self.position.deep_view(),
            id: self.id.0 as nat,
        }
    }
}

impl DeepView for Robot {
    type V = RobotView;

    open spec fn deep_view(&self) -> RobotView {
        self.view()
    }
}

impl Named for Robot {
    open spec fn name_view(&self) -> Seq<char> {
        self@.name
    }

    fn name_string(&self) -> (n: &String) {
        &self.name
    }
}

impl Clone for Robot {
    fn clone(&self) -> (r: Self)
        ensures
            r == *self,
    {
        Robot { name: self.name.clone(), position: self.position.clone(), id: self.id }
    }
}

impl Robot {
    /// A robot that no model holds yet; its handle is set when it is added.
    pub fn new(name: &str, position: Option<Position>) -> (r: Self)
        ensures
            r@.name == name@,
            r@.position == position.deep_view(),
            r@.id == 0,
    {
        Robot { name: String::from_str(name), position, id: RobotId(0) }
    }

    pub fn name(&self) -> (n: &str)
        ensures
            n@ == self@.name,
    {
        self.name.as_str()
    }

    pub fn position(&self) -> (p: &Option<Position>)
        ensures
            p.deep_view() == self@.position,
    {
        &self.position
    }

    pub fn id(&self) -> (id: RobotId)
        ensures
            id.0 == self@.id,
    {
        self.id
    }

    pub fn set_id(&mut self, id: RobotId)
        ensures
            final(self)@ == (RobotView { id: id.0 as nat, ..old(self)@ }),
    {
        self.id = id;
    }
}

impl ToLang for Robot {
    open spec fn lang(&self, model: ModelView) -> Seq<char> {
        robot_text(self@)
    }

    /// The word `robot` and the name of the robot.
    fn to_lang(&self, model: &Model) -> (s: String) {
        let mut s = String::from_str("robot ");
        s.append(self.name.as_str());
        s
    }
}

} // verus!
