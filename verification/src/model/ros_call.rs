//! Calls to the middleware that a program was seen to make.

use vstd::prelude::*;

verus! {

/// The kind of a middleware call.
#[derive(Clone, Copy, Debug, PartialEq, Eq, Hash, Structural)]
pub enum RosCallType {
    Publish,
    Subscribe,
    Service,
    Action,
}

/// A call of some kind on a topic.
#[derive(Debug, PartialEq, Eq, Hash)]
pub struct RosCall {
    pub(crate) topic: String,
    pub(crate) typ: RosCallType,
}

impl View for RosCall {
    type V = (Seq<char>, RosCallType);

    open(crate) spec fn view(&self) -> (Seq<char>, RosCallType) {
        (self.topic@, self.typ)
    }
}

impl DeepView for RosCall {
    type V = (Seq<char>, RosCallType);

    open spec fn deep_view(&self) -> (Seq<char>, RosCallType) {
        self.view()
    }
}

impl Clone for RosCall {
    fn clone(&self) -> (r: Self)
        ensures
            r == *self,
    {
        RosCall { topic: self.topic.clone(), typ: self.typ }
    }
}

impl RosCall {
    pub fn new(topic: String, typ: RosCallType) -> (r: Self)
        ensures
            r@ == (topic@, typ),
    {
        RosCall { topic, typ }
    }

    pub fn topic(&self) -> (t: &str)
        ensures
            t@ == self@.0,
    {
        self.topic.as_str()
    }

    pub fn typ(&self) -> (t: RosCallType)
        ensures
            t == self@.1,
    {
        self.typ
    }
}

} // verus!
