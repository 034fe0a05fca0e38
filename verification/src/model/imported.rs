//! The skillset model that a program imports: skillsets and the types they
//! export, each found by its handle or listed in order.

use crate::model::names::Named;
use vstd::prelude::*;
use vstd::string::StringExecFns;

verus! {

/// Handle of a skillset: its index in the imported model's list of skillsets.
#[derive(Clone, Copy, Debug, PartialEq, Eq, Hash, Structural)]
pub struct SkillsetId(pub usize);

impl SkillsetId {
    pub fn index(&self) -> (i: usize)
        ensures
            i == self.0,
    {
        self.0
    }
}

/// Handle of an exported type: its index in the imported model's list of types.
#[derive(Clone, Copy, Debug, PartialEq, Eq, Hash, Structural)]
pub struct TypeId(pub usize);

impl TypeId {
    pub fn index(&self) -> (i: usize)
        ensures
            i == self.0,
    {
        self.0
    }
}

/// A skillset of the imported model, by handle and printed name.
#[derive(Debug, PartialEq, Eq)]
pub struct Skillset {
    pub(crate) id: SkillsetId,
    pub(crate) name: String,
}

impl Clone for Skillset {
    fn clone(&self) -> (r: Self)
        ensures
            r == *self,
    {
        Skillset { id: self.id, name: self.name.clone() }
    }
}

/// The mathematical value of a [`Skillset`] or of an [`ExportedType`].
pub struct EntryView {
    pub id: nat,
    pub name: Seq<char>,
}

impl View for Skillset {
    type V = EntryView;

    open(crate) spec fn view(&self) -> EntryView {
        EntryView { id: self.id.0 as nat, name: self.name@ }
    }
}

impl DeepView for Skillset {
    type V = EntryView;

    open spec fn deep_view(&self) -> EntryView {
        self.view()
    }
}

impl Named for Skillset {
    open spec fn name_view(&self) -> Seq<char> {
        self@.name
    }

    fn name_string(&self) -> (n: &String) {
        &self.name
    }
}

impl Skillset {
    pub fn id(&self) -> (id: SkillsetId)
        ensures
            id.0 == self@.id,
    {
        self.id
    }

    pub fn name(&self) -> (n: &str)
        ensures
            n@ == self@.name,
    {
        self.name.as_str()
    }

    /// The skillset as it is printed: its name.
    pub fn to_string(&self) -> (s: String)
        ensures
            s@ == self@.name,
    {
        self.name.clone()
    }
}

/// A type that the imported model exports, by handle and name.
#[derive(Debug, PartialEq, Eq)]
pub struct ExportedType {
    pub(crate) id: TypeId,
    pub(crate) name: String,
}

impl Clone for ExportedType {
    fn clone(&self) -> (r: Self)
        ensures
            r == *self,
    {
        ExportedType { id: self.id, name: self.name.clone() }
    }
}

impl View for ExportedType {
    type V = EntryView;

    open(crate) spec fn view(&self) -> EntryView {
        EntryView { id: self.id.0 as nat, name: self.name@ }
    }
}

impl DeepView for ExportedType {
    type V = EntryView;

    open spec fn deep_view(&self) -> EntryView {
        self.view()
    }
}

impl Named for ExportedType {
    open spec fn name_view(&self) -> Seq<char> {
        self@.name
    }

    fn name_string(&self) -> (n: &String) {
        &self.name
    }
}

impl ExportedType {
    pub fn id(&self) -> (id: TypeId)
        ensures
            id.0 == self@.id,
    {
        self.id
    }

    pub fn name(&self) -> (n: &str)
        ensures
            n@ == self@.name,
    {
        self.name.as_str()
    }

    /// The type as it is printed: its name.
    pub fn to_string(&self) -> (s: String)
        ensures
            s@ == self@.name,
    {
        self.name.clone()
    }
}

/// The imported model: what the program can refer to but does not declare.
#[derive(Debug)]
pub struct ImportedModel {
    pub(crate) skillsets: Vec<Skillset>,
    pub(crate) types: Vec<ExportedType>,
}

/// The mathematical value of an [`ImportedModel`]: the names of its skillsets
/// and of its types, each at the index that is its handle.
pub struct ImportedModelView {
    pub skillsets: Seq<Seq<char>>,
    pub types: Seq<Seq<char>>,
}

impl View for ImportedModel {
    type V = ImportedModelView;

    open(crate) spec fn view(&self) -> ImportedModelView {
        ImportedModelView {
            skillsets: Seq::new(self.skillsets@.len(), |i: int| self.skillsets@[i].name@),
            types: Seq::new(self.types@.len(), |i: int| self.types@[i].name@),
        }
    }
}

impl DeepView for ImportedModel {
    type V = ImportedModelView;

    open spec fn deep_view(&self) -> ImportedModelView {
        self.view()
    }
}

impl Clone for ImportedModel {
    fn clone(&self) -> (r: Self)
        ensures
            r@ == self@,
            self.wf() ==> r.wf(),
    {
        let r = ImportedModel { skillsets: self.skillsets.clone(), types: self.types.clone() };
        assert(r.skillsets@ =~= self.skillsets@);
        assert(r.types@ =~= self.types@);
        r
    }
}

impl ImportedModel {
    /// Every entry carries the handle that is its index.
    pub open(crate) spec fn wf(&self) -> bool {
        &&& forall|i: int|
            0 <= i < self.skillsets@.len() ==> (#[trigger] self.skillsets@[i]).id.0 == i
        &&& forall|i: int| 0 <= i < self.types@.len() ==> (#[trigger] self.types@[i]).id.0 == i
    }

    /// A model with no skillset and no type.
    pub fn new() -> (r: Self)
        ensures
            r.wf(),
            r@.skillsets == Seq::<Seq<char>>::empty(),
            r@.types == Seq::<Seq<char>>::empty(),
    {
        ImportedModel { skillsets: Vec::new(), types: Vec::new() }
    }

    /// Appends a skillset and returns its handle, the index it was given.
    pub fn add_skillset(&mut self, name: &str) -> (id: SkillsetId)
        requires
            old(self).wf(),
        ensures
            final(self).wf(),
            id.0 == old(self)@.skillsets.len(),
            final(self)@.skillsets == old(self)@.skillsets.push(name@),
            final(self)@.types == old(self)@.types,
    {
        let id = SkillsetId(self.skillsets.len());
        self.skillsets.push(Skillset { id, name: String::from_str(name) });
        id
    }

    /// Appends an exported type and returns its handle, the index it was given.
    pub fn add_type(&mut self, name: &str) -> (id: TypeId)
        requires
            old(self).wf(),
        ensures
            final(self).wf(),
            id.0 == old(self)@.types.len(),
            final(self)@.types == old(self)@.types.push(name@),
            final(self)@.skillsets == old(self)@.skillsets,
    {
        let id = TypeId(self.types.len());
        self.types.push(ExportedType { id, name: String::from_str(name) });
        id
    }

    /// The skillsets, in the order of their handles.
    pub fn skillsets(&self) -> (r: &Vec<Skillset>)
        ensures
            r@.len() == self@.skillsets.len(),
            forall|i: int| 0 <= i < r@.len() ==> (#[trigger] r@[i])@.name == self@.skillsets[i],
            self.wf() ==> forall|i: int| 0 <= i < r@.len() ==> (#[trigger] r@[i])@.id == i,
    {
        &self.skillsets
    }

    /// The exported types, in the order of their handles.
    pub fn types(&self) -> (r: &Vec<ExportedType>)
        ensures
            r@.len() == self@.types.len(),
            forall|i: int| 0 <= i < r@.len() ==> (#[trigger] r@[i])@.name == self@.types[i],
            self.wf() ==> forall|i: int| 0 <= i < r@.len() ==> (#[trigger] r@[i])@.id == i,
    {
        &self.types
    }

    /// The skillset with handle `id`, if there is one.
    pub fn get_skillset(&self, id: SkillsetId) -> (r: Option<&Skillset>)
        ensures
            id.0 >= self@.skillsets.len() ==> r is None,
            id.0 < self@.skillsets.len() ==> r is Some && r->0@.name
                == self@.skillsets[id.0 as int],
            self.wf() && r is Some ==> r->0@.id == id.0,
    {
        if id.0 < self.skillsets.len() {
            Some(&self.skillsets[id.0])
        } else {
            None
        }
    }

    /// The exported type with handle `id`, if there is one.
    pub fn get_type(&self, id: TypeId) -> (r: Option<&ExportedType>)
        ensures
            id.0 >= self@.types.len() ==> r is None,
            id.0 < self@.types.len() ==> r is Some && r->0@.name == self@.types[id.0 as int],
            self.wf() && r is Some ==> r->0@.id == id.0,
    {
        if id.0 < self.types.len() {
            Some(&self.types[id.0])
        } else {
            None
        }
    }
}

} // verus!
