//! The model: one append-only store for each kind of declaration, the
//! included files, the middleware calls and the imported skillset model.

use crate::model::decl_method::{DeclMethod, DeclMethodId, DeclMethodView};
use crate::model::function::{Function, FunctionId, FunctionView};
use crate::model::imported::{ImportedModel, ImportedModelView};
use crate::model::names::{find_collision, find_shadowing, names_of};
use crate::model::rendering::{includes_to_lang, langs_of, lines_to_lang};
use crate::model::resolution::{
    body_outcome, lemma_first_set_is, parameters_outcome, resolve_function_body,
    resolve_function_parameters,
};
use crate::model::rlc_type::{RlcType, RlcTypeId, RlcTypeView};
use crate::model::robot::{Robot, RobotId, RobotView};
use crate::model::ros_call::{RosCall, RosCallType};
use crate::parser::error::{outcome, RlcError};
use vstd::prelude::*;
use vstd::string::StringExecFns;

verus! {

/// The model of a program.
#[derive(Debug)]
pub struct Model {
    /// The skillset model that the program imports.
    pub imported_model: ImportedModel,
    pub(crate) includes: Vec<String>,
    pub(crate) robots: Vec<Robot>,
    pub(crate) types: Vec<RlcType>,
    pub(crate) functions: Vec<Function>,
    pub(crate) declared_methods: Vec<DeclMethod>,
    pub(crate) ros_calls: Vec<RosCall>,
}

/// The mathematical value of a [`Model`].
pub struct ModelView {
    pub includes: Seq<Seq<char>>,
    pub robots: Seq<RobotView>,
    pub types: Seq<RlcTypeView>,
    pub functions: Seq<FunctionView>,
    pub declared_methods: Seq<DeclMethodView>,
    pub ros_calls: Set<(Seq<char>, RosCallType)>,
    pub imported: ImportedModelView,
}

impl ModelView {
    /// Every declaration carries the handle that is its index in its store.
    pub open spec fn handles_in_order(self) -> bool {
        &&& forall|i: int| 0 <= i < self.robots.len() ==> (#[trigger] self.robots[i]).id == i
        &&& forall|i: int| 0 <= i < self.types.len() ==> (#[trigger] self.types[i]).id == i
        &&& forall|i: int| 0 <= i < self.functions.len() ==> (#[trigger] self.functions[i]).id == i
        &&& forall|i: int|
            0 <= i < self.declared_methods.len() ==> (#[trigger] self.declared_methods[i]).id == i
    }
}

/// In a model whose declarations carry their indices as handles, the handles
/// of one kind are all different and increase in the order of insertion.
pub proof fn lemma_handles_increase(m: ModelView)
    requires
        m.handles_in_order(),
    ensures
        forall|i: int, j: int|
            0 <= i < j < m.robots.len() ==> (#[trigger] m.robots[i]).id < (#[trigger] m.robots[j]).id,
        forall|i: int, j: int|
            0 <= i < j < m.types.len() ==> (#[trigger] m.types[i]).id < (#[trigger] m.types[j]).id,
        forall|i: int, j: int|
            0 <= i < j < m.functions.len() ==> (#[trigger] m.functions[i]).id < (
            #[trigger] m.functions[j]).id,
        forall|i: int, j: int|
            0 <= i < j < m.declared_methods.len() ==> (#[trigger] m.declared_methods[i]).id < (
            #[trigger] m.declared_methods[j]).id,
{
}

/// A sound model gives every declaration its index as its handle.
pub proof fn lemma_handles_are_indices(m: Model)
    requires
        m.wf(),
    ensures
        m@.handles_in_order(),
{
}

/// A store from which declarations are had by their handle.
pub trait GetFromId<I, T> {
    /// The declaration that the store holds under `id`, if it holds one.
    spec fn found(&self, id: I) -> Option<T>;

    /// The declaration with handle `id`, if there is one.
    fn get(&self, id: I) -> (r: Option<&T>)
        ensures
            r is Some <==> self.found(id) is Some,
            r matches Some(x) ==> self.found(id) == Some(*x),
    ;
}

impl GetFromId<FunctionId, Function> for Model {
    open(crate) spec fn found(&self, id: FunctionId) -> Option<Function> {
        if id.0 < self.functions@.len() {
            Some(self.functions@[id.0 as int])
        } else {
            None
        }
    }

    fn get(&self, id: FunctionId) -> (r: Option<&Function>)
        ensures
            id.0 >= self@.functions.len() ==> r is None,
            id.0 < self@.functions.len() ==> r is Some && r->0@ == self@.functions[id.0 as int],
    {
        if id.0 < self.functions.len() {
            Some(&self.functions[id.0])
        } else {
            None
        }
    }
}

impl View for Model {
    type V = ModelView;

    open(crate) spec fn view(&self) -> ModelView {
        ModelView {
            includes: self.includes.deep_view(),
            robots: self.robots.deep_view(),
            types: self.types.deep_view(),
            functions: self.functions.deep_view(),
            declared_methods: self.declared_methods.deep_view(),
            ros_calls: self.ros_calls.deep_view().to_set(),
            imported: self.imported_model@,
        }
    }
}

impl DeepView for Model {
    type V = ModelView;

    open spec fn deep_view(&self) -> ModelView {
        self.view()
    }
}

impl Default for Model {
    /// The empty model.
    fn default() -> (r: Self)
        ensures
            r.wf(),
            r@.includes.len() == 0,
            r@.robots.len() == 0,
            r@.types.len() == 0,
            r@.functions.len() == 0,
            r@.declared_methods.len() == 0,
            r@.ros_calls == Set::<(Seq<char>, RosCallType)>::empty(),
            r@.imported.skillsets.len() == 0,
            r@.imported.types.len() == 0,
    {
        let r = Model {
            imported_model: ImportedModel::new(),
            includes: Vec::new(),
            robots: Vec::new(),
            types: Vec::new(),
            functions: Vec::new(),
            declared_methods: Vec::new(),
            ros_calls: Vec::new(),
        };
        assert(r.ros_calls.deep_view().to_set() =~= Set::<(Seq<char>, RosCallType)>::empty());
        r
    }
}

impl Clone for Model {
    /// A copy of the whole model.
    fn clone(&self) -> (r: Self)
        ensures
            r@ == self@,
            self.wf() ==> r.wf(),
    {
        let r = Model {
            imported_model: self.imported_model.clone(),
            includes: self.includes.clone(),
            robots: self.robots.clone(),
            types: self.types.clone(),
            functions: self.functions.clone(),
            declared_methods: self.declared_methods.clone(),
            ros_calls: self.ros_calls.clone(),
        };
        proof {
            assert(r.includes.deep_view() =~= self.includes.deep_view());
            assert(r.robots.deep_view() =~= self.robots.deep_view());
            assert(r.types.deep_view() =~= self.types.deep_view());
            assert(r.functions.deep_view() =~= self.functions.deep_view());
            assert(r.declared_methods.deep_view() =~= self.declared_methods.deep_view());
            assert(r.ros_calls.deep_view() =~= self.ros_calls.deep_view());
        }
        r
    }
}

impl Model {
    /// The invariant of the model: every declaration carries the handle that
    /// is its index, no middleware call is held twice, and the imported model
    /// is sound.
    pub open(crate) spec fn wf(&self) -> bool {
        &&& self@.handles_in_order()
        &&& self.ros_calls.deep_view().no_duplicates()
        &&& self.imported_model.wf()
    }

    // ----- Imported model -----
    /// Puts `imported` in the place of the imported model.
    pub fn set_imported_model(&mut self, imported: ImportedModel)
        requires
            old(self).wf(),
            imported.wf(),
        ensures
            final(self).wf(),
            final(self)@ == (ModelView { imported: imported@, ..old(self)@ }),
    {
        self.imported_model = imported;
    }

    // ----- Includes -----
    /// Appends an included file.
    pub fn add_include(&mut self, file: &str)
        requires
            old(self).wf(),
        ensures
            final(self).wf(),
            final(self)@ == (ModelView { includes: old(self)@.includes.push(file@), ..old(self)@ }),
    {
        self.includes.push(String::from_str(file));
        assert(self.includes.deep_view() =~= old(self).includes.deep_view().push(file@));
    }

    /// The included files, in the order in which they were added.
    pub fn includes(&self) -> (r: &Vec<String>)
        ensures
            r.deep_view() == self@.includes,
    {
        &self.includes
    }

    // ----- Robots -----
    /// Appends a robot and returns its handle: the index it now stands at.
    pub fn add_robot(&mut self, robot: Robot) -> (id: RobotId)
        requires
            old(self).wf(),
        ensures
            final(self).wf(),
            id.0 == old(self)@.robots.len(),
            final(self)@ == (ModelView {
                robots: old(self)@.robots.push(RobotView { id: id.0 as nat, ..robot@ }),
                ..old(self)@
            }),
    {
        let mut robot = robot;
        let id = RobotId(self.robots.len());
        robot.set_id(id);
        self.robots.push(robot);
        assert(self.robots.deep_view() =~= old(self).robots.deep_view().push(robot@));
        id
    }

    /// The robots, in the order of their handles.
    pub fn robots(&self) -> (r: &Vec<Robot>)
        ensures
            r.deep_view() == self@.robots,
    {
        &self.robots
    }

    // ----- Types -----
    /// Appends a local type and gives it its handle: the index it now stands
    /// at.
    pub fn add_type(&mut self, rlc_type: RlcType)
        requires
            old(self).wf(),
        ensures
            final(self).wf(),
            final(self)@ == (ModelView {
                types: old(self)@.types.push(
                    RlcTypeView { id: old(self)@.types.len(), ..rlc_type@ },
                ),
                ..old(self)@
            }),
    {
        let mut rlc_type = rlc_type;
        let id = RlcTypeId(self.types.len());
        rlc_type.set_id(id);
        self.types.push(rlc_type);
        assert(self.types.deep_view() =~= old(self).types.deep_view().push(rlc_type@));
    }

    /// The local types, in the order of their handles.
    pub fn types(&self) -> (r: &Vec<RlcType>)
        ensures
            r.deep_view() == self@.types,
    {
        &self.types
    }

    /// A copy of the local types, in the order of their handles.
    pub fn get_types(&self) -> (r: Vec<RlcType>)
        ensures
            r.deep_view() == self@.types,
    {
        let r = self.types.clone();
        assert(r.deep_view() =~= self.types.deep_view());
        r
    }

    /// The local type with handle `id`, if there is one.
    pub fn get_type(&self, id: RlcTypeId) -> (r: Option<&RlcType>)
        ensures
            id.0 >= self@.types.len() ==> r is None,
            id.0 < self@.types.len() ==> r is Some && r->0@ == self@.types[id.0 as int],
    {
        if id.0 < self.types.len() {
            Some(&self.types[id.0])
        } else {
            None
        }
    }

    // ----- Functions -----
    /// Appends a function and returns its handle: the index it now stands at.
    pub fn add_function(&mut self, fun: Function) -> (id: FunctionId)
        requires
            old(self).wf(),
        ensures
            final(self).wf(),
            id.0 == old(self)@.functions.len(),
            final(self)@ == (ModelView {
                functions: old(self)@.functions.push(FunctionView { id: id.0 as nat, ..fun@ }),
                ..old(self)@
            }),
    {
        let mut fun = fun;
        let id = FunctionId(self.functions.len());
        fun.set_id(id);
        self.functions.push(fun);
        assert(self.functions.deep_view() =~= old(self).functions.deep_view().push(fun@));
        id
    }

    /// The function with handle `id`, if there is one.
    pub fn get_function(&self, id: FunctionId) -> (r: Option<&Function>)
        ensures
            id.0 >= self@.functions.len() ==> r is None,
            id.0 < self@.functions.len() ==> r is Some && r->0@ == self@.functions[id.0 as int],
    {
        if id.0 < self.functions.len() {
            Some(&self.functions[id.0])
        } else {
            None
        }
    }

    /// The functions, in the order of their handles.
    pub fn functions(&self) -> (r: &Vec<Function>)
        ensures
            r.deep_view() == self@.functions,
    {
        &self.functions
    }

    // ----- Declared methods -----
    /// Appends a declared method and returns its handle: the index it now
    /// stands at.
    pub fn add_declared_method(&mut self, decl: DeclMethod) -> (id: DeclMethodId)
        requires
            old(self).wf(),
        ensures
            final(self).wf(),
            id.0 == old(self)@.declared_methods.len(),
            final(self)@ == (ModelView {
                declared_methods: old(self)@.declared_methods.push(
                    DeclMethodView { id: id.0 as nat, ..decl@ },
                ),
                ..old(self)@
            }),
    {
        let mut decl = decl;
        let id = DeclMethodId(self.declared_methods.len());
        decl.set_id(id);
        self.declared_methods.push(decl);
        assert(self.declared_methods.deep_view() =~= old(self).declared_methods.deep_view().push(
            decl@,
        ));
        id
    }

    /// The declared method with handle `id`, if there is one.
    pub fn get_declared_method(&self, id: DeclMethodId) -> (r: Option<&DeclMethod>)
        ensures
            id.0 >= self@.declared_methods.len() ==> r is None,
            id.0 < self@.declared_methods.len() ==> r is Some && r->0@
                == self@.declared_methods[id.0 as int],
    {
        if id.0 < self.declared_methods.len() {
            Some(&self.declared_methods[id.0])
        } else {
            None
        }
    }

    /// The declared methods, in the order of their handles.
    pub fn declared_methods(&self) -> (r: &Vec<DeclMethod>)
        ensures
            r.deep_view() == self@.declared_methods,
    {
        &self.declared_methods
    }

    // ----- Middleware calls -----
    /// Records a call of kind `typ` on `topic`. A call that is already
    /// recorded is not recorded again.
    pub fn add_ros_call(&mut self, topic: String, typ: RosCallType)
        requires
            old(self).wf(),
        ensures
            final(self).wf(),
            final(self)@ == (ModelView {
                ros_calls: old(self)@.ros_calls.insert((topic@, typ)),
                ..old(self)@
            }),
    {
        let ghost calls = self.ros_calls.deep_view();
        let n = self.ros_calls.len();
        let mut k: usize = 0;
        while k < n
            invariant
                *self == *old(self),
                self.wf(),
                n == self.ros_calls.len(),
                calls == self.ros_calls.deep_view(),
                k <= n,
                forall|m: int| 0 <= m < k ==> calls[m] != (topic@, typ),
            decreases n - k,
        {
            if self.ros_calls[k].topic == topic && self.ros_calls[k].typ == typ {
                proof {
                    assert(calls[k as int] == (topic@, typ));
                    assert(calls.to_set().insert((topic@, typ)) =~= calls.to_set());
                }
                return ;
            }
            k += 1;
        }
        self.ros_calls.push(RosCall::new(topic, typ));
        proof {
            assert(self.ros_calls.deep_view() =~= calls.push((topic@, typ)));
            calls.lemma_push_to_set_commute((topic@, typ));
        }
    }

    /// The recorded calls, each once, in no order that callers may rely on.
    pub fn ros_calls(&self) -> (r: &Vec<RosCall>)
        requires
            self.wf(),
        ensures
            r.deep_view().no_duplicates(),
            r.deep_view().to_set() == self@.ros_calls,
            r@.len() == self@.ros_calls.len(),
    {
        proof {
            self.ros_calls.deep_view().unique_seq_to_set();
        }
        &self.ros_calls
    }

    // ----- Checks -----
    /// Looks for a name that is declared twice. The namespaces are taken in
    /// the order included files, robots, local types, local types against
    /// imported types, functions, declared methods; the first pair of equal
    /// names that a pairwise scan meets is reported.
    pub fn duplicate(&self) -> (r: Result<(), RlcError>)
        ensures
            outcome(r) == self@.duplicate(),
    {
        proof {
            assert(names_of(self.includes@) =~= self@.includes);
            assert(names_of(self.robots@) =~= self@.robot_names());
            assert(names_of(self.types@) =~= self@.type_names());
            assert(names_of(self.imported_model.types@) =~= self@.imported.types);
            assert(names_of(self.functions@) =~= self@.function_names());
            assert(names_of(self.declared_methods@) =~= self@.declared_method_names());
        }
        // Includes
        if let Some((i, _j)) = find_collision(&self.includes) {
            return Err(RlcError::DuplInclude { name: self.includes[i].clone() });
        }
        // Robots
        if let Some((i, j)) = find_collision(&self.robots) {
            return Err(
                RlcError::Duplicate {
                    name: self.robots[i].name.clone(),
                    first: self.robots[i].position.clone(),
                    second: self.robots[j].position.clone(),
                },
            );
        }
        // Types within the model
        if let Some((i, j)) = find_collision(&self.types) {
            return Err(
                RlcError::Duplicate {
                    name: self.types[i].name.clone(),
                    first: self.types[i].position.clone(),
                    second: self.types[j].position.clone(),
                },
            );
        }
        // Types against the imported model
        if let Some(i) = find_shadowing(&self.types, &self.imported_model.types) {
            return Err(RlcError::DuplType { name: self.types[i].name.clone() });
        }
        // Functions
        if let Some((i, j)) = find_collision(&self.functions) {
            return Err(
                RlcError::Duplicate {
                    name: self.functions[i].name.clone(),
                    first: self.functions[i].position.clone(),
                    second: self.functions[j].position.clone(),
                },
            );
        }
        // Declared methods
        if let Some((i, j)) = find_collision(&self.declared_methods) {
            return Err(
                RlcError::Duplicate {
                    name: self.declared_methods[i].name.clone(),
                    first: self.declared_methods[i].position.clone(),
                    second: self.declared_methods[j].position.clone(),
                },
            );
        }
        Ok(())
    }

    // ----- Resolution -----
    /// Resolves the parameter types of the functions, in the order of the
    /// functions and of their parameters, and stops at the first type name
    /// that stands for nothing.
    pub fn resolve_parameters(&mut self) -> (r: Result<(), RlcError>)
        requires
            old(self).wf(),
        ensures
            final(self).wf(),
            final(self)@ == old(self)@.with_resolved_parameters(),
            outcome(r) == old(self)@.resolve_parameters_outcome(),
    {
        let ghost before = self@;
        let ghost names = before.type_names();
        let ghost stuck = Seq::new(
            before.functions.len(),
            |i: int| parameters_outcome(before.functions[i].parameters, before.imported, names) is Err,
        );
        proof {
            assert(names_of(self.types@) =~= names);
        }
        let n = self.functions.len();
        let mut i: usize = 0;
        while i < n
            invariant
                old(self).wf(),
                before == old(self)@,
                names == before.type_names(),
                names == names_of(self.types@),
                stuck == Seq::new(
                    before.functions.len(),
                    |i: int|
                        parameters_outcome(
                            before.functions[i].parameters,
                            before.imported,
                            names,
                        ) is Err,
                ),
                self.imported_model == old(self).imported_model,
                self.includes == old(self).includes,
                self.robots == old(self).robots,
                self.types == old(self).types,
                self.declared_methods == old(self).declared_methods,
                self.ros_calls == old(self).ros_calls,
                n == self.functions@.len(),
                n == before.functions.len(),
                i <= n,
                forall|m: int|
                    0 <= m < i ==> (#[trigger] self.functions@[m])@ == resolve_function_parameters(
                        before.functions[m],
                        before.imported,
                        names,
                    ),
                forall|m: int| 0 <= m < i ==> !stuck[m],
                forall|m: int| i <= m < n ==> (#[trigger] self.functions@[m])@ == before.functions[m],
            decreases n - i,
        {
            proof {
                assert forall|k: int| 0 <= k < self.types@.len() implies (
                #[trigger] self.types@[k])@.id == k by {
                    assert(before.types[k].id == k);
                }
            }
            let r = self.functions[i].resolve_parameters(&self.imported_model, &self.types);
            if let Err(e) = r {
                proof {
                    assert(stuck[i as int]);
                    lemma_first_set_is(stuck, i as int);
                    assert(self@.functions =~= before.with_resolved_parameters().functions);
                }
                return Err(e);
            }
            i += 1;
        }
        proof {
            lemma_first_set_is(stuck, n as int);
            assert(self@.functions =~= before.with_resolved_parameters().functions);
        }
        Ok(())
    }

    /// Binds the identifiers in the bodies of the functions, in the order of
    /// the functions, and stops at the first identifier that stands for
    /// nothing. Every identifier is looked up in a copy of the model that is
    /// taken before the first body is gone through.
    pub fn resolve_expr(&mut self) -> (r: Result<(), RlcError>)
        requires
            old(self).wf(),
        ensures
            final(self).wf(),
            final(self)@ == old(self)@.with_resolved_bodies(),
            outcome(r) == old(self)@.resolve_expr_outcome(),
    {
        let model = self.clone();
        let ghost before = self@;
        let ghost stuck = Seq::new(
            before.functions.len(),
            |i: int| body_outcome(before.functions[i], before) is Err,
        );
        let n = self.functions.len();
        let mut i: usize = 0;
        while i < n
            invariant
                old(self).wf(),
                model.wf(),
                model@ == before,
                before == old(self)@,
                stuck == Seq::new(
                    before.functions.len(),
                    |i: int| body_outcome(before.functions[i], before) is Err,
                ),
                self.imported_model == old(self).imported_model,
                self.includes == old(self).includes,
                self.robots == old(self).robots,
                self.types == old(self).types,
                self.declared_methods == old(self).declared_methods,
                self.ros_calls == old(self).ros_calls,
                n == self.functions@.len(),
                n == before.functions.len(),
                i <= n,
                forall|m: int|
                    0 <= m < i ==> (#[trigger] self.functions@[m])@ == resolve_function_body(
                        before.functions[m],
                        before,
                    ),
                forall|m: int| 0 <= m < i ==> !stuck[m],
                forall|m: int| i <= m < n ==> (#[trigger] self.functions@[m])@ == before.functions[m],
            decreases n - i,
        {
            let r = self.functions[i].resolve_expr(&model);
            if let Err(e) = r {
                proof {
                    assert(stuck[i as int]);
                    lemma_first_set_is(stuck, i as int);
                    assert(self@.functions =~= before.with_resolved_bodies().functions);
                }
                return Err(e);
            }
            i += 1;
        }
        proof {
            lemma_first_set_is(stuck, n as int);
            assert(self@.functions =~= before.with_resolved_bodies().functions);
        }
        Ok(())
    }

    /// Resolves the parameter types and then, where that succeeded, the
    /// identifiers in the function bodies.
    pub fn resolve(&mut self) -> (r: Result<(), RlcError>)
        requires
            old(self).wf(),
        ensures
            final(self).wf(),
            final(self)@ == old(self)@.resolved(),
            outcome(r) == old(self)@.resolve_outcome(),
    {
        if let Err(e) = self.resolve_parameters() {
            return Err(e);
        }
        self.resolve_expr()
    }

    // ----- Text -----
    /// The text of the model: the included files, the robots and the local
    /// types, one to a line and in the order in which they were added; an
    /// empty line; then the functions and the declared methods.
    pub fn to_string(&self) -> (s: String)
        ensures
            s@ == self@.text(),
    {
        proof {
            assert(Seq::new(
                self.includes@.len(),
                |i: int| crate::model::rendering::include_text(self.includes@[i]@),
            ) =~= self@.include_lines());
            assert(langs_of(self.robots@, self@) =~= self@.robot_lines());
            assert(langs_of(self.types@, self@) =~= self@.type_lines());
            assert(langs_of(self.functions@, self@) =~= self@.function_lines());
            assert(langs_of(self.declared_methods@, self@) =~= self@.declared_method_lines());
        }
        let mut s = includes_to_lang(&self.includes);
        let robots = lines_to_lang(&self.robots, self);
        s.append(robots.as_str());
        let types = lines_to_lang(&self.types, self);
        s.append(types.as_str());
        s.append("\n");
        let functions = lines_to_lang(&self.functions, self);
        s.append(functions.as_str());
        let declared_methods = lines_to_lang(&self.declared_methods, self);
        s.append(declared_methods.as_str());
        s
    }
}

} // verus!
