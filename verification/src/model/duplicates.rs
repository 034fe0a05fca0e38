//! What counts as a duplicate in a model, and which one is reported.
//!
//! The namespaces are checked in a fixed order: included files, robots, local
//! types among themselves, local types against the types of the imported
//! model, functions, declared methods. The first namespace that holds a
//! duplicate decides the error, and within it the first pair that a pairwise
//! scan meets.

use crate::model::model::ModelView;
use crate::model::names::{
    collide, first_collision, first_shadowing, has_collision, lemma_first_collision,
    lemma_first_shadowing_from, shadows,
};
use crate::parser::error::RlcErrorView;
use crate::parser::position::PositionView;
use vstd::prelude::*;

verus! {

/// The error for the first two equal names of a namespace, with the places of
/// both declarations.
pub open spec fn duplicate_among(
    names: Seq<Seq<char>>,
    positions: Seq<Option<PositionView>>,
) -> Option<RlcErrorView> {
    match first_collision(names) {
        Some(p) => Some(
            RlcErrorView::Duplicate {
                name: names[p.0],
                first: positions[p.0],
                second: positions[p.1],
            },
        ),
        None => None,
    }
}

impl ModelView {
    /// The names of the robots, in the order of their handles.
    pub open spec fn robot_names(self) -> Seq<Seq<char>> {
        Seq::new(self.robots.len(), |i: int| self.robots[i].name)
    }

    /// The places of the robots, in the order of their handles.
    pub open spec fn robot_positions(self) -> Seq<Option<PositionView>> {
        Seq::new(self.robots.len(), |i: int| self.robots[i].position)
    }

    /// The names of the local types, in the order of their handles.
    pub open spec fn type_names(self) -> Seq<Seq<char>> {
        Seq::new(self.types.len(), |i: int| self.types[i].name)
    }

    /// The places of the local types, in the order of their handles.
    pub open spec fn type_positions(self) -> Seq<Option<PositionView>> {
        Seq::new(self.types.len(), |i: int| self.types[i].position)
    }

    /// The names of the functions, in the order of their handles.
    pub open spec fn function_names(self) -> Seq<Seq<char>> {
        Seq::new(self.functions.len(), |i: int| self.functions[i].name)
    }

    /// The places of the functions, in the order of their handles.
    pub open spec fn function_positions(self) -> Seq<Option<PositionView>> {
        Seq::new(self.functions.len(), |i: int| self.functions[i].position)
    }

    /// The names of the declared methods, in the order of their handles.
    pub open spec fn declared_method_names(self) -> Seq<Seq<char>> {
        Seq::new(self.declared_methods.len(), |i: int| self.declared_methods[i].name)
    }

    /// The places of the declared methods, in the order of their handles.
    pub open spec fn declared_method_positions(self) -> Seq<Option<PositionView>> {
        Seq::new(self.declared_methods.len(), |i: int| self.declared_methods[i].position)
    }

    /// The error for the first file that is included twice.
    pub open spec fn duplicate_include(self) -> Option<RlcErrorView> {
        match first_collision(self.includes) {
            Some(p) => Some(RlcErrorView::DuplInclude { name: self.includes[p.0] }),
            None => None,
        }
    }

    /// The error for the first local type that is printed as a type of the
    /// imported model is, which is to say that has its name. It carries no
    /// place.
    pub open spec fn shadowed_type(self) -> Option<RlcErrorView> {
        match first_shadowing(self.type_names(), self.imported.types) {
            Some(i) => Some(RlcErrorView::DuplType { name: self.type_names()[i] }),
            None => None,
        }
    }

    /// What the duplicate check answers: the error of the first namespace, in
    /// the order in which they are checked, that holds a duplicate.
    pub open spec fn duplicate(self) -> Result<(), RlcErrorView> {
        let found = earlier(
            self.duplicate_include(),
            earlier(
                duplicate_among(self.robot_names(), self.robot_positions()),
                earlier(
                    duplicate_among(self.type_names(), self.type_positions()),
                    earlier(
                        self.shadowed_type(),
                        earlier(
                            duplicate_among(self.function_names(), self.function_positions()),
                            duplicate_among(
                                self.declared_method_names(),
                                self.declared_method_positions(),
                            ),
                        ),
                    ),
                ),
            ),
        );
        match found {
            Some(e) => Err(e),
            None => Ok(()),
        }
    }

    /// No namespace holds a name twice, and no local type has the name of an
    /// imported type.
    pub open spec fn names_are_unique(self) -> bool {
        &&& !has_collision(self.includes)
        &&& !has_collision(self.robot_names())
        &&& !has_collision(self.type_names())
        &&& forall|i: int| !shadows(self.type_names(), self.imported.types, i)
        &&& !has_collision(self.function_names())
        &&& !has_collision(self.declared_method_names())
    }
}

/// The error of the check that is made first, or else that of the later one.
pub open spec fn earlier(first: Option<RlcErrorView>, later: Option<RlcErrorView>) -> Option<
    RlcErrorView,
> {
    match first {
        Some(e) => Some(e),
        None => later,
    }
}

/// Two equal names are found whichever of them stands first.
pub proof fn lemma_equal_names_collide(names: Seq<Seq<char>>, i: int, j: int)
    requires
        0 <= i < names.len(),
        0 <= j < names.len(),
        i != j,
        names[i] == names[j],
    ensures
        has_collision(names),
        first_collision(names) matches Some(p) && collide(names, p.0, p.1) && ((forall|
            a: int,
            b: int,
        | collide(names, a, b) ==> names[a] == names[i]) ==> names[p.0] == names[i]),
{
    if i < j {
        assert(collide(names, i, j));
    } else {
        assert(collide(names, j, i));
    }
    lemma_first_collision(names);
}

/// The duplicate check succeeds exactly on the models in which no namespace
/// holds a name twice and no local type has the name of an imported type.
pub proof fn lemma_duplicate_succeeds_iff_unique(m: ModelView)
    ensures
        m.duplicate() is Ok <==> m.names_are_unique(),
{
    lemma_first_collision(m.includes);
    lemma_first_collision(m.robot_names());
    lemma_first_collision(m.type_names());
    lemma_first_shadowing_from(m.type_names(), m.imported.types, 0);
    lemma_first_collision(m.function_names());
    lemma_first_collision(m.declared_method_names());
}

/// A model with no declaration and no included file passes the duplicate
/// check, whatever it imports.
pub proof fn lemma_empty_model_has_no_duplicate(m: ModelView)
    requires
        m.includes.len() == 0,
        m.robots.len() == 0,
        m.types.len() == 0,
        m.functions.len() == 0,
        m.declared_methods.len() == 0,
    ensures
        m.duplicate() is Ok,
{
    lemma_duplicate_succeeds_iff_unique(m);
}

/// The error of the duplicate check names a name that is in fact held twice:
/// by two included files, by two declarations of one namespace, whose places
/// it carries in the order of the declarations, or by a local type and a type
/// of the imported model.
pub proof fn lemma_duplicate_names_a_shared_name(m: ModelView)
    ensures
        match m.duplicate() {
            Ok(_) => true,
            Err(RlcErrorView::DuplInclude { name }) => exists|i: int, j: int|
                collide(m.includes, i, j) && m.includes[i] == name,
            Err(RlcErrorView::Duplicate { name, first, second }) => exists|i: int, j: int|
                {
                    ||| (collide(m.robot_names(), i, j) && m.robots[i].name == name
                        && m.robots[i].position == first && m.robots[j].position == second)
                    ||| (collide(m.type_names(), i, j) && m.types[i].name == name
                        && m.types[i].position == first && m.types[j].position == second)
                    ||| (collide(m.function_names(), i, j) && m.functions[i].name == name
                        && m.functions[i].position == first && m.functions[j].position == second)
                    ||| (collide(m.declared_method_names(), i, j) && m.declared_methods[i].name
                        == name && m.declared_methods[i].position == first
                        && m.declared_methods[j].position == second)
                },
            Err(RlcErrorView::DuplType { name }) => exists|i: int|
                shadows(m.type_names(), m.imported.types, i) && m.types[i].name == name,
            Err(RlcErrorView::Resolve { .. }) => false,
        },
{
    lemma_first_collision(m.includes);
    lemma_first_collision(m.robot_names());
    lemma_first_collision(m.type_names());
    lemma_first_shadowing_from(m.type_names(), m.imported.types, 0);
    lemma_first_collision(m.function_names());
    lemma_first_collision(m.declared_method_names());
    if m.duplicate_include() is Some {
        let p = first_collision(m.includes)->0;
        assert(collide(m.includes, p.0, p.1));
    } else if first_collision(m.robot_names()) is Some {
        let p = first_collision(m.robot_names())->0;
        assert(collide(m.robot_names(), p.0, p.1));
    } else if first_collision(m.type_names()) is Some {
        let p = first_collision(m.type_names())->0;
        assert(collide(m.type_names(), p.0, p.1));
    } else if first_shadowing(m.type_names(), m.imported.types) is Some {
        let i = first_shadowing(m.type_names(), m.imported.types)->0;
        assert(shadows(m.type_names(), m.imported.types, i));
    } else if first_collision(m.function_names()) is Some {
        let p = first_collision(m.function_names())->0;
        assert(collide(m.function_names(), p.0, p.1));
    } else if first_collision(m.declared_method_names()) is Some {
        let p = first_collision(m.declared_method_names())->0;
        assert(collide(m.declared_method_names(), p.0, p.1));
    }
}

/// The name that an error of the duplicate check carries.
pub open spec fn reported_name(e: RlcErrorView) -> Option<Seq<char>> {
    match e {
        RlcErrorView::DuplInclude { name } => Some(name),
        RlcErrorView::Duplicate { name, .. } => Some(name),
        RlcErrorView::DuplType { name } => Some(name),
        RlcErrorView::Resolve { .. } => None,
    }
}

/// Where `name` is the only name that a model holds twice, in whichever
/// namespace and in whichever order its holders were added, the duplicate
/// check fails with an error that carries `name`.
pub proof fn lemma_duplicate_reports_the_shared_name(m: ModelView, name: Seq<char>)
    requires
        !m.names_are_unique(),
        forall|i: int, j: int| collide(m.includes, i, j) ==> m.includes[i] == name,
        forall|i: int, j: int| collide(m.robot_names(), i, j) ==> m.robots[i].name == name,
        forall|i: int, j: int| collide(m.type_names(), i, j) ==> m.types[i].name == name,
        forall|i: int| shadows(m.type_names(), m.imported.types, i) ==> m.types[i].name == name,
        forall|i: int, j: int| collide(m.function_names(), i, j) ==> m.functions[i].name == name,
        forall|i: int, j: int|
            collide(m.declared_method_names(), i, j) ==> m.declared_methods[i].name == name,
    ensures
        m.duplicate() matches Err(e) && reported_name(e) == Some(name),
{
    lemma_duplicate_succeeds_iff_unique(m);
    lemma_duplicate_names_a_shared_name(m);
}

/// In a model that passes the duplicate check no name is both that of a
/// local type and that of a type of the imported model, and no two local
/// types share a name: a type name can then stand for one local type at most,
/// and for an imported type only where no local type has the name.
pub proof fn lemma_checked_model_has_no_shadowed_type(m: ModelView, name: Seq<char>)
    requires
        m.duplicate() is Ok,
    ensures
        !(m.type_names().contains(name) && m.imported.types.contains(name)),
        forall|i: int, j: int|
            0 <= i < m.types.len() && 0 <= j < m.types.len() && m.types[i].name == name
                && m.types[j].name == name ==> i == j,
{
    lemma_duplicate_succeeds_iff_unique(m);
    let names = m.type_names();
    if names.contains(name) && m.imported.types.contains(name) {
        let i = choose|i: int| 0 <= i < names.len() && names[i] == name;
        assert(shadows(names, m.imported.types, i));
    }
    assert forall|i: int, j: int|
        0 <= i < m.types.len() && 0 <= j < m.types.len() && m.types[i].name == name
            && m.types[j].name == name implies i == j by {
        if i < j {
            assert(collide(names, i, j));
        } else if j < i {
            assert(collide(names, j, i));
        }
    }
}

} // verus!
