//! What resolution makes of a model.
//!
//! A type name is looked up among the local types, then among the types of
//! the imported model, then among its skillsets: a local type hides an
//! imported type of the same name, which hides a skillset of the same name.
//! An identifier of a function body is looked up among the parameters of its
//! function first, then among the functions of the model, then as a type name
//! is. Within one list the last declaration of a name is the one that is
//! found.
//!
//! Both passes go through the functions in their order and stop at the first
//! name that stands for nothing: what came before it stays resolved, what
//! comes after it is left as it was.

use crate::model::expr::ExprView;
use crate::model::function::{FunctionView, ParameterView};
use crate::model::imported::ImportedModelView;
use crate::model::model::ModelView;
use crate::model::names::{last_index_of, lemma_last_index_of};
use crate::model::typ::TypeView;
use crate::parser::error::RlcErrorView;
use crate::parser::position::PositionView;
use vstd::prelude::*;

verus! {

// ----- The first failure of a pass -----
/// The least index from `i` on at which `flags` is set.
pub open spec fn first_set_from(flags: Seq<bool>, i: int) -> Option<int>
    decreases flags.len() - i,
{
    if i < 0 || i >= flags.len() {
        None
    } else if flags[i] {
        Some(i)
    } else {
        first_set_from(flags, i + 1)
    }
}

/// The least index at which `flags` is set.
pub open spec fn first_set(flags: Seq<bool>) -> Option<int> {
    first_set_from(flags, 0)
}

/// How far a pass over `len` items gets: to its first failure, or to the end.
pub open spec fn reach(failure: Option<int>, len: nat) -> int {
    match failure {
        Some(k) => k,
        None => len as int,
    }
}

/// `first_set_from` finds the least index from `i` on at which `flags` is
/// set, and where it finds nothing there is none.
pub proof fn lemma_first_set_from(flags: Seq<bool>, i: int)
    requires
        0 <= i,
    ensures
        match first_set_from(flags, i) {
            Some(k) => i <= k < flags.len() && flags[k] && forall|m: int| i <= m < k ==> !flags[m],
            None => forall|m: int| i <= m < flags.len() ==> !flags[m],
        },
    decreases flags.len() - i,
{
    if i < flags.len() && !flags[i] {
        lemma_first_set_from(flags, i + 1);
    }
}

/// An index at which `flags` is set, with none set before it, is the one that
/// `first_set` finds; and where none is set, it finds none.
pub proof fn lemma_first_set_is(flags: Seq<bool>, k: int)
    requires
        0 <= k <= flags.len(),
        forall|m: int| 0 <= m < k ==> !flags[m],
        k < flags.len() ==> flags[k],
    ensures
        first_set(flags) == if k < flags.len() {
            Some(k)
        } else {
            None
        },
{
    lemma_first_set_from(flags, 0);
}

// ----- Types -----
/// What a type name stands for, if for anything.
pub open spec fn lookup_type(name: Seq<char>, imported: ImportedModelView, local: Seq<Seq<char>>)
    -> Option<TypeView> {
    match last_index_of(local, name) {
        Some(k) => Some(TypeView::LocalType(k as nat)),
        None => match last_index_of(imported.types, name) {
            Some(k) => Some(TypeView::ImportedType(k as nat)),
            None => match last_index_of(imported.skillsets, name) {
                Some(k) => Some(TypeView::Skillset(k as nat)),
                None => None,
            },
        },
    }
}

/// A type after resolution: a name that stands for something is replaced by
/// what it stands for; every other type stays as it is.
pub open spec fn resolve_type(t: TypeView, imported: ImportedModelView, local: Seq<Seq<char>>)
    -> TypeView {
    match t {
        TypeView::Unresolved(name, _) => match lookup_type(name, imported, local) {
            Some(r) => r,
            None => t,
        },
        _ => t,
    }
}

/// The type is a name that stands for nothing.
pub open spec fn type_is_stuck(t: TypeView, imported: ImportedModelView, local: Seq<Seq<char>>)
    -> bool {
    t matches TypeView::Unresolved(name, _) && lookup_type(name, imported, local) is None
}

/// How an error speaks of the type named `name`.
pub open spec fn type_element(name: Seq<char>) -> Seq<char> {
    "type '"@ + name + "'"@
}

/// The error for a type name that stands for nothing.
pub open spec fn type_error(t: TypeView) -> RlcErrorView {
    RlcErrorView::Resolve { element: type_element(t->Unresolved_0), position: t->Unresolved_1 }
}

/// A parameter with its type resolved.
pub open spec fn resolve_parameter(
    p: ParameterView,
    imported: ImportedModelView,
    local: Seq<Seq<char>>,
) -> ParameterView {
    ParameterView { typ: resolve_type(p.typ, imported, local), ..p }
}

/// The first of `params` whose type is a name that stands for nothing.
pub open spec fn first_stuck_parameter(
    params: Seq<ParameterView>,
    imported: ImportedModelView,
    local: Seq<Seq<char>>,
) -> Option<int> {
    first_set(Seq::new(params.len(), |j: int| type_is_stuck(params[j].typ, imported, local)))
}

/// The parameters as the pass leaves them: resolved up to the first failure.
pub open spec fn resolve_parameter_list(
    params: Seq<ParameterView>,
    imported: ImportedModelView,
    local: Seq<Seq<char>>,
) -> Seq<ParameterView> {
    let stop = reach(first_stuck_parameter(params, imported, local), params.len());
    Seq::new(
        params.len(),
        |j: int|
            if j < stop {
                resolve_parameter(params[j], imported, local)
            } else {
                params[j]
            },
    )
}

/// A function as the pass over its parameters leaves it.
pub open spec fn resolve_function_parameters(
    f: FunctionView,
    imported: ImportedModelView,
    local: Seq<Seq<char>>,
) -> FunctionView {
    FunctionView { parameters: resolve_parameter_list(f.parameters, imported, local), ..f }
}

/// How the pass over the parameters of one function ends.
pub open spec fn parameters_outcome(
    params: Seq<ParameterView>,
    imported: ImportedModelView,
    local: Seq<Seq<char>>,
) -> Result<(), RlcErrorView> {
    match first_stuck_parameter(params, imported, local) {
        Some(j) => Err(type_error(params[j].typ)),
        None => Ok(()),
    }
}

// ----- Identifiers -----
/// The names of `params`, in their order.
pub open spec fn parameter_names(params: Seq<ParameterView>) -> Seq<Seq<char>> {
    Seq::new(params.len(), |j: int| params[j].name)
}

/// What an identifier stands for in a function with parameters `params`, if
/// for anything.
pub open spec fn lookup_identifier(name: Seq<char>, params: Seq<ParameterView>, m: ModelView)
    -> Option<ExprView> {
    match last_index_of(parameter_names(params), name) {
        Some(k) => Some(ExprView::Parameter(k as nat)),
        None => match last_index_of(m.function_names(), name) {
            Some(k) => Some(ExprView::Function(k as nat)),
            None => match last_index_of(m.type_names(), name) {
                Some(k) => Some(ExprView::LocalType(k as nat)),
                None => match last_index_of(m.imported.types, name) {
                    Some(k) => Some(ExprView::ImportedType(k as nat)),
                    None => match last_index_of(m.imported.skillsets, name) {
                        Some(k) => Some(ExprView::Skillset(k as nat)),
                        None => None,
                    },
                },
            },
        },
    }
}

/// An expression after resolution: an identifier that stands for something is
/// replaced by what it stands for; every other expression stays as it is.
pub open spec fn resolve_expr(e: ExprView, params: Seq<ParameterView>, m: ModelView) -> ExprView {
    match e {
        ExprView::Unresolved(name, _) => match lookup_identifier(name, params, m) {
            Some(r) => r,
            None => e,
        },
        _ => e,
    }
}

/// The expression is an identifier that stands for nothing.
pub open spec fn expr_is_stuck(e: ExprView, params: Seq<ParameterView>, m: ModelView) -> bool {
    e matches ExprView::Unresolved(name, _) && lookup_identifier(name, params, m) is None
}

/// How an error speaks of the identifier `name`.
pub open spec fn identifier_element(name: Seq<char>) -> Seq<char> {
    "identifier '"@ + name + "'"@
}

/// The error for an identifier that stands for nothing.
pub open spec fn identifier_error(e: ExprView) -> RlcErrorView {
    RlcErrorView::Resolve {
        element: identifier_element(e->Unresolved_0),
        position: e->Unresolved_1,
    }
}

/// The first expression of `body` that is an identifier that stands for
/// nothing.
pub open spec fn first_stuck_expr(body: Seq<ExprView>, params: Seq<ParameterView>, m: ModelView)
    -> Option<int> {
    first_set(Seq::new(body.len(), |k: int| expr_is_stuck(body[k], params, m)))
}

/// The body as the pass leaves it: resolved up to the first failure.
pub open spec fn resolve_body(body: Seq<ExprView>, params: Seq<ParameterView>, m: ModelView)
    -> Seq<ExprView> {
    let stop = reach(first_stuck_expr(body, params, m), body.len());
    Seq::new(
        body.len(),
        |k: int|
            if k < stop {
                resolve_expr(body[k], params, m)
            } else {
                body[k]
            },
    )
}

/// A function as the pass over its body leaves it, where `m` is the model in
/// which its identifiers are looked up.
pub open spec fn resolve_function_body(f: FunctionView, m: ModelView) -> FunctionView {
    FunctionView { body: resolve_body(f.body, f.parameters, m), ..f }
}

/// How the pass over the body of one function ends.
pub open spec fn body_outcome(f: FunctionView, m: ModelView) -> Result<(), RlcErrorView> {
    match first_stuck_expr(f.body, f.parameters, m) {
        Some(k) => Err(identifier_error(f.body[k])),
        None => Ok(()),
    }
}

// ----- The model -----
impl ModelView {
    /// The first function with a parameter whose type stands for nothing.
    pub open spec fn first_stuck_signature(self) -> Option<int> {
        first_set(
            Seq::new(
                self.functions.len(),
                |i: int|
                    parameters_outcome(
                        self.functions[i].parameters,
                        self.imported,
                        self.type_names(),
                    ) is Err,
            ),
        )
    }

    /// The model as the pass over the parameter types leaves it: the
    /// functions up to the first failure have been gone through, the others
    /// are as they were.
    pub open spec fn with_resolved_parameters(self) -> ModelView {
        let stop = reach(self.first_stuck_signature(), self.functions.len());
        ModelView {
            functions: Seq::new(
                self.functions.len(),
                |i: int|
                    if i <= stop {
                        resolve_function_parameters(
                            self.functions[i],
                            self.imported,
                            self.type_names(),
                        )
                    } else {
                        self.functions[i]
                    },
            ),
            ..self
        }
    }

    /// How the pass over the parameter types ends.
    pub open spec fn resolve_parameters_outcome(self) -> Result<(), RlcErrorView> {
        match self.first_stuck_signature() {
            Some(i) => parameters_outcome(
                self.functions[i].parameters,
                self.imported,
                self.type_names(),
            ),
            None => Ok(()),
        }
    }

    /// The first function with an identifier in its body that stands for
    /// nothing.
    pub open spec fn first_stuck_body(self) -> Option<int> {
        first_set(
            Seq::new(self.functions.len(), |i: int| body_outcome(self.functions[i], self) is Err),
        )
    }

    /// The model as the pass over the function bodies leaves it. Every
    /// identifier is looked up in the model as it was before the pass.
    pub open spec fn with_resolved_bodies(self) -> ModelView {
        let stop = reach(self.first_stuck_body(), self.functions.len());
        ModelView {
            functions: Seq::new(
                self.functions.len(),
                |i: int|
                    if i <= stop {
                        resolve_function_body(self.functions[i], self)
                    } else {
                        self.functions[i]
                    },
            ),
            ..self
        }
    }

    /// How the pass over the function bodies ends.
    pub open spec fn resolve_expr_outcome(self) -> Result<(), RlcErrorView> {
        match self.first_stuck_body() {
            Some(i) => body_outcome(self.functions[i], self),
            None => Ok(()),
        }
    }

    /// The model as both passes leave it: the bodies are gone through only
    /// where every parameter type was resolved.
    pub open spec fn resolved(self) -> ModelView {
        if self.resolve_parameters_outcome() is Ok {
            self.with_resolved_parameters().with_resolved_bodies()
        } else {
            self.with_resolved_parameters()
        }
    }

    /// How the two passes end: with the error of the first that fails.
    pub open spec fn resolve_outcome(self) -> Result<(), RlcErrorView> {
        if self.resolve_parameters_outcome() is Ok {
            self.with_resolved_parameters().resolve_expr_outcome()
        } else {
            self.resolve_parameters_outcome()
        }
    }
}

// ----- Laws -----
/// The order of the three sources of type names: a local type is found
/// before an imported type, and an imported type before a skillset; what is
/// found is the last declaration of the name in its list; and a name that no
/// list holds stands for nothing.
pub proof fn lemma_lookup_type(name: Seq<char>, imported: ImportedModelView, local: Seq<Seq<char>>)
    ensures
        match lookup_type(name, imported, local) {
            Some(TypeView::LocalType(k)) => k < local.len() && local[k as int] == name
                && last_index_of(local, name) == Some(k as int),
            Some(TypeView::ImportedType(k)) => !local.contains(name) && k < imported.types.len()
                && imported.types[k as int] == name && last_index_of(imported.types, name) == Some(
                k as int,
            ),
            Some(TypeView::Skillset(k)) => !local.contains(name) && !imported.types.contains(name)
                && k < imported.skillsets.len() && imported.skillsets[k as int] == name
                && last_index_of(imported.skillsets, name) == Some(k as int),
            Some(_) => false,
            None => !local.contains(name) && !imported.types.contains(name)
                && !imported.skillsets.contains(name),
        },
{
    lemma_last_index_of(local, name);
    lemma_last_index_of(imported.types, name);
    lemma_last_index_of(imported.skillsets, name);
}

/// A name that an imported type and a skillset share, and no local type has,
/// resolves to the imported type.
pub proof fn lemma_imported_type_hides_skillset(
    name: Seq<char>,
    position: Option<PositionView>,
    imported: ImportedModelView,
    local: Seq<Seq<char>>,
)
    requires
        !local.contains(name),
        imported.types.contains(name),
        imported.skillsets.contains(name),
    ensures
        resolve_type(TypeView::Unresolved(name, position), imported, local) matches
            TypeView::ImportedType(k) && k < imported.types.len() && imported.types[k as int]
            == name,
{
    lemma_lookup_type(name, imported, local);
}

/// A name that a local type has resolves to the local type, whatever the
/// imported model holds.
pub proof fn lemma_local_type_hides_imported(
    name: Seq<char>,
    position: Option<PositionView>,
    imported: ImportedModelView,
    local: Seq<Seq<char>>,
)
    requires
        local.contains(name),
    ensures
        resolve_type(TypeView::Unresolved(name, position), imported, local) matches
            TypeView::LocalType(k) && k < local.len() && local[k as int] == name,
{
    lemma_lookup_type(name, imported, local);
}

/// A type name that none of the three sources holds is not resolved, and the
/// error for it carries the name and the place of the name.
pub proof fn lemma_unknown_type_is_an_error(
    name: Seq<char>,
    position: Option<PositionView>,
    imported: ImportedModelView,
    local: Seq<Seq<char>>,
)
    requires
        !local.contains(name),
        !imported.types.contains(name),
        !imported.skillsets.contains(name),
    ensures
        type_is_stuck(TypeView::Unresolved(name, position), imported, local),
        resolve_type(TypeView::Unresolved(name, position), imported, local)
            == TypeView::Unresolved(name, position),
        type_error(TypeView::Unresolved(name, position)) == (RlcErrorView::Resolve {
            element: type_element(name),
            position,
        }),
{
    lemma_lookup_type(name, imported, local);
}

/// Resolving a type twice gives what resolving it once gives, and a type is
/// left unresolved exactly where it is a name that stands for nothing.
pub proof fn lemma_resolve_type_is_idempotent(
    t: TypeView,
    imported: ImportedModelView,
    local: Seq<Seq<char>>,
)
    ensures
        resolve_type(resolve_type(t, imported, local), imported, local) == resolve_type(
            t,
            imported,
            local,
        ),
        resolve_type(t, imported, local) is Unresolved <==> type_is_stuck(t, imported, local),
        type_is_stuck(resolve_type(t, imported, local), imported, local) == type_is_stuck(
            t,
            imported,
            local,
        ),
        !(t is Unresolved) ==> resolve_type(t, imported, local) == t,
{
    if let TypeView::Unresolved(name, _) = t {
        lemma_lookup_type(name, imported, local);
    }
}

/// Going through a list of parameters a second time changes nothing and ends
/// as the first time did.
pub proof fn lemma_resolve_parameter_list_is_idempotent(
    params: Seq<ParameterView>,
    imported: ImportedModelView,
    local: Seq<Seq<char>>,
)
    ensures
        resolve_parameter_list(resolve_parameter_list(params, imported, local), imported, local)
            == resolve_parameter_list(params, imported, local),
        parameters_outcome(resolve_parameter_list(params, imported, local), imported, local)
            == parameters_outcome(params, imported, local),
        parameters_outcome(params, imported, local) is Ok ==> forall|j: int|
            0 <= j < params.len() ==> !(#[trigger] resolve_parameter_list(
                params,
                imported,
                local,
            )[j].typ is Unresolved),
{
    let once = resolve_parameter_list(params, imported, local);
    let flags = Seq::new(params.len(), |j: int| type_is_stuck(params[j].typ, imported, local));
    let flags_once = Seq::new(once.len(), |j: int| type_is_stuck(once[j].typ, imported, local));
    lemma_first_set_from(flags, 0);
    assert forall|j: int| 0 <= j < params.len() implies flags_once[j] == flags[j] by {
        lemma_resolve_type_is_idempotent(params[j].typ, imported, local);
    }
    assert(flags_once =~= flags);
    let twice = resolve_parameter_list(once, imported, local);
    assert forall|j: int| 0 <= j < params.len() implies twice[j] == once[j] by {
        lemma_resolve_type_is_idempotent(params[j].typ, imported, local);
    }
    assert(twice =~= once);
    if parameters_outcome(params, imported, local) is Ok {
        assert forall|j: int| 0 <= j < params.len() implies !(#[trigger] once[j].typ
            is Unresolved) by {
            lemma_resolve_type_is_idempotent(params[j].typ, imported, local);
            assert(!flags[j]);
        }
    }
}

/// Resolving the parameter types of a model a second time changes nothing
/// and ends as the first time did: what the pass leaves is a fixed point of
/// the pass.
pub proof fn lemma_resolve_parameters_is_idempotent(m: ModelView)
    ensures
        m.with_resolved_parameters().with_resolved_parameters() == m.with_resolved_parameters(),
        m.with_resolved_parameters().resolve_parameters_outcome()
            == m.resolve_parameters_outcome(),
{
    let once = m.with_resolved_parameters();
    let names = m.type_names();
    assert(once.type_names() =~= names);
    let flags = Seq::new(
        m.functions.len(),
        |i: int| parameters_outcome(m.functions[i].parameters, m.imported, names) is Err,
    );
    let flags_once = Seq::new(
        once.functions.len(),
        |i: int| parameters_outcome(once.functions[i].parameters, once.imported, names) is Err,
    );
    lemma_first_set_from(flags, 0);
    let stop = reach(m.first_stuck_signature(), m.functions.len());
    assert forall|i: int| 0 <= i < m.functions.len() implies flags_once[i] == flags[i] && (i
        <= stop ==> resolve_function_parameters(once.functions[i], m.imported, names)
        == once.functions[i]) && parameters_outcome(
        once.functions[i].parameters,
        m.imported,
        names,
    ) == parameters_outcome(m.functions[i].parameters, m.imported, names) by {
        lemma_resolve_parameter_list_is_idempotent(m.functions[i].parameters, m.imported, names);
    }
    assert(flags_once =~= flags);
    assert(once.first_stuck_signature() == m.first_stuck_signature());
    let twice = once.with_resolved_parameters();
    assert forall|i: int| 0 <= i < m.functions.len() implies twice.functions[i]
        == once.functions[i] by {
        if i <= stop {
            lemma_resolve_parameter_list_is_idempotent(
                m.functions[i].parameters,
                m.imported,
                names,
            );
            assert(once.functions[i] == resolve_function_parameters(
                m.functions[i],
                m.imported,
                names,
            ));
            assert(twice.functions[i] == resolve_function_parameters(
                once.functions[i],
                once.imported,
                once.type_names(),
            ));
        }
    }
    assert(twice.functions =~= once.functions);
}

/// Where the pass over the parameter types succeeds, it leaves no parameter
/// type unresolved, and the pass leaves names, places, bodies and handles as
/// they were.
pub proof fn lemma_resolved_parameters_are_resolved(m: ModelView)
    ensures
        m.with_resolved_parameters().functions.len() == m.functions.len(),
        forall|i: int|
            0 <= i < m.functions.len() ==> {
                let f = #[trigger] m.with_resolved_parameters().functions[i];
                &&& f.name == m.functions[i].name
                &&& f.position == m.functions[i].position
                &&& f.body == m.functions[i].body
                &&& f.id == m.functions[i].id
                &&& f.parameters.len() == m.functions[i].parameters.len()
            },
        m.resolve_parameters_outcome() is Ok ==> forall|i: int, j: int|
            0 <= i < m.functions.len() && 0 <= j < m.functions[i].parameters.len() ==> !(
            #[trigger] m.with_resolved_parameters().functions[i].parameters[j].typ is Unresolved),
{
    let names = m.type_names();
    let flags = Seq::new(
        m.functions.len(),
        |i: int| parameters_outcome(m.functions[i].parameters, m.imported, names) is Err,
    );
    lemma_first_set_from(flags, 0);
    if m.resolve_parameters_outcome() is Ok {
        assert(m.first_stuck_signature() is None) by {
            if m.first_stuck_signature() is Some {
                assert(flags[m.first_stuck_signature()->0]);
            }
        }
        assert forall|i: int, j: int|
            0 <= i < m.functions.len() && 0 <= j < m.functions[i].parameters.len() implies !(
        #[trigger] m.with_resolved_parameters().functions[i].parameters[j].typ is Unresolved) by {
            assert(!flags[i]);
            lemma_resolve_parameter_list_is_idempotent(
                m.functions[i].parameters,
                m.imported,
                names,
            );
        }
    }
}

/// The pass over the parameter types fails exactly where some parameter of
/// some function has a type name that none of the three sources holds, and
/// its error carries such a name, as written, with the place of the name.
pub proof fn lemma_resolve_parameters_fails_on_unknown_names(m: ModelView)
    ensures
        m.resolve_parameters_outcome() is Err <==> exists|i: int, j: int|
            0 <= i < m.functions.len() && 0 <= j < m.functions[i].parameters.len()
                && type_is_stuck(
                (#[trigger] m.functions[i].parameters[j]).typ,
                m.imported,
                m.type_names(),
            ),
        m.resolve_parameters_outcome() matches Err(e) ==> exists|i: int, j: int|
            {
                &&& 0 <= i < m.functions.len() && 0 <= j < m.functions[i].parameters.len()
                &&& (#[trigger] m.functions[i].parameters[j]).typ matches TypeView::Unresolved(
                    name,
                    position,
                )
                &&& !m.type_names().contains(name)
                &&& !m.imported.types.contains(name)
                &&& !m.imported.skillsets.contains(name)
                &&& e == (RlcErrorView::Resolve { element: type_element(name), position })
            },
{
    let names = m.type_names();
    let flags = Seq::new(
        m.functions.len(),
        |i: int| parameters_outcome(m.functions[i].parameters, m.imported, names) is Err,
    );
    lemma_first_set_from(flags, 0);
    match m.first_stuck_signature() {
        Some(i) => {
            assert(flags[i]);
            let ps = m.functions[i].parameters;
            let inner = Seq::new(ps.len(), |j: int| type_is_stuck(ps[j].typ, m.imported, names));
            lemma_first_set_from(inner, 0);
            let j = first_stuck_parameter(ps, m.imported, names)->0;
            assert(inner[j]);
            assert(type_is_stuck(m.functions[i].parameters[j].typ, m.imported, names));
            lemma_lookup_type(ps[j].typ->Unresolved_0, m.imported, names);
        },
        None => {
            assert forall|i: int, j: int|
                0 <= i < m.functions.len() && 0 <= j < m.functions[i].parameters.len()
                implies !type_is_stuck(
                (#[trigger] m.functions[i].parameters[j]).typ,
                m.imported,
                names,
            ) by {
                assert(!flags[i]);
                let ps = m.functions[i].parameters;
                let inner = Seq::new(
                    ps.len(),
                    |j: int| type_is_stuck(ps[j].typ, m.imported, names),
                );
                lemma_first_set_from(inner, 0);
                assert(!inner[j]);
            }
        },
    }
}

/// The order of the sources of identifiers: a parameter of the function is
/// found before a function of the model, a function before a local type, and
/// from there on as for type names; what is found is the last declaration of
/// the name in its list; and a name that no list holds stands for nothing.
pub proof fn lemma_lookup_identifier(name: Seq<char>, params: Seq<ParameterView>, m: ModelView)
    ensures
        match lookup_identifier(name, params, m) {
            Some(ExprView::Parameter(k)) => k < params.len() && params[k as int].name == name,
            Some(ExprView::Function(k)) => !parameter_names(params).contains(name) && k
                < m.functions.len() && m.functions[k as int].name == name,
            Some(ExprView::LocalType(k)) => !parameter_names(params).contains(name)
                && !m.function_names().contains(name) && k < m.types.len() && m.types[k as int].name
                == name,
            Some(ExprView::ImportedType(k)) => !parameter_names(params).contains(name)
                && !m.function_names().contains(name) && !m.type_names().contains(name) && k
                < m.imported.types.len() && m.imported.types[k as int] == name,
            Some(ExprView::Skillset(k)) => !parameter_names(params).contains(name)
                && !m.function_names().contains(name) && !m.type_names().contains(name)
                && !m.imported.types.contains(name) && k < m.imported.skillsets.len()
                && m.imported.skillsets[k as int] == name,
            Some(ExprView::Unresolved(_, _)) => false,
            None => !parameter_names(params).contains(name) && !m.function_names().contains(name)
                && !m.type_names().contains(name) && !m.imported.types.contains(name)
                && !m.imported.skillsets.contains(name),
        },
{
    lemma_last_index_of(parameter_names(params), name);
    lemma_last_index_of(m.function_names(), name);
    lemma_last_index_of(m.type_names(), name);
    lemma_last_index_of(m.imported.types, name);
    lemma_last_index_of(m.imported.skillsets, name);
}

/// The pass over the bodies fails exactly where some function uses an
/// identifier that stands for nothing; where it succeeds, it leaves no
/// identifier unbound; and it leaves names, places, parameters and handles as
/// they were.
pub proof fn lemma_resolved_bodies_are_bound(m: ModelView)
    ensures
        m.with_resolved_bodies().functions.len() == m.functions.len(),
        forall|i: int|
            0 <= i < m.functions.len() ==> {
                let f = #[trigger] m.with_resolved_bodies().functions[i];
                &&& f.name == m.functions[i].name
                &&& f.position == m.functions[i].position
                &&& f.parameters == m.functions[i].parameters
                &&& f.id == m.functions[i].id
                &&& f.body.len() == m.functions[i].body.len()
            },
        m.resolve_expr_outcome() is Err <==> exists|i: int, k: int|
            0 <= i < m.functions.len() && 0 <= k < m.functions[i].body.len() && expr_is_stuck(
                #[trigger] m.functions[i].body[k],
                m.functions[i].parameters,
                m,
            ),
        m.resolve_expr_outcome() is Ok ==> forall|i: int, k: int|
            0 <= i < m.functions.len() && 0 <= k < m.functions[i].body.len() ==> !(
            #[trigger] m.with_resolved_bodies().functions[i].body[k] is Unresolved),
{
    let flags = Seq::new(m.functions.len(), |i: int| body_outcome(m.functions[i], m) is Err);
    lemma_first_set_from(flags, 0);
    match m.first_stuck_body() {
        Some(i) => {
            assert(flags[i]);
            let f = m.functions[i];
            let inner = Seq::new(f.body.len(), |k: int| expr_is_stuck(f.body[k], f.parameters, m));
            lemma_first_set_from(inner, 0);
            let k = first_stuck_expr(f.body, f.parameters, m)->0;
            assert(inner[k]);
            assert(expr_is_stuck(m.functions[i].body[k], m.functions[i].parameters, m));
        },
        None => {
            assert forall|i: int, k: int|
                0 <= i < m.functions.len() && 0 <= k < m.functions[i].body.len() implies !expr_is_stuck(
                #[trigger] m.functions[i].body[k],
                m.functions[i].parameters,
                m,
            ) by {
                assert(!flags[i]);
                let f = m.functions[i];
                let inner = Seq::new(
                    f.body.len(),
                    |k: int| expr_is_stuck(f.body[k], f.parameters, m),
                );
                lemma_first_set_from(inner, 0);
                assert(!inner[k]);
            }
            assert forall|i: int, k: int|
                0 <= i < m.functions.len() && 0 <= k < m.functions[i].body.len() implies !(
            #[trigger] m.with_resolved_bodies().functions[i].body[k] is Unresolved) by {
                assert(!flags[i]);
                let f = m.functions[i];
                let inner = Seq::new(
                    f.body.len(),
                    |k: int| expr_is_stuck(f.body[k], f.parameters, m),
                );
                lemma_first_set_from(inner, 0);
                assert(!inner[k]);
                if let ExprView::Unresolved(name, _) = f.body[k] {
                    lemma_lookup_identifier(name, f.parameters, m);
                }
            }
        },
    }
}

/// Two models in which identifiers are looked up alike: they declare
/// functions and local types of the same names and import the same model.
pub open spec fn same_names(a: ModelView, b: ModelView) -> bool {
    &&& a.function_names() == b.function_names()
    &&& a.type_names() == b.type_names()
    &&& a.imported == b.imported
}

/// The pass over a body depends on the model only through the names in which
/// identifiers are looked up.
pub proof fn lemma_body_pass_depends_on_names(f: FunctionView, a: ModelView, b: ModelView)
    requires
        same_names(a, b),
    ensures
        resolve_function_body(f, a) == resolve_function_body(f, b),
        body_outcome(f, a) == body_outcome(f, b),
{
    let flags_a = Seq::new(f.body.len(), |k: int| expr_is_stuck(f.body[k], f.parameters, a));
    let flags_b = Seq::new(f.body.len(), |k: int| expr_is_stuck(f.body[k], f.parameters, b));
    assert(flags_a =~= flags_b);
    assert(resolve_body(f.body, f.parameters, a) =~= resolve_body(f.body, f.parameters, b));
}

/// Binding an identifier twice gives what binding it once gives, and an
/// identifier is left unbound exactly where it stands for nothing.
pub proof fn lemma_resolve_expr_is_idempotent(
    e: ExprView,
    params: Seq<ParameterView>,
    m: ModelView,
)
    ensures
        resolve_expr(resolve_expr(e, params, m), params, m) == resolve_expr(e, params, m),
        resolve_expr(e, params, m) is Unresolved <==> expr_is_stuck(e, params, m),
        expr_is_stuck(resolve_expr(e, params, m), params, m) == expr_is_stuck(e, params, m),
        !(e is Unresolved) ==> resolve_expr(e, params, m) == e,
{
    if let ExprView::Unresolved(name, _) = e {
        lemma_lookup_identifier(name, params, m);
    }
}

/// Going through a body a second time changes nothing and ends as the first
/// time did.
pub proof fn lemma_resolve_body_is_idempotent(f: FunctionView, m: ModelView)
    ensures
        resolve_function_body(resolve_function_body(f, m), m) == resolve_function_body(f, m),
        body_outcome(resolve_function_body(f, m), m) == body_outcome(f, m),
{
    let params = f.parameters;
    let once = resolve_body(f.body, params, m);
    let flags = Seq::new(f.body.len(), |k: int| expr_is_stuck(f.body[k], params, m));
    let flags_once = Seq::new(once.len(), |k: int| expr_is_stuck(once[k], params, m));
    lemma_first_set_from(flags, 0);
    assert forall|k: int| 0 <= k < f.body.len() implies flags_once[k] == flags[k] by {
        lemma_resolve_expr_is_idempotent(f.body[k], params, m);
    }
    assert(flags_once =~= flags);
    let twice = resolve_body(once, params, m);
    assert forall|k: int| 0 <= k < f.body.len() implies twice[k] == once[k] by {
        lemma_resolve_expr_is_idempotent(f.body[k], params, m);
    }
    assert(twice =~= once);
}

/// Going through the bodies of a model a second time changes nothing and
/// ends as the first time did.
pub proof fn lemma_resolve_bodies_is_idempotent(m: ModelView)
    ensures
        m.with_resolved_bodies().with_resolved_bodies() == m.with_resolved_bodies(),
        m.with_resolved_bodies().resolve_expr_outcome() == m.resolve_expr_outcome(),
        same_names(m.with_resolved_bodies(), m),
{
    let once = m.with_resolved_bodies();
    assert(once.function_names() =~= m.function_names());
    assert(once.type_names() =~= m.type_names());
    let flags = Seq::new(m.functions.len(), |i: int| body_outcome(m.functions[i], m) is Err);
    let flags_once = Seq::new(
        once.functions.len(),
        |i: int| body_outcome(once.functions[i], once) is Err,
    );
    lemma_first_set_from(flags, 0);
    let stop = reach(m.first_stuck_body(), m.functions.len());
    assert forall|i: int| 0 <= i < m.functions.len() implies flags_once[i] == flags[i]
        && body_outcome(once.functions[i], once) == body_outcome(m.functions[i], m) by {
        lemma_body_pass_depends_on_names(once.functions[i], once, m);
        lemma_resolve_body_is_idempotent(m.functions[i], m);
    }
    assert(flags_once =~= flags);
    assert(once.first_stuck_body() == m.first_stuck_body());
    let twice = once.with_resolved_bodies();
    assert forall|i: int| 0 <= i < m.functions.len() implies twice.functions[i]
        == once.functions[i] by {
        if i <= stop {
            lemma_body_pass_depends_on_names(once.functions[i], once, m);
            lemma_resolve_body_is_idempotent(m.functions[i], m);
        }
    }
    assert(twice.functions =~= once.functions);
}

/// Resolving a model a second time changes nothing and ends as the first
/// time did: what resolution leaves is a fixed point of resolution.
pub proof fn lemma_resolve_is_idempotent(m: ModelView)
    ensures
        m.resolved().resolved() == m.resolved(),
        m.resolved().resolve_outcome() == m.resolve_outcome(),
{
    let typed = m.with_resolved_parameters();
    lemma_resolve_parameters_is_idempotent(m);
    if m.resolve_parameters_outcome() is Ok {
        let bound = typed.with_resolved_bodies();
        lemma_resolve_bodies_is_idempotent(typed);
        lemma_resolved_bodies_are_bound(typed);
        // the pass over the bodies leaves the parameters as they were
        let names = typed.type_names();
        assert(bound.type_names() =~= names);
        let flags = Seq::new(
            typed.functions.len(),
            |i: int| parameters_outcome(typed.functions[i].parameters, typed.imported, names) is Err,
        );
        let flags_bound = Seq::new(
            bound.functions.len(),
            |i: int| parameters_outcome(bound.functions[i].parameters, bound.imported, names) is Err,
        );
        lemma_first_set_from(flags, 0);
        assert(flags_bound =~= flags);
        assert(typed.first_stuck_signature() is None) by {
            if typed.first_stuck_signature() is Some {
                assert(flags[typed.first_stuck_signature()->0]);
            }
        }
        assert(bound.first_stuck_signature() == typed.first_stuck_signature());
        let again = bound.with_resolved_parameters();
        assert forall|i: int| 0 <= i < bound.functions.len() implies again.functions[i]
            == bound.functions[i] by {
            assert(typed.with_resolved_parameters().functions[i] == typed.functions[i]);
            assert(bound.functions[i].parameters == typed.functions[i].parameters);
            assert(resolve_function_parameters(typed.functions[i], typed.imported, names)
                == typed.functions[i]);
        }
        assert(again.functions =~= bound.functions);
        assert(again == bound);
    }
}

} // verus!
