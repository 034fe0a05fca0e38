//! Functions: a name, parameters and a body.

use crate::model::expr::{Expr, ExprView};
use crate::model::imported::ImportedModel;
use crate::model::model::{Model, ModelView};
use crate::model::rendering::{
    body_text, function_text, lemma_body_text_step, lemma_parameters_text_step, parameter_text,
    parameters_text, signature_text, ToLang,
};
use crate::model::names::{find_last, names_of, Named};
use crate::model::resolution::{
    body_outcome, expr_is_stuck, lemma_first_set_is, lookup_identifier, lookup_type,
    parameter_names, parameters_outcome, resolve_expr, resolve_function_body,
    resolve_function_parameters, resolve_parameter, type_is_stuck,
};
use crate::model::rlc_type::RlcType;
use crate::model::typ::{Type, TypeView};
use crate::parser::error::{outcome, RlcError};
use crate::parser::position::{Position, PositionView};
use vstd::prelude::*;
use vstd::string::StringExecFns;

verus! {

/// Handle of a function: its index in the model's store of functions.
#[derive(Clone, Copy, Debug, PartialEq, Eq, Hash, Structural)]
pub struct FunctionId(pub usize);

impl FunctionId {
    pub fn index(&self) -> (i: usize)
        ensures
            i == self.0,
    {
        self.0
    }
}

/// Handle of a parameter: its index among the parameters of its function.
#[derive(Clone, Copy, Debug, PartialEq, Eq, Hash, Structural)]
pub struct ParameterId(pub usize);

impl ParameterId {
    pub fn index(&self) -> (i: usize)
        ensures
            i == self.0,
    {
        self.0
    }
}

/// A parameter of a function or of a declared method.
#[derive(Debug, PartialEq, Eq)]
pub struct Parameter {
    pub(crate) name: String,
    pub(crate) typ: Type,
}

/// The mathematical value of a [`Parameter`].
pub struct ParameterView {
    pub name: Seq<char>,
    pub typ: TypeView,
}

impl View for Parameter {
    type V = ParameterView;

    open(crate) spec fn view(&self) -> ParameterView {
        ParameterView { name: self.name@, typ: self.typ@ }
    }
}

impl DeepView for Parameter {
    type V = ParameterView;

    open spec fn deep_view(&self) -> ParameterView {
        self.view()
    }
}

impl Named for Parameter {
    open spec fn name_view(&self) -> Seq<char> {
        self@.name
    }

    fn name_string(&self) -> (n: &String) {
        &self.name
    }
}

impl Clone for Parameter {
    fn clone(&self) -> (r: Self)
        ensures
            r == *self,
    {
        Parameter { name: self.name.clone(), typ: self.typ.clone() }
    }
}

impl Parameter {
    pub fn new(name: &str, typ: Type) -> (r: Self)
        ensures
            r@ == (ParameterView { name: name@, typ: typ@ }),
    {
        Parameter { name: String::from_str(name), typ }
    }

    pub fn name(&self) -> (n: &str)
        ensures
            n@ == self@.name,
    {
        self.name.as_str()
    }

    pub fn typ(&self) -> (t: &Type)
        ensures
            t@ == self@.typ,
    {
        &self.typ
    }

    pub fn set_type(&mut self, typ: Type)
        ensures
            final(self)@ == (ParameterView { typ: typ@, ..old(self)@ }),
    {
        self.typ = typ;
    }
}

/// A function with its body.
#[derive(Debug, PartialEq, Eq)]
pub struct Function {
    pub(crate) name: String,
    pub(crate) position: Option<Position>,
    pub(crate) parameters: Vec<Parameter>,
    pub(crate) body: Vec<Expr>,
    pub(crate) id: FunctionId,
}

/// The mathematical value of a [`Function`].
pub struct FunctionView {
    pub name: Seq<char>,
    pub position: Option<PositionView>,
    pub parameters: Seq<ParameterView>,
    pub body: Seq<ExprView>,
    pub id: nat,
}

impl View for Function {
    type V = FunctionView;

    open(crate) spec fn view(&self) -> FunctionView {
        FunctionView {
            name: self.name@,
            position: self.position.deep_view(),
            parameters: self.parameters.deep_view(),
            body: self.body.deep_view(),
            id: self.id.0 as nat,
        }
    }
}

impl DeepView for Function {
    type V = FunctionView;

    open spec fn deep_view(&self) -> FunctionView {
        self.view()
    }
}

impl Named for Function {
    open spec fn name_view(&self) -> Seq<char> {
        self@.name
    }

    fn name_string(&self) -> (n: &String) {
        &self.name
    }
}

impl Clone for Function {
    fn clone(&self) -> (r: Self)
        ensures
            r@ == self@,
    {
        let r = Function {
            name: self.name.clone(),
            position: self.position.clone(),
            parameters: self.parameters.clone(),
            body: self.body.clone(),
            id: self.id,
        };
        assert(r.parameters.deep_view() =~= self.parameters.deep_view());
        assert(r.body.deep_view() =~= self.body.deep_view());
        r
    }
}

impl Function {
    /// A function that no model holds yet; its handle is set when it is added.
    pub fn new(
        name: &str,
        parameters: Vec<Parameter>,
        body: Vec<Expr>,
        position: Option<Position>,
    ) -> (r: Self)
        ensures
            r@ == (FunctionView {
                name: name@,
                position: position.deep_view(),
                parameters: parameters.deep_view(),
                body: body.deep_view(),
                id: 0,
            }),
    {
        Function { name: String::from_str(name), position, parameters, body, id: FunctionId(0) }
    }

    pub fn name(&self) -> (n: &str)
        ensures
            n@ == self@.name,
    {
        self.name.as_str()
    }

    pub fn position(&self) -> (p: &Option<Position>)
        ensures
            p.deep_view() == self@.position,
    {
        &self.position
    }

    pub fn id(&self) -> (id: FunctionId)
        ensures
            id.0 == self@.id,
    {
        self.id
    }

    pub fn set_id(&mut self, id: FunctionId)
        ensures
            final(self)@ == (FunctionView { id: id.0 as nat, ..old(self)@ }),
    {
        self.id = id;
    }

    pub fn parameters(&self) -> (p: &Vec<Parameter>)
        ensures
            p.deep_view() == self@.parameters,
    {
        &self.parameters
    }

    pub fn body(&self) -> (b: &Vec<Expr>)
        ensures
            b.deep_view() == self@.body,
    {
        &self.body
    }

    /// Resolves the types of the parameters, in their order, against the
    /// imported model and the local types, and stops at the first type name
    /// that stands for nothing.
    pub fn resolve_parameters(&mut self, imported: &ImportedModel, local: &Vec<RlcType>) -> (r:
        Result<(), RlcError>)
        requires
            imported.wf(),
            forall|i: int| 0 <= i < local@.len() ==> (#[trigger] local@[i])@.id == i,
        ensures
            final(self)@ == resolve_function_parameters(old(self)@, imported@, names_of(local@)),
            outcome(r) == parameters_outcome(old(self)@.parameters, imported@, names_of(local@)),
    {
        let ghost before = self@.parameters;
        let ghost names = names_of(local@);
        let ghost stuck = Seq::new(
            before.len(),
            |j: int| type_is_stuck(before[j].typ, imported@, names),
        );
        let n = self.parameters.len();
        let mut j: usize = 0;
        while j < n
            invariant
                imported.wf(),
                forall|i: int| 0 <= i < local@.len() ==> (#[trigger] local@[i])@.id == i,
                names == names_of(local@),
                before == old(self)@.parameters,
                stuck == Seq::new(
                    before.len(),
                    |j: int| type_is_stuck(before[j].typ, imported@, names),
                ),
                self.name == old(self).name,
                self.position == old(self).position,
                self.body == old(self).body,
                self.id == old(self).id,
                n == self.parameters@.len(),
                n == before.len(),
                j <= n,
                forall|m: int|
                    0 <= m < j ==> (#[trigger] self.parameters@[m])@ == resolve_parameter(
                        before[m],
                        imported@,
                        names,
                    ),
                forall|m: int| 0 <= m < j ==> !stuck[m],
                forall|m: int| j <= m < n ==> (#[trigger] self.parameters@[m])@ == before[m],
            decreases n - j,
        {
            let found = match &self.parameters[j].typ {
                Type::Unresolved(name, _) => lookup_type_name(name, imported, local),
                _ => None,
            };
            if let Some(t) = found {
                self.parameters[j].set_type(t);
            }
            match &self.parameters[j].typ {
                Type::Unresolved(name, position) => {
                    proof {
                        assert(stuck[j as int]);
                        lemma_first_set_is(stuck, j as int);
                        assert(self@.parameters =~= resolve_function_parameters(
                            old(self)@,
                            imported@,
                            names,
                        ).parameters);
                    }
                    return Err(
                        RlcError::Resolve {
                            element: quote_after("type '", name),
                            position: position.clone(),
                        },
                    );
                },
                _ => {},
            }
            j += 1;
        }
        proof {
            lemma_first_set_is(stuck, n as int);
            assert(self@.parameters =~= resolve_function_parameters(
                old(self)@,
                imported@,
                names,
            ).parameters);
        }
        Ok(())
    }

    /// Binds the identifiers of the body, in their order, to parameters of
    /// this function and to what `model` declares and imports, and stops at
    /// the first identifier that stands for nothing.
    pub fn resolve_expr(&mut self, model: &Model) -> (r: Result<(), RlcError>)
        requires
            model.wf(),
        ensures
            final(self)@ == resolve_function_body(old(self)@, model@),
            outcome(r) == body_outcome(old(self)@, model@),
    {
        let ghost before = self@.body;
        let ghost params = self@.parameters;
        let ghost stuck = Seq::new(before.len(), |k: int| expr_is_stuck(before[k], params, model@));
        let n = self.body.len();
        let mut k: usize = 0;
        while k < n
            invariant
                model.wf(),
                before == old(self)@.body,
                params == old(self)@.parameters,
                stuck == Seq::new(before.len(), |k: int| expr_is_stuck(before[k], params, model@)),
                self.name == old(self).name,
                self.position == old(self).position,
                self.parameters == old(self).parameters,
                self.id == old(self).id,
                n == self.body@.len(),
                n == before.len(),
                k <= n,
                forall|m: int|
                    0 <= m < k ==> (#[trigger] self.body@[m])@ == resolve_expr(
                        before[m],
                        params,
                        model@,
                    ),
                forall|m: int| 0 <= m < k ==> !stuck[m],
                forall|m: int| k <= m < n ==> (#[trigger] self.body@[m])@ == before[m],
            decreases n - k,
        {
            let found = match &self.body[k] {
                Expr::Unresolved(name, _) => bind_identifier(name, &self.parameters, model),
                _ => None,
            };
            if let Some(e) = found {
                self.body[k] = e;
            }
            match &self.body[k] {
                Expr::Unresolved(name, position) => {
                    proof {
                        assert(stuck[k as int]);
                        lemma_first_set_is(stuck, k as int);
                        assert(self@.body =~= resolve_function_body(old(self)@, model@).body);
                    }
                    return Err(
                        RlcError::Resolve {
                            element: quote_after("identifier '", name),
                            position: position.clone(),
                        },
                    );
                },
                _ => {},
            }
            k += 1;
        }
        proof {
            lemma_first_set_is(stuck, n as int);
            assert(self@.body =~= resolve_function_body(old(self)@, model@).body);
        }
        Ok(())
    }
}

/// `prefix`, then `name`, then a closing quote.
fn quote_after(prefix: &str, name: &String) -> (r: String)
    ensures
        r@ == prefix@ + name@ + "'"@,
{
    let mut r = String::from_str(prefix);
    r.append(name.as_str());
    r.append("'");
    r
}

/// What the type name `name` stands for. The skillsets are gone through
/// first, then the types of the imported model, then the local types; each
/// match replaces what was found before it.
pub fn lookup_type_name(name: &String, imported: &ImportedModel, local: &Vec<RlcType>) -> (r:
    Option<Type>)
    requires
        imported.wf(),
        forall|i: int| 0 <= i < local@.len() ==> (#[trigger] local@[i])@.id == i,
    ensures
        r.deep_view() == lookup_type(name@, imported@, names_of(local@)),
{
    proof {
        assert(names_of(imported.skillsets@) =~= imported@.skillsets);
        assert(names_of(imported.types@) =~= imported@.types);
    }
    let mut found: Option<Type> = None;
    if let Some(k) = find_last(&imported.skillsets, name) {
        found = Some(Type::Skillset(imported.skillsets[k].id));
    }
    if let Some(k) = find_last(&imported.types, name) {
        found = Some(Type::ImportedType(imported.types[k].id));
    }
    if let Some(k) = find_last(local, name) {
        found = Some(Type::LocalType(local[k].id));
    }
    found
}

/// What the identifier `name` stands for in a function with parameters
/// `params`. What the model imports is gone through first, then what it
/// declares, then the parameters; each match replaces what was found before
/// it.
pub fn bind_identifier(name: &String, params: &Vec<Parameter>, model: &Model) -> (r: Option<Expr>)
    requires
        model.wf(),
    ensures
        r.deep_view() == lookup_identifier(name@, params.deep_view(), model@),
{
    proof {
        assert(names_of(model.imported_model.skillsets@) =~= model@.imported.skillsets);
        assert(names_of(model.imported_model.types@) =~= model@.imported.types);
        assert(names_of(model.types@) =~= model@.type_names());
        assert(names_of(model.functions@) =~= model@.function_names());
        assert(names_of(params@) =~= parameter_names(params.deep_view()));
    }
    let mut found: Option<Expr> = None;
    if let Some(k) = find_last(&model.imported_model.skillsets, name) {
        found = Some(Expr::Skillset(model.imported_model.skillsets[k].id));
    }
    if let Some(k) = find_last(&model.imported_model.types, name) {
        found = Some(Expr::ImportedType(model.imported_model.types[k].id));
    }
    if let Some(k) = find_last(&model.types, name) {
        assert(model@.types[k as int].id == k);
        found = Some(Expr::LocalType(model.types[k].id));
    }
    if let Some(k) = find_last(&model.functions, name) {
        assert(model@.functions[k as int].id == k);
        found = Some(Expr::Function(model.functions[k].id));
    }
    if let Some(k) = find_last(params, name) {
        found = Some(Expr::Parameter(ParameterId(k)));
    }
    found
}

/// A signature as it is printed: the name, and in round brackets the
/// parameters, each with its type, with a comma and a space between them.
pub fn signature_to_lang(name: &String, params: &Vec<Parameter>, model: &Model) -> (s: String)
    ensures
        s@ == signature_text(name@, params.deep_view(), model@),
{
    let ghost views = params.deep_view();
    let ghost head = name@ + "("@;
    let mut s = name.clone();
    s.append("(");
    let n = params.len();
    let mut i: usize = 0;
    while i < n
        invariant
            n == params@.len(),
            views == params.deep_view(),
            head == name@ + "("@,
            i <= n,
            s@ == head + parameters_text(views.take(i as int), model@),
        decreases n - i,
    {
        proof {
            lemma_parameters_text_step(views, model@, i as int);
        }
        let ghost so_far = s@;
        if i > 0 {
            s.append(", ");
        }
        s.append(params[i].name.as_str());
        s.append(": ");
        let typ = params[i].typ.to_lang(model);
        s.append(typ.as_str());
        proof {
            let p = parameter_text(views[i as int], model@);
            assert(p == params[i as int].name@ + ": "@ + typ@);
            if i > 0 {
                assert(s@ =~= so_far + (", "@ + p));
                assert(s@ =~= head + (parameters_text(views.take(i as int), model@) + ", "@ + p));
            } else {
                assert(parameters_text(views.take(0), model@) =~= Seq::<char>::empty());
                assert(s@ =~= head + p);
            }
        }
        i += 1;
    }
    s.append(")");
    proof {
        assert(views.take(n as int) =~= views);
    }
    s
}

impl ToLang for Function {
    open spec fn lang(&self, model: ModelView) -> Seq<char> {
        function_text(self@, model)
    }

    /// The signature, and in curly brackets the body, each expression on a
    /// line of its own.
    fn to_lang(&self, model: &Model) -> (s: String) {
        let ghost body = self.body.deep_view();
        let ghost params = self.parameters.deep_view();
        let mut s = signature_to_lang(&self.name, &self.parameters, model);
        s.append(" {\n");
        let ghost head = s@;
        let n = self.body.len();
        let mut k: usize = 0;
        while k < n
            invariant
                n == self.body@.len(),
                body == self.body.deep_view(),
                params == self.parameters.deep_view(),
                k <= n,
                s@ == head + body_text(body.take(k as int), params, model@),
            decreases n - k,
        {
            proof {
                lemma_body_text_step(body, params, model@, k as int);
            }
            let line = self.body[k].to_lang(&self.parameters, model);
            s.append("    ");
            s.append(line.as_str());
            s.append("\n");
            proof {
                assert(s@ =~= head + (body_text(body.take(k as int), params, model@) + "    "@
                    + line@ + "\n"@));
            }
            k += 1;
        }
        s.append("}");
        proof {
            assert(body.take(n as int) =~= body);
            assert(s@ =~= signature_text(self.name@, params, model@) + " {\n"@ + body_text(
                body,
                params,
                model@,
            ) + "}"@);
        }
        s
    }
}

} // verus!
