//! The text of a model: included files, robots and local types, one to a
//! line; an empty line; then functions and declared methods.
//!
//! A reference is printed as the name of what it refers to. Where it refers
//! to nothing, because its handle is out of range or no type was given, the
//! text `undef` stands in its place; a name that is not resolved yet is
//! printed with a question mark after it.

use crate::model::decl_method::DeclMethodView;
use crate::model::expr::ExprView;
use crate::model::function::{FunctionView, ParameterView};
use crate::model::model::{Model, ModelView};
use crate::model::names::{names_of, Named};
use crate::model::resolution::parameter_names;
use crate::model::rlc_type::RlcTypeView;
use crate::model::robot::RobotView;
use crate::model::typ::TypeView;
use vstd::prelude::*;
use vstd::string::StringExecFns;

verus! {

/// The name at index `k`, or the placeholder where there is no such index.
pub open spec fn name_at(names: Seq<Seq<char>>, k: nat) -> Seq<char> {
    if k < names.len() {
        names[k as int]
    } else {
        "undef"@
    }
}

/// A name that is not resolved yet, as it is printed.
pub open spec fn pending_text(name: Seq<char>) -> Seq<char> {
    name + "?"@
}

/// A type as it is printed in model `m`.
pub open spec fn type_text(t: TypeView, m: ModelView) -> Seq<char> {
    match t {
        TypeView::Undefined => "undef"@,
        TypeView::Unresolved(name, _) => pending_text(name),
        TypeView::Boolean => "bool"@,
        TypeView::Skillset(k) => name_at(m.imported.skillsets, k),
        TypeView::ImportedType(k) => name_at(m.imported.types, k),
        TypeView::LocalType(k) => name_at(m.type_names(), k),
    }
}

/// An expression as it is printed in a function with parameters `params`.
pub open spec fn expr_text(e: ExprView, params: Seq<ParameterView>, m: ModelView) -> Seq<char> {
    match e {
        ExprView::Unresolved(name, _) => pending_text(name),
        ExprView::Parameter(k) => name_at(parameter_names(params), k),
        ExprView::Function(k) => name_at(m.function_names(), k),
        ExprView::LocalType(k) => name_at(m.type_names(), k),
        ExprView::ImportedType(k) => name_at(m.imported.types, k),
        ExprView::Skillset(k) => name_at(m.imported.skillsets, k),
    }
}

/// A parameter: its name, a colon and its type.
pub open spec fn parameter_text(p: ParameterView, m: ModelView) -> Seq<char> {
    p.name + ": "@ + type_text(p.typ, m)
}

/// The parameters, with a comma and a space between one and the next.
pub open spec fn parameters_text(params: Seq<ParameterView>, m: ModelView) -> Seq<char>
    decreases params.len(),
{
    if params.len() == 0 {
        Seq::empty()
    } else if params.len() == 1 {
        parameter_text(params[0], m)
    } else {
        parameters_text(params.drop_last(), m) + ", "@ + parameter_text(params.last(), m)
    }
}

/// A signature: the name, and the parameters in round brackets.
pub open spec fn signature_text(name: Seq<char>, params: Seq<ParameterView>, m: ModelView) -> Seq<
    char,
> {
    name + "("@ + parameters_text(params, m) + ")"@
}

/// A body: each expression on a line of its own, after four spaces.
pub open spec fn body_text(body: Seq<ExprView>, params: Seq<ParameterView>, m: ModelView) -> Seq<
    char,
>
    decreases body.len(),
{
    if body.len() == 0 {
        Seq::empty()
    } else {
        body_text(body.drop_last(), params, m) + "    "@ + expr_text(body.last(), params, m)
            + "\n"@
    }
}

/// A function: its signature, and its body in curly brackets.
pub open spec fn function_text(f: FunctionView, m: ModelView) -> Seq<char> {
    signature_text(f.name, f.parameters, m) + " {\n"@ + body_text(f.body, f.parameters, m) + "}"@
}

/// A declared method: its signature.
pub open spec fn decl_method_text(d: DeclMethodView, m: ModelView) -> Seq<char> {
    signature_text(d.name, d.parameters, m)
}

/// A robot: the word `robot` and its name.
pub open spec fn robot_text(r: RobotView) -> Seq<char> {
    "robot "@ + r.name
}

/// A local type where it is declared: the word `type` and its name.
pub open spec fn local_type_text(t: RlcTypeView) -> Seq<char> {
    "type "@ + t.name
}

/// An included file: the word `include` and the file in double quotes.
pub open spec fn include_text(file: Seq<char>) -> Seq<char> {
    "include \""@ + file + "\""@
}

/// The lines, each with a line break after it.
pub open spec fn lines_text(lines: Seq<Seq<char>>) -> Seq<char>
    decreases lines.len(),
{
    if lines.len() == 0 {
        Seq::empty()
    } else {
        lines_text(lines.drop_last()) + lines.last() + "\n"@
    }
}

impl ModelView {
    /// The lines of the included files.
    pub open spec fn include_lines(self) -> Seq<Seq<char>> {
        Seq::new(self.includes.len(), |i: int| include_text(self.includes[i]))
    }

    /// The lines of the robots.
    pub open spec fn robot_lines(self) -> Seq<Seq<char>> {
        Seq::new(self.robots.len(), |i: int| robot_text(self.robots[i]))
    }

    /// The lines of the local types.
    pub open spec fn type_lines(self) -> Seq<Seq<char>> {
        Seq::new(self.types.len(), |i: int| local_type_text(self.types[i]))
    }

    /// The texts of the functions.
    pub open spec fn function_lines(self) -> Seq<Seq<char>> {
        Seq::new(self.functions.len(), |i: int| function_text(self.functions[i], self))
    }

    /// The lines of the declared methods.
    pub open spec fn declared_method_lines(self) -> Seq<Seq<char>> {
        Seq::new(
            self.declared_methods.len(),
            |i: int| decl_method_text(self.declared_methods[i], self),
        )
    }

    /// The text of the whole model.
    pub open spec fn text(self) -> Seq<char> {
        lines_text(self.include_lines()) + lines_text(self.robot_lines()) + lines_text(
            self.type_lines(),
        ) + "\n"@ + lines_text(self.function_lines()) + lines_text(self.declared_method_lines())
    }
}

/// What can be printed in the language of the model.
pub trait ToLang {
    /// The text of `self` in model `model`.
    spec fn lang(&self, model: ModelView) -> Seq<char>;

    /// Prints `self`, looking up in `model` what it refers to.
    fn to_lang(&self, model: &Model) -> (s: String)
        ensures
            s@ == self.lang(model@),
    ;
}

/// The text of one line more is the text so far, the line and a line break.
pub proof fn lemma_lines_text_step(lines: Seq<Seq<char>>, i: int)
    requires
        0 <= i < lines.len(),
    ensures
        lines_text(lines.take(i + 1)) == lines_text(lines.take(i)) + lines[i] + "\n"@,
{
    assert(lines.take(i + 1).drop_last() =~= lines.take(i));
    assert(lines.take(i + 1).last() == lines[i]);
}

/// The text of one parameter more is the text so far, a comma and a space
/// where a parameter came before, and the parameter.
pub proof fn lemma_parameters_text_step(params: Seq<ParameterView>, m: ModelView, i: int)
    requires
        0 <= i < params.len(),
    ensures
        parameters_text(params.take(i + 1), m) == if i == 0 {
            parameter_text(params[i], m)
        } else {
            parameters_text(params.take(i), m) + ", "@ + parameter_text(params[i], m)
        },
{
    assert(params.take(i + 1).drop_last() =~= params.take(i));
    assert(params.take(i + 1).last() == params[i]);
    assert(params.take(i + 1)[0] == params[0]);
}

/// The text of one expression more is the text so far and the line of the
/// expression.
pub proof fn lemma_body_text_step(
    body: Seq<ExprView>,
    params: Seq<ParameterView>,
    m: ModelView,
    i: int,
)
    requires
        0 <= i < body.len(),
    ensures
        body_text(body.take(i + 1), params, m) == body_text(body.take(i), params, m) + "    "@
            + expr_text(body[i], params, m) + "\n"@,
{
    assert(body.take(i + 1).drop_last() =~= body.take(i));
    assert(body.take(i + 1).last() == body[i]);
}

/// The name of the item at index `k`, or the placeholder where `items` has
/// no such index.
pub fn name_or_placeholder<T: Named>(items: &Vec<T>, k: usize) -> (s: String)
    ensures
        s@ == name_at(names_of(items@), k as nat),
{
    if k < items.len() {
        items[k].name_string().clone()
    } else {
        String::from_str("undef")
    }
}

/// A name that is not resolved yet, as it is printed.
pub fn pending_to_lang(name: &String) -> (s: String)
    ensures
        s@ == pending_text(name@),
{
    let mut s = name.clone();
    s.append("?");
    s
}

/// The texts of `items` in model `model`, in their order.
pub open spec fn langs_of<T: ToLang>(items: Seq<T>, model: ModelView) -> Seq<Seq<char>> {
    Seq::new(items.len(), |i: int| items[i].lang(model))
}

/// The items, each printed on a line of its own.
pub fn lines_to_lang<T: ToLang>(items: &Vec<T>, model: &Model) -> (s: String)
    ensures
        s@ == lines_text(langs_of(items@, model@)),
{
    let ghost lines = langs_of(items@, model@);
    let mut s = String::new();
    let n = items.len();
    let mut i: usize = 0;
    while i < n
        invariant
            n == items@.len(),
            lines == langs_of(items@, model@),
            i <= n,
            s@ == lines_text(lines.take(i as int)),
        decreases n - i,
    {
        proof {
            lemma_lines_text_step(lines, i as int);
        }
        let line = items[i].to_lang(model);
        s.append(line.as_str());
        s.append("\n");
        i += 1;
    }
    proof {
        assert(lines.take(n as int) =~= lines);
    }
    s
}

/// The included files, each on a line of its own.
pub fn includes_to_lang(includes: &Vec<String>) -> (s: String)
    ensures
        s@ == lines_text(Seq::new(includes@.len(), |i: int| include_text(includes@[i]@))),
{
    let ghost lines = Seq::new(includes@.len(), |i: int| include_text(includes@[i]@));
    let mut s = String::new();
    let n = includes.len();
    let mut i: usize = 0;
    while i < n
        invariant
            n == includes@.len(),
            lines == Seq::new(includes@.len(), |i: int| include_text(includes@[i]@)),
            i <= n,
            s@ == lines_text(lines.take(i as int)),
        decreases n - i,
    {
        proof {
            lemma_lines_text_step(lines, i as int);
        }
        let ghost so_far = s@;
        s.append("include \"");
        s.append(includes[i].as_str());
        s.append("\"");
        s.append("\n");
        proof {
            assert(s@ =~= so_far + lines[i as int] + "\n"@);
        }
        i += 1;
    }
    proof {
        assert(lines.take(n as int) =~= lines);
    }
    s
}

} // verus!
