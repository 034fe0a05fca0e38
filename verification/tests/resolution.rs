use rlc_model::{
    DeclMethod, Expr, Function, FunctionId, Model, Parameter, ParameterId, Position, RlcError,
    RlcType, RlcTypeId, Robot, SkillsetId, Type, TypeId,
};

fn at(line: usize, column: usize) -> Option<Position> {
    Some(Position { file: "main.rl".to_string(), line, column })
}

fn unresolved(name: &str, position: Option<Position>) -> Type {
    Type::Unresolved(name.to_string(), position)
}

fn function(name: &str, params: Vec<(&str, Type)>) -> Function {
    let params = params.into_iter().map(|(n, t)| Parameter::new(n, t)).collect();
    Function::new(name, params, vec![], None)
}

fn typ_of(model: &Model, f: usize, p: usize) -> &Type {
    model.functions()[f].parameters()[p].typ()
}

#[test]
fn a_local_type_is_found() {
    let mut model = Model::default();
    model.add_robot(Robot::new("Arm1", at(1, 1)));
    model.add_type(RlcType::new("Gripper", at(2, 1)));
    model.add_function(function("f", vec![("g", unresolved("Gripper", at(3, 6)))]));
    assert_eq!(model.resolve(), Ok(()));
    assert_eq!(typ_of(&model, 0, 0), &Type::LocalType(RlcTypeId(0)));
    assert_eq!(model.functions()[0].parameters()[0].name(), "g");
    let text = model.to_string();
    let type_at = text.find("type Gripper").unwrap();
    let function_at = text.find("f(g: Gripper)").unwrap();
    assert!(type_at < function_at);
}

#[test]
fn an_imported_type_hides_a_skillset() {
    let mut model = Model::default();
    model.imported_model.add_skillset("other");
    model.imported_model.add_skillset("X");
    model.imported_model.add_type("X");
    model.add_type(RlcType::new("Y", None));
    model.add_function(function("f", vec![("a", unresolved("X", None))]));
    assert_eq!(model.resolve_parameters(), Ok(()));
    assert_eq!(typ_of(&model, 0, 0), &Type::ImportedType(TypeId(0)));
}

#[test]
fn a_skillset_is_found_where_nothing_hides_it() {
    let mut model = Model::default();
    model.imported_model.add_skillset("other");
    model.imported_model.add_skillset("X");
    model.imported_model.add_type("Pose");
    model.add_function(function("f", vec![("a", unresolved("X", None))]));
    assert_eq!(model.resolve_parameters(), Ok(()));
    assert_eq!(typ_of(&model, 0, 0), &Type::Skillset(SkillsetId(1)));
}

#[test]
fn a_local_type_hides_what_is_imported() {
    let mut model = Model::default();
    model.imported_model.add_skillset("X");
    model.imported_model.add_type("X");
    model.add_type(RlcType::new("W", None));
    model.add_type(RlcType::new("X", None));
    model.add_function(function("f", vec![("a", unresolved("X", None))]));
    assert_eq!(model.resolve_parameters(), Ok(()));
    assert_eq!(typ_of(&model, 0, 0), &Type::LocalType(RlcTypeId(1)));
}

#[test]
fn the_last_declaration_of_a_name_is_found() {
    let mut model = Model::default();
    model.imported_model.add_type("P");
    model.imported_model.add_type("Q");
    model.imported_model.add_type("P");
    model.imported_model.add_skillset("S");
    model.imported_model.add_skillset("S");
    model.add_type(RlcType::new("T", None));
    model.add_type(RlcType::new("T", None));
    model.add_type(RlcType::new("U", None));
    model.add_function(function(
        "f",
        vec![
            ("a", unresolved("P", None)),
            ("b", unresolved("S", None)),
            ("c", unresolved("T", None)),
        ],
    ));
    assert_eq!(model.resolve_parameters(), Ok(()));
    assert_eq!(typ_of(&model, 0, 0), &Type::ImportedType(TypeId(2)));
    assert_eq!(typ_of(&model, 0, 1), &Type::Skillset(SkillsetId(1)));
    assert_eq!(typ_of(&model, 0, 2), &Type::LocalType(RlcTypeId(1)));
}

#[test]
fn an_unknown_type_is_an_error() {
    let mut model = Model::default();
    model.imported_model.add_skillset("nav");
    model.imported_model.add_type("Pose");
    model.add_type(RlcType::new("Gripper", None));
    model.add_function(function("f", vec![("a", unresolved("Nope", at(7, 12)))]));
    assert_eq!(
        model.resolve_parameters(),
        Err(RlcError::Resolve { element: "type 'Nope'".to_string(), position: at(7, 12) })
    );
    assert_eq!(typ_of(&model, 0, 0), &unresolved("Nope", at(7, 12)));
}

#[test]
fn an_unknown_type_without_a_position() {
    let mut model = Model::default();
    model.add_function(function("f", vec![("a", unresolved("", None))]));
    assert_eq!(
        model.resolve(),
        Err(RlcError::Resolve { element: "type ''".to_string(), position: None })
    );
}

#[test]
fn names_are_compared_exactly() {
    let mut model = Model::default();
    model.add_type(RlcType::new("Gripper", None));
    model.add_function(function("f", vec![("a", unresolved("gripper", None))]));
    assert_eq!(
        model.resolve_parameters(),
        Err(RlcError::Resolve { element: "type 'gripper'".to_string(), position: None })
    );
}

#[test]
fn resolution_stops_at_the_first_unknown_type() {
    let mut model = Model::default();
    model.add_type(RlcType::new("T", None));
    model.add_function(function("f", vec![("a", unresolved("T", None))]));
    model.add_function(function(
        "g",
        vec![
            ("a", unresolved("T", None)),
            ("b", unresolved("Bad1", at(1, 1))),
            ("c", unresolved("T", None)),
        ],
    ));
    model.add_function(function(
        "h",
        vec![("a", unresolved("T", None)), ("b", unresolved("Bad2", at(2, 2)))],
    ));
    assert_eq!(
        model.resolve_parameters(),
        Err(RlcError::Resolve { element: "type 'Bad1'".to_string(), position: at(1, 1) })
    );
    assert_eq!(typ_of(&model, 0, 0), &Type::LocalType(RlcTypeId(0)));
    assert_eq!(typ_of(&model, 1, 0), &Type::LocalType(RlcTypeId(0)));
    assert_eq!(typ_of(&model, 1, 1), &unresolved("Bad1", at(1, 1)));
    assert_eq!(typ_of(&model, 1, 2), &unresolved("T", None));
    assert_eq!(typ_of(&model, 2, 0), &unresolved("T", None));
    assert_eq!(typ_of(&model, 2, 1), &unresolved("Bad2", at(2, 2)));
}

#[test]
fn resolving_again_changes_nothing() {
    let mut model = Model::default();
    model.imported_model.add_skillset("S");
    model.imported_model.add_type("P");
    model.add_type(RlcType::new("T", None));
    model.add_function(function(
        "f",
        vec![
            ("a", unresolved("T", None)),
            ("b", unresolved("P", None)),
            ("c", unresolved("S", None)),
            ("d", Type::Boolean),
            ("e", Type::Undefined),
        ],
    ));
    assert_eq!(model.resolve_parameters(), Ok(()));
    let once: Vec<Type> = model.functions()[0].parameters().iter().map(|p| p.typ().clone()).collect();
    let text = model.to_string();
    assert_eq!(model.resolve_parameters(), Ok(()));
    let twice: Vec<Type> =
        model.functions()[0].parameters().iter().map(|p| p.typ().clone()).collect();
    assert_eq!(once, twice);
    assert_eq!(
        once,
        vec![
            Type::LocalType(RlcTypeId(0)),
            Type::ImportedType(TypeId(0)),
            Type::Skillset(SkillsetId(0)),
            Type::Boolean,
            Type::Undefined,
        ]
    );
    assert_eq!(model.to_string(), text);
    assert_eq!(model.to_string(), text);
}

#[test]
fn resolving_again_after_a_failure_fails_alike() {
    let mut model = Model::default();
    model.add_type(RlcType::new("T", None));
    model.add_function(function(
        "f",
        vec![("a", unresolved("T", None)), ("b", unresolved("Bad", at(4, 4)))],
    ));
    let first = model.resolve_parameters();
    let after_first = model.functions().clone();
    let second = model.resolve_parameters();
    assert!(first.is_err());
    assert_eq!(first, second);
    assert_eq!(&after_first, model.functions());
}

#[test]
fn declared_methods_are_left_alone() {
    let mut model = Model::default();
    model.add_type(RlcType::new("T", None));
    model.add_declared_method(DeclMethod::new(
        "m",
        vec![Parameter::new("a", unresolved("T", None)), Parameter::new("b", unresolved("Bad", None))],
        None,
    ));
    assert_eq!(model.resolve(), Ok(()));
    let params = model.declared_methods()[0].parameters();
    assert_eq!(params[0].typ(), &unresolved("T", None));
    assert_eq!(params[1].typ(), &unresolved("Bad", None));
}

#[test]
fn a_model_without_functions_resolves() {
    let mut model = Model::default();
    model.add_type(RlcType::new("T", None));
    assert_eq!(model.resolve_parameters(), Ok(()));
    assert_eq!(model.resolve_expr(), Ok(()));
    assert_eq!(model.resolve(), Ok(()));
}

#[test]
fn set_type_replaces_the_type() {
    let mut p = Parameter::new("a", unresolved("T", None));
    p.set_type(Type::Boolean);
    assert_eq!(p.typ(), &Type::Boolean);
    assert_eq!(p.name(), "a");
}

fn identifier(name: &str, position: Option<Position>) -> Expr {
    Expr::Unresolved(name.to_string(), position)
}

#[test]
fn identifiers_are_bound_to_what_they_name() {
    let mut model = Model::default();
    model.imported_model.add_skillset("nav");
    model.imported_model.add_type("Pose");
    model.add_type(RlcType::new("Gripper", None));
    model.add_function(Function::new("helper", vec![], vec![], None));
    model.add_function(Function::new(
        "f",
        vec![Parameter::new("x", Type::Boolean), Parameter::new("g", unresolved("Gripper", None))],
        vec![
            identifier("g", None),
            identifier("helper", None),
            identifier("f", None),
            identifier("Gripper", None),
            identifier("Pose", None),
            identifier("nav", None),
            identifier("x", None),
        ],
        None,
    ));
    assert_eq!(model.resolve(), Ok(()));
    assert_eq!(
        model.functions()[1].body(),
        &vec![
            Expr::Parameter(ParameterId(1)),
            Expr::Function(FunctionId(0)),
            Expr::Function(FunctionId(1)),
            Expr::LocalType(RlcTypeId(0)),
            Expr::ImportedType(TypeId(0)),
            Expr::Skillset(SkillsetId(0)),
            Expr::Parameter(ParameterId(0)),
        ]
    );
}

#[test]
fn a_parameter_hides_everything_of_its_name() {
    let mut model = Model::default();
    model.imported_model.add_skillset("n");
    model.imported_model.add_type("n");
    model.add_type(RlcType::new("n", None));
    model.add_function(Function::new(
        "n",
        vec![Parameter::new("n", Type::Boolean)],
        vec![identifier("n", None)],
        None,
    ));
    model.add_function(Function::new("other", vec![], vec![identifier("n", None)], None));
    assert_eq!(model.resolve_expr(), Ok(()));
    assert_eq!(model.functions()[0].body(), &vec![Expr::Parameter(ParameterId(0))]);
    assert_eq!(model.functions()[1].body(), &vec![Expr::Function(FunctionId(0))]);
}

#[test]
fn identifiers_follow_the_order_of_the_sources() {
    let mut model = Model::default();
    model.imported_model.add_skillset("a");
    model.imported_model.add_skillset("b");
    model.imported_model.add_skillset("c");
    model.imported_model.add_type("a");
    model.imported_model.add_type("b");
    model.add_type(RlcType::new("a", None));
    model.add_function(Function::new(
        "f",
        vec![],
        vec![identifier("a", None), identifier("b", None), identifier("c", None)],
        None,
    ));
    assert_eq!(model.resolve_expr(), Ok(()));
    assert_eq!(
        model.functions()[0].body(),
        &vec![
            Expr::LocalType(RlcTypeId(0)),
            Expr::ImportedType(TypeId(1)),
            Expr::Skillset(SkillsetId(2)),
        ]
    );
}

#[test]
fn an_unbound_identifier_is_an_error() {
    let mut model = Model::default();
    model.add_function(Function::new(
        "f",
        vec![Parameter::new("x", Type::Boolean)],
        vec![identifier("x", None), identifier("y", at(3, 5)), identifier("x", None)],
        None,
    ));
    model.add_function(Function::new("g", vec![], vec![identifier("f", None)], None));
    assert_eq!(
        model.resolve_expr(),
        Err(RlcError::Resolve { element: "identifier 'y'".to_string(), position: at(3, 5) })
    );
    assert_eq!(
        model.functions()[0].body(),
        &vec![Expr::Parameter(ParameterId(0)), identifier("y", at(3, 5)), identifier("x", None)]
    );
    assert_eq!(model.functions()[1].body(), &vec![identifier("f", None)]);
}

#[test]
fn parameters_of_another_function_are_out_of_scope() {
    let mut model = Model::default();
    model.add_function(Function::new("f", vec![Parameter::new("x", Type::Boolean)], vec![], None));
    model.add_function(Function::new("g", vec![], vec![identifier("x", at(1, 1))], None));
    assert_eq!(
        model.resolve(),
        Err(RlcError::Resolve { element: "identifier 'x'".to_string(), position: at(1, 1) })
    );
}

#[test]
fn bodies_are_not_touched_where_a_type_is_unknown() {
    let mut model = Model::default();
    model.add_function(Function::new(
        "f",
        vec![Parameter::new("x", unresolved("Bad", at(1, 1)))],
        vec![identifier("x", None)],
        None,
    ));
    assert_eq!(
        model.resolve(),
        Err(RlcError::Resolve { element: "type 'Bad'".to_string(), position: at(1, 1) })
    );
    assert_eq!(model.functions()[0].body(), &vec![identifier("x", None)]);
}

#[test]
fn resolving_bodies_again_changes_nothing() {
    let mut model = Model::default();
    model.add_function(Function::new(
        "f",
        vec![Parameter::new("x", Type::Boolean)],
        vec![identifier("x", None), identifier("f", None)],
        None,
    ));
    assert_eq!(model.resolve(), Ok(()));
    let once = model.functions().clone();
    assert_eq!(model.resolve(), Ok(()));
    assert_eq!(&once, model.functions());
}

#[test]
fn a_function_resolves_against_a_model_it_is_not_part_of() {
    let mut model = Model::default();
    model.add_type(RlcType::new("T", None));
    model.add_function(Function::new("known", vec![], vec![], None));
    let mut f = Function::new(
        "f",
        vec![Parameter::new("a", unresolved("T", None))],
        vec![identifier("known", None), identifier("a", None)],
        None,
    );
    assert_eq!(f.resolve_parameters(&model.imported_model, model.types()), Ok(()));
    assert_eq!(f.parameters()[0].typ(), &Type::LocalType(RlcTypeId(0)));
    assert_eq!(f.resolve_expr(&model), Ok(()));
    assert_eq!(f.body(), &vec![Expr::Function(FunctionId(0)), Expr::Parameter(ParameterId(0))]);
}
