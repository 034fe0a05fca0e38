use rlc_model::{
    DeclMethod, Expr, Function, FunctionId, Model, Parameter, ParameterId, RlcType, RlcTypeId,
    Robot, SkillsetId, ToLang, Type, TypeId,
};

fn unresolved(name: &str) -> Type {
    Type::Unresolved(name.to_string(), None)
}

#[test]
fn the_empty_model_is_one_empty_line() {
    assert_eq!(Model::default().to_string(), "\n");
}

#[test]
fn a_resolved_model_in_full() {
    let mut model = Model::default();
    model.add_include("base.rl");
    model.add_robot(Robot::new("Arm1", None));
    model.add_type(RlcType::new("Gripper", None));
    model.add_function(Function::new(
        "f",
        vec![Parameter::new("g", unresolved("Gripper"))],
        vec![Expr::Unresolved("g".to_string(), None)],
        None,
    ));
    model.add_declared_method(DeclMethod::new(
        "open",
        vec![Parameter::new("g", unresolved("Gripper")), Parameter::new("wide", Type::Boolean)],
        None,
    ));
    assert_eq!(model.resolve(), Ok(()));
    assert_eq!(
        model.to_string(),
        "include \"base.rl\"\nrobot Arm1\ntype Gripper\n\nf(g: Gripper) {\n    g\n}\nopen(g: Gripper?, wide: bool)\n"
    );
}

#[test]
fn one_robot_one_type_one_function() {
    let mut model = Model::default();
    model.add_robot(Robot::new("Arm1", None));
    model.add_type(RlcType::new("Gripper", None));
    model.add_function(Function::new(
        "f",
        vec![Parameter::new("g", unresolved("Gripper"))],
        vec![],
        None,
    ));
    assert_eq!(model.to_string(), "robot Arm1\ntype Gripper\n\nf(g: Gripper?) {\n}\n");
    assert_eq!(model.resolve(), Ok(()));
    assert_eq!(model.to_string(), "robot Arm1\ntype Gripper\n\nf(g: Gripper) {\n}\n");
}

#[test]
fn declarations_are_printed_in_the_order_of_insertion() {
    let mut model = Model::default();
    model.add_include("z.rl");
    model.add_include("a.rl");
    model.add_robot(Robot::new("r2", None));
    model.add_robot(Robot::new("r1", None));
    model.add_type(RlcType::new("B", None));
    model.add_type(RlcType::new("A", None));
    assert_eq!(
        model.to_string(),
        "include \"z.rl\"\ninclude \"a.rl\"\nrobot r2\nrobot r1\ntype B\ntype A\n\n"
    );
}

#[test]
fn every_type_has_a_text() {
    let mut model = Model::default();
    model.imported_model.add_skillset("nav");
    model.imported_model.add_type("Pose");
    model.add_type(RlcType::new("Gripper", None));
    assert_eq!(Type::Undefined.to_lang(&model), "undef");
    assert_eq!(Type::Boolean.to_lang(&model), "bool");
    assert_eq!(unresolved("Thing").to_lang(&model), "Thing?");
    assert_eq!(Type::Skillset(SkillsetId(0)).to_lang(&model), "nav");
    assert_eq!(Type::ImportedType(TypeId(0)).to_lang(&model), "Pose");
    assert_eq!(Type::LocalType(RlcTypeId(0)).to_lang(&model), "Gripper");
}

#[test]
fn a_handle_that_refers_to_nothing_is_a_placeholder() {
    let model = Model::default();
    assert_eq!(Type::Skillset(SkillsetId(0)).to_lang(&model), "undef");
    assert_eq!(Type::ImportedType(TypeId(5)).to_lang(&model), "undef");
    assert_eq!(Type::LocalType(RlcTypeId(usize::MAX)).to_lang(&model), "undef");
    let params: Vec<Parameter> = vec![];
    assert_eq!(Expr::Parameter(ParameterId(0)).to_lang(&params, &model), "undef");
    assert_eq!(Expr::Function(FunctionId(1)).to_lang(&params, &model), "undef");
    assert_eq!(Expr::LocalType(RlcTypeId(1)).to_lang(&params, &model), "undef");
    assert_eq!(Expr::ImportedType(TypeId(1)).to_lang(&params, &model), "undef");
    assert_eq!(Expr::Skillset(SkillsetId(1)).to_lang(&params, &model), "undef");
}

#[test]
fn every_expression_has_a_text() {
    let mut model = Model::default();
    model.imported_model.add_skillset("nav");
    model.imported_model.add_type("Pose");
    model.add_type(RlcType::new("Gripper", None));
    model.add_function(Function::new("helper", vec![], vec![], None));
    let params = vec![Parameter::new("x", Type::Boolean), Parameter::new("y", Type::Boolean)];
    assert_eq!(Expr::Unresolved("z".to_string(), None).to_lang(&params, &model), "z?");
    assert_eq!(Expr::Parameter(ParameterId(1)).to_lang(&params, &model), "y");
    assert_eq!(Expr::Function(FunctionId(0)).to_lang(&params, &model), "helper");
    assert_eq!(Expr::LocalType(RlcTypeId(0)).to_lang(&params, &model), "Gripper");
    assert_eq!(Expr::ImportedType(TypeId(0)).to_lang(&params, &model), "Pose");
    assert_eq!(Expr::Skillset(SkillsetId(0)).to_lang(&params, &model), "nav");
}

#[test]
fn signatures_separate_parameters_by_commas() {
    let mut model = Model::default();
    model.add_type(RlcType::new("T", None));
    let none = DeclMethod::new("a", vec![], None);
    let one = DeclMethod::new("b", vec![Parameter::new("x", Type::Boolean)], None);
    let three = DeclMethod::new(
        "c",
        vec![
            Parameter::new("x", Type::LocalType(RlcTypeId(0))),
            Parameter::new("y", Type::Undefined),
            Parameter::new("z", unresolved("Q")),
        ],
        None,
    );
    assert_eq!(none.to_lang(&model), "a()");
    assert_eq!(one.to_lang(&model), "b(x: bool)");
    assert_eq!(three.to_lang(&model), "c(x: T, y: undef, z: Q?)");
}

#[test]
fn a_function_prints_its_body_line_by_line() {
    let mut model = Model::default();
    model.add_function(Function::new("helper", vec![], vec![], None));
    let f = Function::new(
        "f",
        vec![Parameter::new("x", Type::Boolean)],
        vec![
            Expr::Parameter(ParameterId(0)),
            Expr::Function(FunctionId(0)),
            Expr::Unresolved("later".to_string(), None),
        ],
        None,
    );
    assert_eq!(f.to_lang(&model), "f(x: bool) {\n    x\n    helper\n    later?\n}");
    assert_eq!(model.functions()[0].to_lang(&model), "helper() {\n}");
}

#[test]
fn robots_and_types_print_their_declaration() {
    let model = Model::default();
    assert_eq!(Robot::new("Arm1", None).to_lang(&model), "robot Arm1");
    assert_eq!(RlcType::new("Gripper", None).to_lang(&model), "type Gripper");
    assert_eq!(RlcType::new("Gripper", None).to_string(), "Gripper");
}

#[test]
fn a_partly_resolved_model_still_prints() {
    let mut model = Model::default();
    model.add_type(RlcType::new("T", None));
    model.add_function(Function::new(
        "f",
        vec![Parameter::new("a", unresolved("T")), Parameter::new("b", unresolved("Bad"))],
        vec![Expr::Unresolved("a".to_string(), None)],
        None,
    ));
    assert!(model.resolve().is_err());
    assert_eq!(model.to_string(), "type T\n\nf(a: T, b: Bad?) {\n    a?\n}\n");
}

#[test]
fn printing_changes_nothing() {
    let mut model = Model::default();
    model.add_type(RlcType::new("T", None));
    model.add_function(Function::new("f", vec![Parameter::new("a", unresolved("T"))], vec![], None));
    let first = model.to_string();
    let second = model.to_string();
    assert_eq!(first, second);
    assert_eq!(model.functions()[0].parameters()[0].typ(), &unresolved("T"));
}
