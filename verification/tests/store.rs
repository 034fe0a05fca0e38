use rlc_model::{
    DeclMethod, DeclMethodId, Function, FunctionId, GetFromId, ImportedModel, Model, RlcType,
    RlcTypeId, Robot, RobotId, SkillsetId, TypeId,
};

#[test]
fn empty_model_holds_nothing() {
    let model = Model::default();
    assert!(model.includes().is_empty());
    assert!(model.robots().is_empty());
    assert!(model.types().is_empty());
    assert!(model.functions().is_empty());
    assert!(model.declared_methods().is_empty());
    assert!(model.ros_calls().is_empty());
    assert!(model.imported_model.skillsets().is_empty());
    assert!(model.imported_model.types().is_empty());
}

#[test]
fn robot_handles_are_insertion_indices() {
    let mut model = Model::default();
    let a = model.add_robot(Robot::new("a", None));
    let b = model.add_robot(Robot::new("b", None));
    let c = model.add_robot(Robot::new("c", None));
    assert_eq!(a, RobotId(0));
    assert_eq!(b, RobotId(1));
    assert_eq!(c, RobotId(2));
    assert!(a.index() < b.index() && b.index() < c.index());
    let names: Vec<&str> = model.robots().iter().map(|r| r.name()).collect();
    assert_eq!(names, vec!["a", "b", "c"]);
    for (i, r) in model.robots().iter().enumerate() {
        assert_eq!(r.id(), RobotId(i));
    }
}

#[test]
fn handles_do_not_change_when_more_is_added() {
    let mut model = Model::default();
    let first = model.add_function(Function::new("f", vec![], vec![], None));
    assert_eq!(model.get_function(first).unwrap().id(), first);
    let second = model.add_function(Function::new("g", vec![], vec![], None));
    assert_eq!(first, FunctionId(0));
    assert_eq!(second, FunctionId(1));
    assert_eq!(model.get_function(first).unwrap().id(), first);
    assert_eq!(model.get_function(first).unwrap().name(), "f");
    assert_eq!(model.get_function(second).unwrap().name(), "g");
}

#[test]
fn each_kind_counts_its_own_handles() {
    let mut model = Model::default();
    let r = model.add_robot(Robot::new("x", None));
    model.add_type(RlcType::new("x", None));
    let f = model.add_function(Function::new("x", vec![], vec![], None));
    let d = model.add_declared_method(DeclMethod::new("x", vec![], None));
    assert_eq!(r.index(), 0);
    assert_eq!(model.types()[0].id(), RlcTypeId(0));
    assert_eq!(f.index(), 0);
    assert_eq!(d, DeclMethodId(0));
    let d2 = model.add_declared_method(DeclMethod::new("y", vec![], None));
    assert_eq!(d2, DeclMethodId(1));
}

#[test]
fn a_handle_set_beforehand_is_replaced() {
    let mut model = Model::default();
    let mut robot = Robot::new("a", None);
    robot.set_id(RobotId(17));
    let id = model.add_robot(robot);
    assert_eq!(id, RobotId(0));
    assert_eq!(model.robots()[0].id(), RobotId(0));
}

#[test]
fn lookup_out_of_range_finds_nothing() {
    let mut model = Model::default();
    assert!(model.get_type(RlcTypeId(0)).is_none());
    assert!(model.get_function(FunctionId(0)).is_none());
    assert!(model.get_declared_method(DeclMethodId(0)).is_none());
    model.add_type(RlcType::new("T", None));
    assert_eq!(model.get_type(RlcTypeId(0)).unwrap().name(), "T");
    assert!(model.get_type(RlcTypeId(1)).is_none());
    assert!(model.get_type(RlcTypeId(usize::MAX)).is_none());
}

#[test]
fn get_types_copies_the_types() {
    let mut model = Model::default();
    model.add_type(RlcType::new("A", None));
    model.add_type(RlcType::new("B", None));
    let copy = model.get_types();
    assert_eq!(copy.len(), 2);
    assert_eq!(copy[0].name(), "A");
    assert_eq!(copy[1].name(), "B");
    assert_eq!(copy[1].id(), RlcTypeId(1));
    assert_eq!(&copy, model.types());
}

#[test]
fn get_through_the_trait_is_get_function() {
    let mut model = Model::default();
    let id = model.add_function(Function::new("f", vec![], vec![], None));
    let found: Option<&Function> = model.get(id);
    assert_eq!(found.unwrap().name(), "f");
    let missing: Option<&Function> = model.get(FunctionId(3));
    assert!(missing.is_none());
}

#[test]
fn includes_keep_their_order_and_their_duplicates() {
    let mut model = Model::default();
    model.add_include("b.rl");
    model.add_include("a.rl");
    model.add_include("b.rl");
    assert_eq!(model.includes(), &vec!["b.rl".to_string(), "a.rl".to_string(), "b.rl".to_string()]);
}

#[test]
fn imported_model_hands_out_indices() {
    let mut imported = ImportedModel::new();
    let s0 = imported.add_skillset("nav");
    let s1 = imported.add_skillset("arm");
    let t0 = imported.add_type("Pose");
    assert_eq!(s0, SkillsetId(0));
    assert_eq!(s1, SkillsetId(1));
    assert_eq!(t0, TypeId(0));
    assert_eq!(imported.get_skillset(s1).unwrap().name(), "arm");
    assert_eq!(imported.get_skillset(s1).unwrap().id(), s1);
    assert_eq!(imported.get_type(t0).unwrap().name(), "Pose");
    assert_eq!(imported.get_type(t0).unwrap().to_string(), "Pose");
    assert!(imported.get_skillset(SkillsetId(2)).is_none());
    assert!(imported.get_type(TypeId(1)).is_none());
    assert_eq!(imported.skillsets().len(), 2);
    assert_eq!(imported.types().len(), 1);
    assert_eq!(imported.skillsets()[0].to_string(), "nav");
}

#[test]
fn a_copy_of_a_model_is_equal_in_every_store() {
    let mut model = Model::default();
    model.add_include("a.rl");
    model.add_robot(Robot::new("r", None));
    model.add_type(RlcType::new("T", None));
    model.add_function(Function::new("f", vec![], vec![], None));
    model.imported_model.add_skillset("nav");
    let copy = model.clone();
    assert_eq!(copy.includes(), model.includes());
    assert_eq!(copy.robots(), model.robots());
    assert_eq!(copy.types(), model.types());
    assert_eq!(copy.functions(), model.functions());
    assert_eq!(copy.declared_methods(), model.declared_methods());
    assert_eq!(copy.imported_model.skillsets(), model.imported_model.skillsets());
}
