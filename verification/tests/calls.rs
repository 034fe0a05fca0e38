use rlc_model::{Model, RosCall, RosCallType};

#[test]
fn registering_a_call_twice_keeps_one() {
    let mut model = Model::default();
    model.add_ros_call("/cmd_vel".to_string(), RosCallType::Publish);
    model.add_ros_call("/cmd_vel".to_string(), RosCallType::Publish);
    assert_eq!(model.ros_calls().len(), 1);
    assert_eq!(model.ros_calls()[0], RosCall::new("/cmd_vel".to_string(), RosCallType::Publish));
}

#[test]
fn calls_differ_by_topic_or_by_kind() {
    let mut model = Model::default();
    model.add_ros_call("/cmd_vel".to_string(), RosCallType::Publish);
    model.add_ros_call("/cmd_vel".to_string(), RosCallType::Subscribe);
    model.add_ros_call("/odom".to_string(), RosCallType::Publish);
    model.add_ros_call("/odom".to_string(), RosCallType::Publish);
    model.add_ros_call("/cmd_vel".to_string(), RosCallType::Subscribe);
    assert_eq!(model.ros_calls().len(), 3);
    let has = |topic: &str, typ: RosCallType| {
        model.ros_calls().iter().any(|c| c.topic() == topic && c.typ() == typ)
    };
    assert!(has("/cmd_vel", RosCallType::Publish));
    assert!(has("/cmd_vel", RosCallType::Subscribe));
    assert!(has("/odom", RosCallType::Publish));
    assert!(!has("/odom", RosCallType::Subscribe));
    assert!(!has("/cmd_vel", RosCallType::Service));
    assert!(!has("/cmd_vel", RosCallType::Action));
}

#[test]
fn registering_calls_leaves_the_declarations_alone() {
    let mut model = Model::default();
    model.add_include("a.rl");
    model.add_ros_call("/t".to_string(), RosCallType::Service);
    assert_eq!(model.includes().len(), 1);
    assert!(model.robots().is_empty());
    assert!(model.duplicate().is_ok());
}
