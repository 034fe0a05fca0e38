use line_col::LineColLookup;
use rlc_model::{Identifier, Position};

#[test]
fn position_of_an_offset_is_line_and_column() {
    let text = "One\nTwo";
    let lookup = LineColLookup::new(text);
    let p = Position::new("main.rl", &lookup, 4);
    assert_eq!(p.file, "main.rl");
    assert_eq!(p.line, 2);
    assert_eq!(p.column, 1);
    let q = Position::new("main.rl", &lookup, 2);
    assert_eq!((q.line, q.column), (1, 3));
}

#[test]
fn position_at_the_end_of_the_text() {
    let text = "One\nTwo";
    let lookup = LineColLookup::new(text);
    let p = Position::new("main.rl", &lookup, 7);
    assert_eq!((p.line, p.column), (2, 4));
    let empty = LineColLookup::new("");
    let q = Position::new("main.rl", &empty, 0);
    assert_eq!((q.line, q.column), (1, 1));
}

#[test]
fn position_after_a_final_line_break() {
    let text = "a\n";
    let lookup = LineColLookup::new(text);
    let at_break = Position::new("f", &lookup, 1);
    assert_eq!((at_break.line, at_break.column), (1, 2));
    let after = Position::new("f", &lookup, 2);
    assert_eq!((after.line, after.column), (2, 1));
}

#[test]
fn columns_count_bytes() {
    let text = "é=1\nx";
    let lookup = LineColLookup::new(text);
    let p = Position::new("f", &lookup, 2);
    assert_eq!((p.line, p.column), (1, 3));
    let q = Position::new("f", &lookup, 5);
    assert_eq!((q.line, q.column), (2, 1));
}

#[test]
fn locate_checks_the_offset() {
    let text = "a\nab\nabc";
    assert_eq!(
        Position::locate("f", text, 5),
        Some(Position { file: "f".to_string(), line: 3, column: 1 })
    );
    assert_eq!(
        Position::locate("f", text, 8),
        Some(Position { file: "f".to_string(), line: 3, column: 4 })
    );
    assert_eq!(Position::locate("f", text, 9), None);
    assert_eq!(Position::locate("f", "", 1), None);
}

#[test]
fn locate_and_new_agree() {
    let text = "robot Arm1\ntype Gripper\n";
    let lookup = LineColLookup::new(text);
    for offset in 0..=text.len() {
        let a = Position::new("f", &lookup, offset);
        let b = Position::locate("f", text, offset).unwrap();
        assert_eq!(a, b);
    }
}

#[test]
fn identifier_carries_name_and_position() {
    let text = "robot Arm1\ntype Gripper\n";
    let lookup = LineColLookup::new(text);
    let id = Identifier::new("main.rl", &lookup, "Gripper", 16);
    assert_eq!(id.name, "Gripper");
    assert_eq!(id.position, Position { file: "main.rl".to_string(), line: 2, column: 6 });
}

#[test]
fn a_copy_of_a_position_is_equal() {
    let p = Position { file: "f".to_string(), line: 3, column: 9 };
    assert_eq!(p.clone(), p);
}
