use canticlec_churn::ball::Direction;
use canticlec_churn::programmer::SimpleProgramParser;
use canticlec_churn::square::{BallProperty, BinaryOperator, Expression, Instruction, Value};

#[test]
fn relative_speed_adds_to_the_ball_speed() {
    let parser = SimpleProgramParser::new();
    let p = parser.parse_program("def faster\nset speed +0.5\nend").unwrap();
    assert_eq!(p.name, "faster");
    assert_eq!(p.instructions.len(), 2);
    match &p.instructions[0] {
        Instruction::SetSpeed(Expression::BinaryOp { left, op, right }) => {
            assert!(matches!(**left, Expression::BallProperty(BallProperty::Speed)));
            assert_eq!(*op, BinaryOperator::Add);
            match &**right {
                Expression::Literal(Value::Number(n)) => assert_eq!(n, "+0.5"),
                other => panic!("unexpected {:?}", other),
            }
        }
        other => panic!("unexpected {:?}", other),
    }
    assert!(matches!(p.instructions[1], Instruction::End));
}

#[test]
fn set_direction_names_are_mirrored() {
    let parser = SimpleProgramParser::new();
    let p = parser.parse_program("def turn\nset direction up\nset direction down-left\nreturn").unwrap();
    assert!(matches!(
        p.instructions[0],
        Instruction::SetDirection(Expression::Literal(Value::Direction(Direction::Down)))
    ));
    assert!(matches!(
        p.instructions[1],
        Instruction::SetDirection(Expression::Literal(Value::Direction(Direction::UpRight)))
    ));
    assert!(matches!(p.instructions[2], Instruction::Return(None)));
}

#[test]
fn empty_source_is_refused() {
    let parser = SimpleProgramParser::new();
    assert_eq!(parser.parse_multiple_programs("").err(), Some("Empty program".to_string()));
    assert_eq!(parser.parse_multiple_programs("  \n\n   ").err(), Some("Empty program".to_string()));
}

#[test]
fn source_must_start_with_a_definition() {
    let parser = SimpleProgramParser::new();
    assert_eq!(
        parser.parse_multiple_programs("bounce\ndef x").err(),
        Some("Expected 'def function_name', found: bounce".to_string())
    );
}

#[test]
fn unknown_lines_are_reported() {
    let parser = SimpleProgramParser::new();
    assert_eq!(
        parser.parse_program("def broken\nfly away\nend").err(),
        Some("Failed to parse line: fly away".to_string())
    );
}

#[test]
fn several_definitions_give_several_programs() {
    let parser = SimpleProgramParser::new();
    let ps = parser.parse_multiple_programs("def one\nset speed 2\nend\ndef two\nreturn one").unwrap();
    assert_eq!(ps.len(), 2);
    assert_eq!(ps[0].name, "one");
    assert_eq!(ps[1].name, "two");
    match &ps[0].instructions[0] {
        Instruction::SetSpeed(Expression::Literal(Value::Number(n))) => assert_eq!(n, "2"),
        other => panic!("unexpected {:?}", other),
    }
    match &ps[1].instructions[0] {
        Instruction::Return(Some(name)) => assert_eq!(name, "one"),
        other => panic!("unexpected {:?}", other),
    }
}

#[test]
fn hit_conditions_open_if_blocks_closed_by_then() {
    let parser = SimpleProgramParser::new();
    let source = "def speed_increase\nif c_red hits self 1 times\nset speed +0.1\nand\nif c_red hits self 2 times\nset speed 10\nthen\ndef example\nreturn";
    let ps = parser.parse_multiple_programs(source).unwrap();
    assert_eq!(ps.len(), 2);
    assert_eq!(ps[1].name, "example");
    let p = &ps[0];
    assert_eq!(p.name, "speed_increase");
    assert_eq!(p.instructions.len(), 2);
    match &p.instructions[0] {
        Instruction::If { condition, then_block, else_block } => {
            assert!(else_block.is_none());
            assert_eq!(then_block.len(), 1);
            match condition {
                Expression::BinaryOp { left, op, right } => {
                    assert_eq!(*op, BinaryOperator::Equal);
                    assert!(matches!(**left, Expression::Variable(_)));
                    assert!(matches!(**right, Expression::Literal(Value::Number(_))));
                }
                other => panic!("unexpected {:?}", other),
            }
        }
        other => panic!("unexpected {:?}", other),
    }
    match &p.instructions[1] {
        Instruction::If { then_block, .. } => {
            assert_eq!(then_block.len(), 2);
            assert!(matches!(then_block[1], Instruction::ContinueToNext));
        }
        other => panic!("unexpected {:?}", other),
    }
}

#[test]
fn parse_program_gives_the_first_definition() {
    let parser = SimpleProgramParser::new();
    let p = parser.parse_program("def first\nend\ndef second\nend").unwrap();
    assert_eq!(p.name, "first");
}

#[test]
fn library_calls_and_prints_are_instructions() {
    let parser = SimpleProgramParser::new();
    let p = parser.parse_program("def calls\nlib.drums.kick\nend").unwrap();
    match &p.instructions[0] {
        Instruction::ExecuteLibraryFunction { library_function } => assert_eq!(library_function, "lib.drums.kick"),
        other => panic!("unexpected {:?}", other),
    }
}

#[test]
fn a_definition_after_an_open_block_is_read_as_the_next_program() {
    let parser = SimpleProgramParser::new();
    let source = "def speed_increase\nif c_red hits self 1 times\nset speed relative +0.1\nand\nif c_red hits self 1 times\nset speed relative 10\nthen\ndef example\nreturn";
    let v = parser.parse_multiple_programs(source).unwrap();
    assert_eq!(v.len(), 2);
    assert_eq!(v[0].name, "speed_increase");
    assert_eq!(v[1].name, "example");
    assert_eq!(v[1].instructions.len(), 1);
    assert!(matches!(v[1].instructions[0], Instruction::Return(None)));
    assert_eq!(parser.parse_program(source).unwrap().name, "speed_increase");
}
