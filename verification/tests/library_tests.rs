use canticlec_churn::ball::Direction;
use canticlec_churn::library::{
    create_drum_samples, create_music_library, LibraryBuilder, LibraryManager, SampleLibraryBuilder, SPEED_1_5, SPEED_2,
    SPEED_3, SPEED_4,
};
use canticlec_churn::name_map::NameMap;
use canticlec_churn::programmer::Outcome;
use canticlec_churn::square::{Expression, Instruction, Value};

fn number(e: &Expression) -> String {
    match e {
        Expression::Literal(Value::Number(n)) => n.clone(),
        other => panic!("not a number: {:?}", other),
    }
}

const FILE: &str = "// drum helpers
library drums
def kick
create ball(1, 2)
set speed 3
  bounce
not an instruction
end
def snare
create square(4 , 5)
return

library empty
library fx
def whoosh
set speed 1.5
end
";

#[test]
fn a_library_file_gives_its_libraries_and_functions() {
    let mut m = LibraryManager::new();
    assert_eq!(m.parse_library_file(FILE, "x.lib"), Ok(()));
    assert!(m.function_libraries.get("empty").is_none());
    assert!(m.function_libraries.get("default").is_none());
    let drums = m.function_libraries.get("drums").unwrap();
    assert_eq!(drums.description, "Library loaded from x.lib");
    assert_eq!(drums.functions.len(), 2);
    let kick = m.get_function("drums", "kick").unwrap();
    assert_eq!(kick.name, "kick");
    assert!(kick.source_text.is_none());
    assert_eq!(kick.instructions.len(), 3);
    match &kick.instructions[0] {
        Instruction::CreateBall { x, y, speed, direction } => {
            assert_eq!(number(x), "1");
            assert_eq!(number(y), "2");
            assert_eq!(number(speed), "2.0");
            assert!(matches!(direction, Expression::Literal(Value::Direction(Direction::Right))));
        }
        other => panic!("unexpected {:?}", other),
    }
    match &kick.instructions[1] {
        Instruction::SetSpeed(e) => assert_eq!(number(e), "3"),
        other => panic!("unexpected {:?}", other),
    }
    assert!(matches!(kick.instructions[2], Instruction::Bounce));
    match &m.get_function("drums", "snare").unwrap().instructions[..] {
        [Instruction::CreateSquare { x, y }] => {
            assert_eq!(number(x), "4");
            assert_eq!(number(y), "5");
        }
        other => panic!("unexpected {:?}", other),
    }
    assert_eq!(m.get_function("fx", "whoosh").unwrap().instructions.len(), 1);
    assert!(m.get_function("fx", "kick").is_none());
    assert!(m.get_function("nope", "kick").is_none());
}

#[test]
fn functions_before_any_library_line_go_to_the_default_library() {
    let mut m = LibraryManager::new();
    assert_eq!(m.parse_library_file("def hop\nbounce\nend", "a.lib"), Ok(()));
    assert!(m.get_function("default", "hop").is_some());
}

#[test]
fn bad_lines_stop_reading_and_keep_what_was_read() {
    let mut m = LibraryManager::new();
    let r = m.parse_library_file("library a\ndef f\nbounce\nend\nlibrary b\ndef g\nset speedy 3\nend", "p");
    assert_eq!(r, Err("Invalid set speed syntax: set speedy 3".to_string()));
    assert!(m.get_function("a", "f").is_some());
    assert!(m.function_libraries.get("b").is_none());
    let mut m = LibraryManager::new();
    assert_eq!(
        m.parse_library_file("def f\ncreate ball(a, b)\nend", "p"),
        Err("Invalid create ball syntax: create ball(a, b)".to_string())
    );
    assert_eq!(
        m.parse_library_file("def f\ncreate square(1)\nend", "p"),
        Err("Invalid create square syntax: create square(1)".to_string())
    );
}

#[test]
fn backwards_parentheses_are_reported_as_a_panic() {
    let mut m = LibraryManager::new();
    assert!(matches!(m.read_library_file("def f\ncreate ball)1, 2(\nend", "p"), Outcome::Panic));
    let mut m = LibraryManager::new();
    assert!(matches!(m.read_library_file("library z\ndef f\nbounce\nend", "p"), Outcome::Done(())));
    assert!(m.get_function("z", "f").is_some());
}

#[test]
fn later_libraries_replace_earlier_ones_of_the_same_name() {
    let mut m = LibraryManager::new();
    m.add_function_library(LibraryBuilder::new("lib").add_bounce_function("a").build());
    m.add_function_library(LibraryBuilder::new("lib").add_bounce_function("b").build());
    assert!(m.get_function("lib", "a").is_none());
    assert!(m.get_function("lib", "b").is_some());
    assert_eq!(m.function_libraries.len(), 1);
}

#[test]
fn the_default_libraries_hold_the_built_in_functions_and_templates() {
    let mut m = LibraryManager::new();
    m.create_default_libraries();
    let lib = m.function_libraries.get("lib").unwrap();
    assert_eq!(lib.description, "Default function library with common behaviors");
    assert_eq!(lib.functions.len(), 5);
    assert!(matches!(m.get_function("lib", "bounce").unwrap().instructions[..], [Instruction::Bounce]));
    match &m.get_function("lib", "speed_boost").unwrap().instructions[..] {
        [Instruction::SetSpeed(e)] => assert_eq!(number(e), "3.0"),
        other => panic!("unexpected {:?}", other),
    }
    assert_eq!(m.get_function("lib", "multi_creator").unwrap().instructions.len(), 2);
    let red = m.get_sample_template("default", "red_bouncer").unwrap();
    assert_eq!(f32::from_bits(red.default_speed), 2.0);
    assert_eq!(red.default_direction, Direction::Right);
    assert_eq!(red.color, "Red");
    assert_eq!(red.behavior_program.as_deref(), Some("bounce"));
    let green = m.get_ball_sample("default", "green_cycler").unwrap();
    assert_eq!(f32::from_bits(green.default_speed), 1.5);
    assert!(m.get_square_sample("default", "blue_speedster").is_some());
    assert!(m.get_sample_template("default", "purple").is_none());
}

#[test]
fn speed_constants_are_the_bits_of_their_floats() {
    assert_eq!(SPEED_1_5, 1.5f32.to_bits());
    assert_eq!(SPEED_2, 2.0f32.to_bits());
    assert_eq!(SPEED_3, 3.0f32.to_bits());
    assert_eq!(SPEED_4, 4.0f32.to_bits());
}

#[test]
fn builders_describe_and_fill_their_libraries() {
    let l = LibraryBuilder::new("mine").add_speed_function("slow", "0.5").add_direction_function("up", Direction::Up).build();
    assert_eq!(l.name, "mine");
    assert_eq!(l.description, "Library: mine");
    assert_eq!(l.functions.len(), 2);
    let s = SampleLibraryBuilder::new("kit").with_description("my kit").add_bouncing_ball("b", SPEED_2, Direction::Left, "Cyan").build();
    assert_eq!(s.description, "my kit");
    assert_eq!(s.samples.get("b").unwrap().behavior_program.as_deref(), Some("bounce"));
    let creator = LibraryBuilder::new("c").add_ball_creator("mk", "1", "2", "3", Direction::Down).add_square_creator("sq", "7", "8").build();
    match &creator.functions.get("sq").unwrap().instructions[..] {
        [Instruction::CreateSquare { x, y }] => assert_eq!((number(x), number(y)), ("7".to_string(), "8".to_string())),
        other => panic!("unexpected {:?}", other),
    }
}

#[test]
fn the_examples_hold_their_functions_and_samples() {
    let music = create_music_library();
    assert_eq!(music.name, "music");
    assert_eq!(music.functions.len(), 4);
    assert_eq!(music.functions.get("kick_pattern").unwrap().instructions.len(), 2);
    let drums = create_drum_samples();
    assert_eq!(drums.samples.len(), 4);
    assert_eq!(f32::from_bits(drums.samples.get("crash").unwrap().default_speed), 4.0);
    assert_eq!(drums.samples.get("hihat").unwrap().color, "Yellow");
}

#[test]
fn a_name_map_keeps_the_last_value_of_each_name() {
    let mut m: NameMap<u32> = NameMap::new();
    assert!(m.is_empty());
    m.insert("a".to_string(), 1);
    m.insert("b".to_string(), 2);
    m.insert("a".to_string(), 3);
    assert_eq!(m.len(), 2);
    assert_eq!(m.get("a"), Some(&3));
    assert_eq!(m.get("b"), Some(&2));
    assert_eq!(m.get("c"), None);
}
