use canticlec_churn::console::{add_error_comment, parse_console_command, ConsoleCommand};
use canticlec_churn::library::{auto_sample_template, LibraryBuilder, LibraryManager, SPEED_2};
use canticlec_churn::ball::Direction;
use canticlec_churn::sequencer::{
    cooldown_allows, find_last_ball_collision, record_collision, resolve_ball_reference, touch_cooldown,
    CollisionCooldown, CollisionEvent,
};
use canticlec_churn::square::{copy_cell, Cell, Instruction, Program};
use canticlec_churn::timing::key_repeat;
use std::collections::VecDeque;

fn event(ball_index: usize, color: &str, x: usize, y: usize) -> CollisionEvent {
    CollisionEvent { ball_index, ball_color: color.to_string(), square_x: x, square_y: y, timestamp: 0 }
}

#[test]
fn the_collision_history_keeps_the_last_hundred() {
    let mut h = VecDeque::new();
    for i in 0..105 {
        record_collision(&mut h, event(i, "Red", 0, 0));
    }
    assert_eq!(h.len(), 100);
    assert_eq!(h.front().unwrap().ball_index, 5);
    assert_eq!(h.back().unwrap().ball_index, 104);
}

#[test]
fn the_latest_matching_collision_names_the_ball() {
    let mut h = VecDeque::new();
    record_collision(&mut h, event(1, "c_red", 2, 3));
    record_collision(&mut h, event(2, "c_blue", 2, 3));
    record_collision(&mut h, event(3, "c_red", 2, 3));
    record_collision(&mut h, event(4, "c_red", 5, 5));
    assert_eq!(find_last_ball_collision(&h, "c_red", 2, 3), Some(3));
    assert_eq!(find_last_ball_collision(&h, "c_green", 2, 3), None);
    assert_eq!(resolve_ball_reference(&h, "last.c_red.self(-10)", 2, 3), Some(3));
    assert_eq!(resolve_ball_reference(&h, "last.c_blue.self", 2, 3), Some(2));
    assert_eq!(resolve_ball_reference(&h, "last.c_red.other", 2, 3), None);
    assert_eq!(resolve_ball_reference(&h, "first.c_red.self", 2, 3), None);
    assert_eq!(resolve_ball_reference(&h, "last.c_red", 2, 3), None);
}

#[test]
fn cooldowns_are_renewed_or_added_up_to_fifty() {
    let t0: u64 = 1_000;
    let mut cs: Vec<CollisionCooldown> = Vec::new();
    assert!(cooldown_allows(&cs, 0, 1, 1, t0));
    touch_cooldown(&mut cs, 0, 1, 1, t0);
    assert_eq!(cs.len(), 1);
    assert!(!cooldown_allows(&cs, 0, 1, 1, t0));
    assert!(!cooldown_allows(&cs, 0, 1, 1, t0 + 99));
    assert!(cooldown_allows(&cs, 0, 1, 1, t0 + 100));
    assert!(!cooldown_allows(&cs, 0, 1, 1, t0 - 500));
    assert!(cooldown_allows(&cs, 1, 1, 1, t0));
    let t1 = t0 + 7;
    touch_cooldown(&mut cs, 0, 1, 1, t1);
    assert_eq!(cs.len(), 1);
    assert_eq!(cs[0].last_collision, t1);
    for b in 1..60 {
        touch_cooldown(&mut cs, b, 0, 0, t0);
    }
    assert_eq!(cs.len(), 50);
    assert_eq!(cs[0].ball_index, 10);
}

#[test]
fn a_held_key_repeats_once_the_rate_has_passed() {
    let mut last = None;
    assert!(key_repeat(&mut last, 100, false, true, 5));
    assert_eq!(last, Some(5));
    assert!(!key_repeat(&mut last, 100, true, false, 104));
    assert_eq!(last, Some(5));
    assert!(key_repeat(&mut last, 100, true, false, 105));
    assert_eq!(last, Some(105));
    assert!(!key_repeat(&mut last, 100, false, false, 900));
    assert_eq!(last, Some(105));
    let mut fresh = None;
    assert!(!key_repeat(&mut fresh, 100, true, true, 40));
    assert_eq!(fresh, Some(40));
}

#[test]
fn console_lines_become_library_commands() {
    assert!(matches!(parse_console_command("   "), ConsoleCommand::Ignored));
    assert!(matches!(parse_console_command("play"), ConsoleCommand::Ignored));
    assert!(matches!(parse_console_command("lib"), ConsoleCommand::ShowHelp));
    assert!(matches!(parse_console_command(" LIBRARY   list "), ConsoleCommand::ListLibraries));
    assert!(matches!(parse_console_command("Lib functions"), ConsoleCommand::ListFunctions(None)));
    match parse_console_command("lib samples drums") {
        ConsoleCommand::ListSamples(Some(l)) => assert_eq!(l, "drums"),
        _ => panic!("expected a sample listing"),
    }
    assert!(matches!(parse_console_command("lib clear auto"), ConsoleCommand::ClearAuto));
    assert!(matches!(parse_console_command("lib clear all"), ConsoleCommand::ClearUsage));
    assert!(matches!(parse_console_command("lib frobnicate"), ConsoleCommand::ShowHelp));
}

#[test]
fn runtime_errors_are_noted_once_in_the_program_text() {
    let mut text = vec!["def a".to_string(), "return nowhere".to_string(), "end".to_string()];
    add_error_comment(&mut text, "Unknown function: nowhere");
    assert_eq!(text[2], "// RUNTIME ERROR: Unknown function: nowhere");
    assert_eq!(text.len(), 4);
    add_error_comment(&mut text, "Unknown function: nowhere");
    assert_eq!(text.len(), 4);
    add_error_comment(&mut text, "Division by zero");
    assert_eq!(text[0], "// RUNTIME ERROR: Division by zero");
    assert_eq!(text.len(), 5);
}

#[test]
fn copied_cells_hold_the_same_programs() {
    let mut c = Cell::new_square([1, 2, 3]);
    c.program.add_program(Program { instructions: vec![Instruction::Stop], name: "x".to_string(), source_text: None });
    c.display_text = Some("hi".to_string());
    let d = copy_cell(&c);
    assert_eq!(d.color, [1, 2, 3]);
    assert_eq!(d.program.programs.len(), 2);
    assert_eq!(d.program.programs[1].name, "x");
    assert_eq!(d.display_text, Some("hi".to_string()));
    assert_eq!(d.program.steps, c.program.steps);
}

#[test]
fn made_programs_and_samples_go_to_the_auto_library_once() {
    let mut m = LibraryManager::new();
    let p = Program { instructions: vec![Instruction::Bounce], name: "hop".to_string(), source_text: None };
    assert!(m.add_program_to_auto(p));
    let again = Program { instructions: vec![], name: "hop".to_string(), source_text: None };
    assert!(!m.add_program_to_auto(again));
    assert_eq!(m.get_function("auto", "hop").unwrap().instructions.len(), 1);
    assert_eq!(
        m.function_libraries.get("auto").unwrap().description,
        "Automatically generated functions from square programs"
    );
    let t = auto_sample_template("kick.wav", "ball");
    assert_eq!(t.color, "white");
    assert_eq!(t.default_speed, SPEED_2);
    assert_eq!(t.default_direction, Direction::Up);
    assert!(m.add_sample_to_auto(t));
    assert!(!m.add_sample_to_auto(auto_sample_template("kick.wav", "square")));
    assert_eq!(m.get_sample_template("auto", "kick.wav").unwrap().color, "white");
    assert_eq!(auto_sample_template("x", "square").color, "gray");
    m.add_function_library(LibraryBuilder::new("keep").add_bounce_function("b").build());
    m.clear_auto_library();
    assert!(m.function_libraries.get("auto").is_none());
    assert!(m.sample_libraries.get("auto").is_none());
    assert!(m.get_function("keep", "b").is_some());
}
