use canticlec_churn::ball::Direction;
use canticlec_churn::console::{
    all_function_messages, library_function_messages, library_help_messages, library_list_messages, push_console_message,
    CONSOLE_LIMIT,
};
use canticlec_churn::library::{LibraryBuilder, LibraryManager, SampleLibraryBuilder, SPEED_2};
use canticlec_churn::sequencer::{add_error_comment_to_program, clear_cell_at, place_square_at, GRID_HEIGHT, GRID_WIDTH};
use canticlec_churn::square::{Cell, CellContent, Instruction, Program};
use std::collections::VecDeque;

fn grid() -> [[Cell; GRID_WIDTH]; GRID_HEIGHT] {
    std::array::from_fn(|_| std::array::from_fn(|_| Cell::new_empty()))
}

fn manager() -> LibraryManager {
    let mut m = LibraryManager::new();
    m.add_function_library(
        LibraryBuilder::new("lib").with_description("Common").add_bounce_function("bounce").add_speed_function("fast", "3.0").build(),
    );
    m.add_sample_library(
        SampleLibraryBuilder::new("drums").with_description("Kit").add_bouncing_ball("kick", SPEED_2, Direction::Up, "red").build(),
    );
    m
}

#[test]
fn the_console_keeps_the_last_ten_messages() {
    let mut console = VecDeque::new();
    for i in 0..12 {
        push_console_message(&mut console, format!("m{}", i));
    }
    assert_eq!(console.len(), CONSOLE_LIMIT);
    assert_eq!(console.front().unwrap(), "m2");
    assert_eq!(console.back().unwrap(), "m11");
}

#[test]
fn the_help_lists_the_library_commands() {
    let help = library_help_messages();
    assert_eq!(help.len(), 5);
    assert_eq!(help[0], "Library Commands:");
    assert_eq!(help[4], "  lib clear auto - Clear auto-generated library");
}

#[test]
fn the_library_list_counts_functions_and_samples() {
    let lines = library_list_messages(&manager());
    assert_eq!(
        lines,
        vec![
            "Function Libraries:".to_string(),
            "  lib - Common (2 functions)".to_string(),
            "Sample Libraries:".to_string(),
            "  drums - Kit (1 samples)".to_string(),
        ]
    );
}

#[test]
fn functions_are_listed_with_their_instruction_counts() {
    let m = manager();
    assert_eq!(
        library_function_messages(&m, "lib"),
        vec![
            "Functions in 'lib' library:".to_string(),
            "  bounce - 1 instructions".to_string(),
            "  fast - 1 instructions".to_string(),
        ]
    );
    assert_eq!(library_function_messages(&m, "nope"), vec!["Function library 'nope' not found".to_string()]);
    assert_eq!(
        all_function_messages(&m),
        vec![
            "Functions in 'lib' library:".to_string(),
            "  lib.bounce - 1 instructions".to_string(),
            "  lib.fast - 1 instructions".to_string(),
        ]
    );
}

#[test]
fn squares_are_placed_and_cleared_on_the_grid_only() {
    let mut cells = grid();
    place_square_at(&mut cells, 3, 4);
    assert_eq!(cells[4][3].content, CellContent::Square);
    assert_eq!(cells[4][3].color, [255, 100, 100]);
    place_square_at(&mut cells, GRID_WIDTH, 0);
    assert_eq!(cells[0][0].content, CellContent::Empty);
    clear_cell_at(&mut cells, 3, 4);
    assert_eq!(cells[4][3].content, CellContent::Empty);
    assert_eq!(cells[4][3].color, [100, 100, 100]);
}

#[test]
fn an_error_is_noted_in_the_active_program_text() {
    let mut cells = grid();
    place_square_at(&mut cells, 1, 1);
    cells[1][1].program.add_program(Program {
        instructions: vec![Instruction::Stop],
        name: "p".to_string(),
        source_text: Some(vec!["def p".to_string(), "return missing".to_string()]),
    });
    cells[1][1].program.set_active_program(Some(1));
    add_error_comment_to_program(&mut cells, 1, 1, "Unknown function: missing");
    assert_eq!(
        cells[1][1].program.programs[1].source_text,
        Some(vec![
            "def p".to_string(),
            "return missing".to_string(),
            "// RUNTIME ERROR: Unknown function: missing".to_string(),
        ])
    );
    // The default program keeps no text, so nothing is noted in it.
    cells[1][1].program.set_active_program(Some(0));
    add_error_comment_to_program(&mut cells, 1, 1, "Other");
    assert!(cells[1][1].program.programs[0].source_text.is_none());
}

#[test]
fn saved_programs_go_to_their_library_made_if_missing() {
    let mut m = manager();
    let p = Program { instructions: vec![Instruction::Bounce], name: "hop".to_string(), source_text: None };
    assert!(!m.store_function("mine", "hop".to_string(), p));
    let lib = m.function_libraries.get("mine").unwrap();
    assert_eq!(lib.description, "User created library: mine");
    assert!(m.get_function("mine", "hop").is_some());
    let q = Program { instructions: vec![Instruction::Stop], name: "hop".to_string(), source_text: None };
    assert!(!m.replace_function("other", "hop".to_string(), q));
    assert!(m.function_libraries.get("other").is_none());
    let q = Program { instructions: vec![Instruction::Stop], name: "hop".to_string(), source_text: None };
    assert!(m.replace_function("mine", "hop".to_string(), q));
    assert!(matches!(m.get_function("mine", "hop").unwrap().instructions[0], Instruction::Stop));
}
