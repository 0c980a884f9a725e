use canticlec_churn::ball::Direction;
use canticlec_churn::library::{LibraryBuilder, LibraryManager, SampleLibraryBuilder, SPEED_2};
use canticlec_churn::library_gui::{
    EditingMode, LibraryColumn, LibraryGui, LibraryGuiAction, LibraryGuiState, LibraryKeys, ProgramSource, SampleSource,
};
use canticlec_churn::program_editor::ProgramEditorAction;
use canticlec_churn::sequencer::{GRID_HEIGHT, GRID_WIDTH};
use canticlec_churn::square::{Cell, Instruction, Program};

fn grid() -> [[Cell; GRID_WIDTH]; GRID_HEIGHT] {
    std::array::from_fn(|_| std::array::from_fn(|_| Cell::new_empty()))
}

fn program(name: &str, text: Option<Vec<&str>>) -> Program {
    Program {
        instructions: vec![Instruction::Stop],
        name: name.to_string(),
        source_text: text.map(|t| t.into_iter().map(|s| s.to_string()).collect()),
    }
}

fn manager() -> LibraryManager {
    let mut m = LibraryManager::new();
    m.add_function_library(
        LibraryBuilder::new("lib").add_bounce_function("bounce").add_bounce_function("wobble").build(),
    );
    m.add_function_library(LibraryBuilder::new("extra").add_bounce_function("jump").add_bounce_function("wobble").build());
    m.add_sample_library(
        SampleLibraryBuilder::new("auto").add_bouncing_ball("hit.wav", SPEED_2, Direction::Up, "white").build(),
    );
    m.add_sample_library(
        SampleLibraryBuilder::new("lib").add_bouncing_ball("kick", SPEED_2, Direction::Up, "red").build(),
    );
    m
}

fn no_keys() -> LibraryKeys {
    LibraryKeys {
        escape: false,
        tab: false,
        left: false,
        right: false,
        up: false,
        down: false,
        f2: false,
        delete: false,
        shift: false,
        space: false,
        return_key: false,
    }
}

fn visible(column: LibraryColumn, library: &str, item: usize, target: Option<(usize, usize)>) -> LibraryGui {
    let mut g = LibraryGui::new();
    g.state = LibraryGuiState::Visible {
        selected_column: column,
        selected_library: library.to_string(),
        selected_item: item,
        scroll_offset: 0,
        editing_mode: None,
        target_square: target,
    };
    g
}

fn nav(g: &LibraryGui) -> (LibraryColumn, String, usize, usize) {
    match &g.state {
        LibraryGuiState::Visible { selected_column, selected_library, selected_item, scroll_offset, .. } => {
            (*selected_column, selected_library.clone(), *selected_item, *scroll_offset)
        }
        LibraryGuiState::Hidden => panic!("expected the window shown"),
    }
}

#[test]
fn the_samples_column_lists_automatic_samples_first() {
    let g = LibraryGui::new();
    let m = manager();
    let s = g.collect_all_samples(&m, "lib");
    let names: Vec<&str> = s.iter().map(|e| e.name.as_str()).collect();
    assert_eq!(names, vec!["hit.wav (auto)", "kick (lib)"]);
    assert_eq!(s[0].source, SampleSource::Auto);
    assert_eq!(s[1].source, SampleSource::Library { library_name: "lib".to_string() });
    let only_auto = g.collect_all_samples(&m, "auto");
    assert_eq!(only_auto.len(), 1);
    assert_eq!(g.get_item_count(&m, &LibraryColumn::Samples, "lib", &grid()), 2);
}

#[test]
fn the_programs_column_lists_each_name_once() {
    let g = LibraryGui::new();
    let m = manager();
    let mut cells = grid();
    cells[2][3].place_square(None);
    cells[2][3].program.add_program(program("wobble", None));
    let p = g.collect_all_programs(&m, &cells);
    let names: Vec<&str> = p.iter().map(|e| e.name.as_str()).collect();
    // The square's default bounce program and the predefined `bounce` are left out.
    assert_eq!(names, vec!["wobble", "jump"]);
    assert_eq!(p[0].source, ProgramSource::Square { x: 3, y: 2, program_index: 1 });
    assert_eq!(p[1].source, ProgramSource::Library { library_name: "extra".to_string() });
    assert_eq!(
        g.get_selected_item_name(&m, &LibraryColumn::Programs, "lib", 0, &cells),
        Some("wobble @(3,2)".to_string())
    );
    assert_eq!(
        g.get_selected_item_name(&m, &LibraryColumn::Programs, "lib", 1, &cells),
        Some("jump (extra)".to_string())
    );
    assert_eq!(g.get_selected_item_name(&m, &LibraryColumn::Programs, "lib", 2, &cells), None);
}

#[test]
fn escape_hides_the_window_while_browsing() {
    let m = manager();
    let mut g = visible(LibraryColumn::Samples, "lib", 0, None);
    let r = g.handle_input(LibraryKeys { escape: true, ..no_keys() }, ProgramEditorAction::NoAction, &m, &grid(), &Vec::new());
    assert!(r.is_none());
    assert!(!g.is_visible());
}

#[test]
fn tab_and_arrows_move_about_the_window() {
    let m = manager();
    let cells = grid();
    let mut g = visible(LibraryColumn::Samples, "lib", 0, None);
    g.handle_input(LibraryKeys { down: true, ..no_keys() }, ProgramEditorAction::NoAction, &m, &cells, &Vec::new());
    assert_eq!(nav(&g), (LibraryColumn::Samples, "lib".to_string(), 1, 0));
    // The last item stays selected.
    g.handle_input(LibraryKeys { down: true, ..no_keys() }, ProgramEditorAction::NoAction, &m, &cells, &Vec::new());
    assert_eq!(nav(&g).2, 1);
    g.handle_input(LibraryKeys { up: true, ..no_keys() }, ProgramEditorAction::NoAction, &m, &cells, &Vec::new());
    assert_eq!(nav(&g).2, 0);
    g.handle_input(LibraryKeys { tab: true, ..no_keys() }, ProgramEditorAction::NoAction, &m, &cells, &Vec::new());
    assert_eq!(nav(&g), (LibraryColumn::Programs, "lib".to_string(), 0, 0));
    g.handle_input(LibraryKeys { right: true, ..no_keys() }, ProgramEditorAction::NoAction, &m, &cells, &Vec::new());
    assert_eq!(nav(&g).1, "extra");
    g.handle_input(LibraryKeys { right: true, ..no_keys() }, ProgramEditorAction::NoAction, &m, &cells, &Vec::new());
    assert_eq!(nav(&g).1, "lib");
    g.handle_input(LibraryKeys { left: true, ..no_keys() }, ProgramEditorAction::NoAction, &m, &cells, &Vec::new());
    assert_eq!(nav(&g).1, "extra");
}

#[test]
fn f2_then_return_renames_the_item() {
    let m = manager();
    let cells = grid();
    let mut g = visible(LibraryColumn::Samples, "lib", 1, None);
    let r = g.handle_input(LibraryKeys { f2: true, ..no_keys() }, ProgramEditorAction::NoAction, &m, &cells, &Vec::new());
    assert!(r.is_none());
    assert!(g.is_editing());
    let r = g.handle_input(LibraryKeys { return_key: true, ..no_keys() }, ProgramEditorAction::NoAction, &m, &cells, &Vec::new());
    match r {
        Some(LibraryGuiAction::RenameItem { library_name, old_name, new_name, is_sample }) => {
            assert_eq!(library_name, "lib");
            assert_eq!(old_name, "kick (lib)");
            assert_eq!(new_name, "kick (lib)");
            assert!(is_sample);
        }
        _ => panic!("expected a rename"),
    }
    assert!(!g.is_editing());
    assert!(g.is_visible());
}

#[test]
fn escape_while_renaming_only_ends_the_renaming() {
    let m = manager();
    let cells = grid();
    let mut g = visible(LibraryColumn::Samples, "lib", 0, None);
    g.handle_input(LibraryKeys { f2: true, ..no_keys() }, ProgramEditorAction::NoAction, &m, &cells, &Vec::new());
    let r = g.handle_input(LibraryKeys { escape: true, ..no_keys() }, ProgramEditorAction::NoAction, &m, &cells, &Vec::new());
    assert!(r.is_none());
    assert!(g.is_visible());
    assert!(!g.is_editing());
}

#[test]
fn delete_asks_to_delete_the_selected_item() {
    let m = manager();
    let mut g = visible(LibraryColumn::Programs, "lib", 0, None);
    let r = g.handle_input(LibraryKeys { delete: true, ..no_keys() }, ProgramEditorAction::NoAction, &m, &grid(), &Vec::new());
    match r {
        Some(LibraryGuiAction::DeleteItem { library_name, item_name, is_sample }) => {
            assert_eq!(library_name, "lib");
            assert_eq!(item_name, "wobble (lib)");
            assert!(!is_sample);
        }
        _ => panic!("expected a deletion"),
    }
}

#[test]
fn a_new_program_is_saved_to_lib() {
    let m = manager();
    let cells = grid();
    let mut g = visible(LibraryColumn::Programs, "extra", 0, None);
    g.handle_input(LibraryKeys { shift: true, space: true, ..no_keys() }, ProgramEditorAction::NoAction, &m, &cells, &Vec::new());
    match &g.state {
        LibraryGuiState::Visible { editing_mode: Some(EditingMode::CreateProgram { name, editor }), .. } => {
            assert_eq!(name, "new_program");
            assert_eq!(editor.program_text, vec!["def new_program".to_string(), String::new()]);
            assert_eq!((editor.cursor_line, editor.cursor_col), (0, 15));
        }
        _ => panic!("expected a new program"),
    }
    let r = g.handle_input(no_keys(), ProgramEditorAction::SaveProgram(program("tune", None)), &m, &cells, &Vec::new());
    match r {
        Some(LibraryGuiAction::CreateProgram { library_name, name, program }) => {
            assert_eq!(library_name, "lib");
            assert_eq!(name, "tune");
            assert_eq!(program.name, "tune");
        }
        _ => panic!("expected a created program"),
    }
    assert!(!g.is_editing());
}

#[test]
fn return_edits_a_program_in_its_own_text_or_the_written_back_one() {
    let m = manager();
    let mut cells = grid();
    cells[0][0].place_square(None);
    cells[0][0].program.add_program(program("mine", Some(vec!["def mine", "stop"])));
    let generated = vec![vec!["unused".to_string()], vec!["def jump".to_string(), "bounce".to_string()]];
    let mut g = visible(LibraryColumn::Programs, "lib", 0, None);
    g.handle_input(LibraryKeys { return_key: true, ..no_keys() }, ProgramEditorAction::NoAction, &m, &cells, &generated);
    match &g.state {
        LibraryGuiState::Visible { editing_mode: Some(EditingMode::EditProgram { name, source, editor }), .. } => {
            assert_eq!(name, "mine");
            assert_eq!(*source, ProgramSource::Square { x: 0, y: 0, program_index: 1 });
            assert_eq!(editor.program_text, vec!["def mine".to_string(), "stop".to_string()]);
        }
        _ => panic!("expected an edited program"),
    }
    let mut g = visible(LibraryColumn::Programs, "lib", 2, None);
    g.handle_input(LibraryKeys { return_key: true, ..no_keys() }, ProgramEditorAction::NoAction, &m, &cells, &generated);
    // Item 2 has no generated text, so it opens empty.
    match &g.state {
        LibraryGuiState::Visible { editing_mode: Some(EditingMode::EditProgram { name, editor, .. }), .. } => {
            assert_eq!(name, "jump");
            assert!(editor.program_text.is_empty());
        }
        _ => panic!("expected an edited program"),
    }
}

#[test]
fn space_loads_the_program_into_the_waiting_square() {
    let m = manager();
    let mut g = visible(LibraryColumn::Programs, "lib", 1, Some((4, 5)));
    let r = g.handle_input(LibraryKeys { space: true, ..no_keys() }, ProgramEditorAction::NoAction, &m, &grid(), &Vec::new());
    match r {
        Some(LibraryGuiAction::LoadProgramToSquare { program, square_x, square_y }) => {
            assert_eq!(program.name, "jump");
            assert_eq!((square_x, square_y), (4, 5));
        }
        _ => panic!("expected a program for the square"),
    }
    assert!(g.is_visible());
}

#[test]
fn return_on_a_wav_sample_opens_the_player() {
    let m = manager();
    let mut g = visible(LibraryColumn::Samples, "lib", 0, None);
    let r = g.handle_input(LibraryKeys { return_key: true, ..no_keys() }, ProgramEditorAction::NoAction, &m, &grid(), &Vec::new());
    match r {
        Some(LibraryGuiAction::OpenAudioPlayer { library_name, sample_name }) => {
            assert_eq!(library_name, "auto");
            assert_eq!(sample_name, "hit.wav");
        }
        _ => panic!("expected the player"),
    }
    let mut g = visible(LibraryColumn::Samples, "lib", 1, None);
    let r = g.handle_input(LibraryKeys { return_key: true, ..no_keys() }, ProgramEditorAction::NoAction, &m, &grid(), &Vec::new());
    assert!(r.is_none());
}

#[test]
fn shift_space_on_a_sample_loads_into_its_library() {
    let m = manager();
    let mut g = visible(LibraryColumn::Samples, "lib", 0, None);
    let r = g.handle_input(LibraryKeys { shift: true, space: true, ..no_keys() }, ProgramEditorAction::NoAction, &m, &grid(), &Vec::new());
    assert!(matches!(r, Some(LibraryGuiAction::LoadAutoSample)));
    let mut g = visible(LibraryColumn::Samples, "lib", 1, None);
    let r = g.handle_input(LibraryKeys { shift: true, space: true, ..no_keys() }, ProgramEditorAction::NoAction, &m, &grid(), &Vec::new());
    match r {
        Some(LibraryGuiAction::LoadSample { library_name }) => assert_eq!(library_name, "lib"),
        _ => panic!("expected a sample load"),
    }
}

#[test]
fn a_hidden_window_ignores_keys() {
    let m = manager();
    let mut g = LibraryGui::new();
    let r = g.handle_input(LibraryKeys { return_key: true, tab: true, ..no_keys() }, ProgramEditorAction::NoAction, &m, &grid(), &Vec::new());
    assert!(r.is_none());
    assert!(!g.is_visible());
}

#[test]
fn tab_twice_comes_back_to_the_column() {
    let m = manager();
    let cells = grid();
    let mut g = visible(LibraryColumn::Samples, "lib", 1, None);
    g.handle_input(LibraryKeys { tab: true, ..no_keys() }, ProgramEditorAction::NoAction, &m, &cells, &Vec::new());
    g.handle_input(LibraryKeys { tab: true, ..no_keys() }, ProgramEditorAction::NoAction, &m, &cells, &Vec::new());
    assert_eq!(nav(&g), (LibraryColumn::Samples, "lib".to_string(), 0, 0));
}

fn pixel(f: &[u8], x: usize, y: usize) -> [u8; 4] {
    let i = (y * 640 + x) * 4;
    [f[i], f[i + 1], f[i + 2], f[i + 3]]
}

#[test]
fn the_samples_column_lights_and_names_its_rows() {
    let m = manager();
    let g = LibraryGui::new();
    let mut f = vec![0u8; 640 * 630 * 4];
    let runs = g.draw_sample_column(&mut f, 30, 105, &m, "lib", &LibraryColumn::Samples, 1, 0, 640);
    assert_eq!(runs.len(), 4);
    assert_eq!((runs[0].text.as_str(), runs[0].x, runs[0].y, runs[0].color), ("♪", 45, 150, [180, 120, 80]));
    assert_eq!((runs[1].text.as_str(), runs[1].x, runs[1].color, runs[1].selected), ("hit.wav (auto)", 60, [220, 220, 220], false));
    assert_eq!((runs[2].y, runs[2].color), (172, [100, 200, 255]));
    assert_eq!((runs[3].text.as_str(), runs[3].color, runs[3].selected), ("kick (lib)", [255, 255, 100], true));
    // The selected row is lit from 2 above it, 270 pixels from 8 right of the column.
    assert_eq!(pixel(&f, 38, 170), [25, 25, 35, 0]);
    assert_eq!(pixel(&f, 307, 189), [25, 25, 35, 0]);
    assert_eq!(pixel(&f, 308, 189), [0, 0, 0, 0]);
    assert_eq!(pixel(&f, 38, 169), [0, 0, 0, 0]);
    // Another column selected: nothing lit, nothing marked.
    let mut f = vec![0u8; 640 * 630 * 4];
    let runs = g.draw_sample_column(&mut f, 30, 105, &m, "lib", &LibraryColumn::Programs, 1, 0, 640);
    assert!(runs.iter().all(|r| !r.selected));
    assert!(f.iter().all(|b| *b == 0));
}

#[test]
fn the_programs_column_shows_its_icons() {
    let m = manager();
    let g = LibraryGui::new();
    let mut f = vec![0u8; 640 * 630 * 4];
    let runs = g.draw_program_column(&mut f, 320, 105, &m, &grid(), &LibraryColumn::Programs, 1, 0, 640);
    let texts: Vec<&str> = runs.iter().map(|r| r.text.as_str()).collect();
    assert_eq!(texts, vec!["📚", "wobble", "📚", "jump"]);
    assert_eq!((runs[2].color, runs[2].y), ([100, 255, 100], 172));
    assert!(runs[3].selected);
    assert_eq!(pixel(&f, 328, 170), [25, 25, 35, 0]);
    assert_eq!(pixel(&f, 587, 170), [25, 25, 35, 0]);
    assert_eq!(pixel(&f, 588, 170), [0, 0, 0, 0]);
}
