use canticlec_churn::ball::Direction;
use canticlec_churn::context_menu::{BallMenuKey, ContextMenu, ContextMenuAction, ContextMenuState};
use canticlec_churn::library_gui::{EditingMode, LibraryColumn, LibraryGui, LibraryGuiState};
use canticlec_churn::program_editor::ProgramEditor;
use canticlec_churn::sequencer::{GRID_HEIGHT, GRID_WIDTH};
use canticlec_churn::square::{Cell, Instruction, Program};
use canticlec_churn::square_menu::{MenuKey, SquareContextMenu, SquareMenuAction, SquareMenuState};

fn grid() -> [[Cell; GRID_WIDTH]; GRID_HEIGHT] {
    std::array::from_fn(|_| std::array::from_fn(|_| Cell::new_empty()))
}

fn key(m: &mut ContextMenu, k: BallMenuKey) -> Option<ContextMenuAction> {
    m.handle_key(k, false, 3, 2.0f32.to_bits())
}

#[test]
fn ball_menu_wraps_round_its_options() {
    let mut m = ContextMenu::new();
    assert!(!m.is_open());
    m.open_ball_menu(1);
    assert!(m.is_open());
    assert!(key(&mut m, BallMenuKey::Up).is_none());
    assert_eq!(m.state, ContextMenuState::BallMenu { ball_index: 1, selected_option: 4 });
    key(&mut m, BallMenuKey::Down);
    assert_eq!(m.state, ContextMenuState::BallMenu { ball_index: 1, selected_option: 0 });
    key(&mut m, BallMenuKey::Escape);
    assert_eq!(m.state, ContextMenuState::Closed);
}

#[test]
fn choosing_a_direction_sets_it_and_goes_back() {
    let mut m = ContextMenu::new();
    m.open_ball_menu(0);
    key(&mut m, BallMenuKey::Space);
    assert_eq!(m.state, ContextMenuState::BallDirection { ball_index: 0, selected_option: 0 });
    for _ in 0..5 {
        key(&mut m, BallMenuKey::Down);
    }
    match key(&mut m, BallMenuKey::Space) {
        Some(ContextMenuAction::SetDirection { ball_index, direction }) => {
            assert_eq!(ball_index, 0);
            assert_eq!(direction, Direction::UpRight);
        }
        _ => panic!("expected a direction"),
    }
    assert_eq!(m.state, ContextMenuState::BallMenu { ball_index: 0, selected_option: 0 });
}

#[test]
fn the_speed_slider_opens_on_the_ball_speed() {
    let mut m = ContextMenu::new();
    m.open_ball_menu(2);
    key(&mut m, BallMenuKey::Down);
    key(&mut m, BallMenuKey::Space);
    assert_eq!(m.state, ContextMenuState::BallSpeed { ball_index: 2, speed: 2.0f32.to_bits() });
    assert!(matches!(
        key(&mut m, BallMenuKey::Right),
        Some(ContextMenuAction::StepSpeed { ball_index: 2, faster: true })
    ));
    match key(&mut m, BallMenuKey::Space) {
        Some(ContextMenuAction::SetSpeed { ball_index, speed }) => {
            assert_eq!(ball_index, 2);
            assert_eq!(f32::from_bits(speed), 2.0);
        }
        _ => panic!("expected a speed"),
    }
    assert_eq!(m.state, ContextMenuState::BallMenu { ball_index: 2, selected_option: 1 });
    m.open_speed_menu(2, 4.5f32.to_bits());
    key(&mut m, BallMenuKey::Escape);
    assert_eq!(m.state, ContextMenuState::BallMenu { ball_index: 2, selected_option: 1 });
}

#[test]
fn relative_speed_picks_another_ball_and_a_multiplier() {
    let mut m = ContextMenu::new();
    m.open_ball_menu(0);
    key(&mut m, BallMenuKey::Down);
    key(&mut m, BallMenuKey::Down);
    key(&mut m, BallMenuKey::Space);
    assert_eq!(
        m.state,
        ContextMenuState::BallRelativeSpeed { ball_index: 0, selected_ball: 1, ratio_index: 4 }
    );
    key(&mut m, BallMenuKey::Right);
    key(&mut m, BallMenuKey::Down);
    key(&mut m, BallMenuKey::Down);
    assert_eq!(
        m.state,
        ContextMenuState::BallRelativeSpeed { ball_index: 0, selected_ball: 0, ratio_index: 5 }
    );
    key(&mut m, BallMenuKey::Up);
    assert_eq!(
        m.state,
        ContextMenuState::BallRelativeSpeed { ball_index: 0, selected_ball: 2, ratio_index: 5 }
    );
    assert!(matches!(
        key(&mut m, BallMenuKey::Space),
        Some(ContextMenuAction::ScaleSpeed { ball_index: 0, reference_ball: 2, ratio_index: 5 })
    ));
    assert_eq!(m.state, ContextMenuState::BallMenu { ball_index: 0, selected_option: 2 });
}

#[test]
fn colours_are_chosen_by_name() {
    let mut m = ContextMenu::new();
    m.open_ball_menu(1);
    key(&mut m, BallMenuKey::Up);
    key(&mut m, BallMenuKey::Space);
    assert_eq!(m.state, ContextMenuState::BallColor { ball_index: 1, selected_option: 0 });
    key(&mut m, BallMenuKey::Up);
    match key(&mut m, BallMenuKey::Space) {
        Some(ContextMenuAction::SetColor { ball_index, color }) => {
            assert_eq!(ball_index, 1);
            assert_eq!(color, "Orange");
        }
        _ => panic!("expected a colour"),
    }
}

#[test]
fn the_sample_option_opens_a_file_dialog_or_adds_to_the_library() {
    let mut m = ContextMenu::new();
    m.state = ContextMenuState::BallMenu { ball_index: 4, selected_option: 3 };
    assert!(matches!(key(&mut m, BallMenuKey::Space), Some(ContextMenuAction::OpenFileDialog { ball_index: 4 })));
    assert_eq!(m.state, ContextMenuState::Closed);
    m.state = ContextMenuState::BallMenu { ball_index: 4, selected_option: 3 };
    assert!(matches!(
        m.handle_key(BallMenuKey::Space, true, 3, 0),
        Some(ContextMenuAction::AddSampleToLibrary { ball_index: 4 })
    ));
    assert!(!m.is_open());
}

#[test]
fn square_menu_opens_closes_and_moves() {
    let cells = grid();
    let mut m = SquareContextMenu::new();
    assert!(!m.is_open());
    m.open_square_menu(2, 3);
    assert!(m.is_open());
    assert!(m.handle_menu_key(MenuKey::Down, &cells, Vec::new()).is_none());
    assert_eq!(m.state, SquareMenuState::SquareMenu { square_x: 2, square_y: 3, selected_option: 1 });
    assert!(matches!(
        m.handle_menu_key(MenuKey::Space, &cells, Vec::new()),
        Some(SquareMenuAction::ClearPrograms { square_x: 2, square_y: 3 })
    ));
    m.handle_menu_key(MenuKey::Up, &cells, Vec::new());
    assert_eq!(m.state, SquareMenuState::SquareMenu { square_x: 2, square_y: 3, selected_option: 0 });
    m.handle_menu_key(MenuKey::Escape, &cells, Vec::new());
    assert_eq!(m.state, SquareMenuState::Closed);
    m.open_square_menu(0, 0);
    m.close();
    assert!(!m.is_open());
}

#[test]
fn editing_a_new_square_starts_from_the_starting_program() {
    let mut cells = grid();
    cells[1][2] = Cell::new_square([255, 0, 0]);
    let mut m = SquareContextMenu::new();
    m.open_square_menu(2, 1);
    m.handle_menu_key(MenuKey::Space, &cells, Vec::new());
    assert_eq!(m.state, SquareMenuState::ProgramEditor { square_x: 2, square_y: 1, cursor_line: 0, cursor_col: 0 });
    assert_eq!(m.editing_program_index, Some(0));
    assert_eq!(m.program_editor.get_program_text(), vec!["def my_program".to_string(), "".to_string()]);
}

#[test]
fn editing_a_programmed_square_shows_its_text() {
    let mut cells = grid();
    cells[0][0] = Cell::new_square([0, 255, 0]);
    cells[0][0].program.programs[0] = Program {
        instructions: vec![Instruction::Stop],
        name: "halt".to_string(),
        source_text: Some(vec!["def halt".to_string(), "end".to_string()]),
    };
    let mut m = SquareContextMenu::new();
    m.open_square_menu(0, 0);
    m.handle_menu_key(MenuKey::Space, &cells, vec!["ignored".to_string()]);
    assert_eq!(m.program_editor.get_program_text(), vec!["def halt".to_string(), "end".to_string()]);
}

#[test]
fn the_library_window_toggles() {
    let mut g = LibraryGui::new();
    assert!(!g.is_visible());
    g.toggle();
    assert!(g.is_visible());
    assert!(!g.is_editing());
    match &g.state {
        LibraryGuiState::Visible { selected_column, selected_library, selected_item, target_square, .. } => {
            assert_eq!(*selected_column, LibraryColumn::Samples);
            assert_eq!(selected_library, "lib");
            assert_eq!(*selected_item, 0);
            assert!(target_square.is_none());
        }
        LibraryGuiState::Hidden => panic!("expected the window shown"),
    }
    assert!(g.get_current_editor_mut().is_none());
    g.toggle();
    assert!(!g.is_visible());
}

#[test]
fn the_library_window_can_choose_a_program_for_a_square() {
    let mut g = LibraryGui::new();
    g.open_for_program_selection(4, 5);
    match &g.state {
        LibraryGuiState::Visible { selected_column, target_square, .. } => {
            assert_eq!(*selected_column, LibraryColumn::Programs);
            assert_eq!(*target_square, Some((4, 5)));
        }
        LibraryGuiState::Hidden => panic!("expected the window shown"),
    }
}

#[test]
fn the_editor_being_used_can_be_changed_in_place() {
    let mut g = LibraryGui::new();
    g.toggle();
    if let LibraryGuiState::Visible { editing_mode, .. } = &mut g.state {
        *editing_mode = Some(EditingMode::CreateProgram { name: "new_one".to_string(), editor: ProgramEditor::new() });
    }
    assert!(g.is_editing());
    if let Some(e) = g.get_current_editor_mut() {
        e.insert_character('!');
    }
    match &g.state {
        LibraryGuiState::Visible { editing_mode: Some(EditingMode::CreateProgram { editor, .. }), .. } => {
            assert_eq!(editor.get_program_text()[0], "def my_program!");
        }
        _ => panic!("expected the editor kept"),
    }
}

#[test]
fn closing_the_square_menu_twice_is_closing_it_once() {
    let mut once = SquareContextMenu::new();
    once.open_square_menu(4, 1);
    once.close();
    let mut twice = SquareContextMenu::new();
    twice.open_square_menu(4, 1);
    twice.close();
    twice.close();
    assert_eq!(once.state, twice.state);
    assert_eq!(once.state, SquareMenuState::Closed);
    assert_eq!(once.editing_program_index, twice.editing_program_index);
    assert_eq!(once.program_editor.get_program_text(), twice.program_editor.get_program_text());
    assert_eq!(once.key_repeat_delay, twice.key_repeat_delay);
    assert_eq!(once.key_repeat_rate, twice.key_repeat_rate);
    assert_eq!(once.last_key_repeat, twice.last_key_repeat);
}

#[test]
fn space_on_an_option_past_the_list_does_nothing() {
    let cells = grid();
    let mut m = SquareContextMenu::new();
    m.state = SquareMenuState::SquareMenu { square_x: 1, square_y: 2, selected_option: 7 };
    assert!(m.handle_menu_key(MenuKey::Space, &cells, Vec::new()).is_none());
    assert_eq!(m.state, SquareMenuState::SquareMenu { square_x: 1, square_y: 2, selected_option: 7 });
    m.handle_menu_key(MenuKey::Down, &cells, Vec::new());
    assert_eq!(m.state, SquareMenuState::SquareMenu { square_x: 1, square_y: 2, selected_option: 0 });
}
