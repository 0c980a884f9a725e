use canticlec_churn::frame::TextRun;
use canticlec_churn::program_editor::ProgramEditor;
use canticlec_churn::renderer::Renderer;
use canticlec_churn::sequencer::{GRID_HEIGHT, GRID_WIDTH};
use canticlec_churn::square::Cell;
use canticlec_churn::square_menu::{SquareContextMenu, SquareMenuState};
use std::collections::VecDeque;

const W: usize = 640;

fn frame(h: usize) -> Vec<u8> {
    vec![0u8; W * h * 4]
}

fn px(f: &[u8], x: usize, y: usize) -> [u8; 4] {
    let i = (y * W + x) * 4;
    [f[i], f[i + 1], f[i + 2], f[i + 3]]
}

fn region_has(f: &[u8], x0: usize, y0: usize, x1: usize, y1: usize, rgb: [u8; 3]) -> bool {
    (y0..y1).any(|y| (x0..x1).any(|x| px(f, x, y)[..3] == rgb))
}

fn run(r: &TextRun) -> (String, usize, usize, [u8; 3], bool) {
    (r.text.clone(), r.x, r.y, r.color, r.selected)
}

#[test]
fn colour_names_map_to_rgb() {
    assert_eq!(Renderer::get_color_rgb("Red"), [255, 0, 0]);
    assert_eq!(Renderer::get_color_rgb("Orange"), [255, 165, 0]);
    assert_eq!(Renderer::get_color_rgb("Magenta"), [255, 0, 255]);
    assert_eq!(Renderer::get_color_rgb("red"), [255, 255, 255]);
    assert_eq!(Renderer::get_color_rgb("Purple"), [255, 255, 255]);
}

#[test]
fn the_cursor_outlines_its_cell_in_yellow() {
    let mut f = frame(630);
    Renderer::draw_cursor(&mut f, 1, 2);
    assert_eq!(px(&f, 40, 80), [255, 255, 0, 0]);
    assert_eq!(px(&f, 79, 119), [255, 255, 0, 0]);
    assert_eq!(px(&f, 41, 81), [0, 0, 0, 0]);
    assert_eq!(px(&f, 80, 80), [0, 0, 0, 0]);
}

#[test]
fn a_square_fills_its_cell_inside_a_margin_and_lists_its_text() {
    let mut f = frame(630);
    let runs = Renderer::draw_square(&mut f, 2, 1, [1, 2, 3], &Some("ab\ncd\nef\ngh".to_string()));
    assert_eq!(px(&f, 82, 42), [1, 2, 3, 0]);
    assert_eq!(px(&f, 117, 77), [1, 2, 3, 0]);
    assert_eq!(px(&f, 81, 42), [0, 0, 0, 0]);
    assert_eq!(px(&f, 118, 77), [0, 0, 0, 0]);
    let got: Vec<_> = runs.iter().map(run).collect();
    assert_eq!(
        got,
        vec![
            ("ab".to_string(), 86, 46, [255, 255, 255], false),
            ("cd".to_string(), 86, 58, [255, 255, 255], false),
        ]
    );
    let none = Renderer::draw_square(&mut f, 0, 0, [9, 9, 9], &None);
    assert!(none.is_empty());
}

#[test]
fn a_ball_is_a_disc_in_its_cell() {
    let mut f = frame(630);
    Renderer::draw_circle(&mut f, 0, 0, [7, 8, 9]);
    assert_eq!(px(&f, 20, 20)[..3], [7, 8, 9]);
    assert_eq!(px(&f, 38 - 1, 20)[..3], [7, 8, 9]);
    assert_eq!(px(&f, 3, 3)[..3], [0, 0, 0]);
    assert_eq!(px(&f, 20, 39)[..3], [0, 0, 0]);
}

#[test]
fn the_console_shows_its_latest_messages_below_the_grid() {
    let mut f = frame(630);
    let mut messages = VecDeque::new();
    messages.push_back("hello".to_string());
    messages.push_back("world".to_string());
    let runs = Renderer::draw_console(&mut f, &messages);
    assert_eq!(px(&f, 10, 480), [100, 100, 100, 255]);
    assert_eq!(px(&f, 10, 500), [30, 30, 30, 255]);
    let got: Vec<_> = runs.iter().map(run).collect();
    assert_eq!(
        got,
        vec![
            ("hello".to_string(), 5, 490, [200, 200, 200], false),
            ("world".to_string(), 5, 504, [200, 200, 200], false),
        ]
    );
}

#[test]
fn texts_for_the_font_carry_place_and_colour() {
    let r = Renderer::draw_menu_text("Speed", 3, 4, [1, 2, 3], true);
    assert_eq!(run(&r), ("Speed".to_string(), 3, 4, [1, 2, 3], true));
    let c = Renderer::draw_cursor_coordinates(12, 7);
    assert_eq!(run(&c), ("(12, 7)".to_string(), 5, 25, [255, 255, 255], false));
}

#[test]
fn grid_lines_are_drawn() {
    let mut f = frame(630);
    Renderer::draw_grid_lines(&mut f);
    assert_ne!(px(&f, 40, 5), [0, 0, 0, 0]);
    assert_eq!(px(&f, 20, 20), [0, 0, 0, 0]);
}

#[test]
fn keywords_numbers_and_plain_words_get_their_colours() {
    let e = ProgramEditor::new();
    let mut f = frame(480);
    e.draw_syntax_highlighted_text(&mut f, "def x1 foo", 0, 0);
    assert!(region_has(&f, 0, 0, 24, 16, [100, 200, 255]));
    assert!(!region_has(&f, 0, 0, 24, 16, [255, 255, 255]));
    assert!(region_has(&f, 32, 0, 48, 16, [150, 255, 150]));
    assert!(region_has(&f, 64, 0, 88, 16, [255, 255, 255]));
    let mut g = frame(480);
    e.draw_syntax_highlighted_text(&mut g, "c_red hits self", 0, 20);
    assert!(region_has(&g, 0, 20, 40, 36, [255, 150, 100]));
    assert!(region_has(&g, 48, 20, 80, 36, [255, 200, 100]));
}

#[test]
fn the_editor_window_has_its_panels() {
    let e = ProgramEditor::new();
    let mut f = frame(480);
    e.draw_program_editor(&mut f, "Title", "Help");
    assert_eq!(px(&f, 30, 30), [100, 100, 100, 255]);
    assert_eq!(px(&f, 609, 449), [100, 100, 100, 255]);
    assert_eq!(px(&f, 31, 31), [40, 40, 40, 220]);
    assert_eq!(px(&f, 36, 76), [40, 40, 50, 255]);
    assert!(region_has(&f, 38, 80, 54, 96, [255, 255, 100]));
    assert!(region_has(&f, 80, 80, 600, 96, [100, 200, 255]));
    assert!(region_has(&f, 80, 80, 600, 96, [255, 255, 255]));
    assert_eq!(px(&f, 36, 141), [25, 25, 35, 255]);
    assert!(region_has(&f, 40, 430, 600, 446, [180, 180, 180]));
}

#[test]
fn the_square_menu_draws_its_panel_and_gives_its_texts() {
    let cells: [[Cell; GRID_WIDTH]; GRID_HEIGHT] = std::array::from_fn(|_| std::array::from_fn(|_| Cell::new_empty()));
    let mut m = SquareContextMenu::new();
    m.open_square_menu(1, 1);
    let mut f = frame(480);
    let runs = m.render(&mut f, &cells);
    assert_eq!(px(&f, 90, 90), [100, 100, 100, 220]);
    assert_eq!(px(&f, 91, 91), [40, 40, 40, 220]);
    let got: Vec<_> = runs.iter().map(run).collect();
    assert_eq!(
        got,
        vec![
            ("Square Programming".to_string(), 100, 95, [255, 255, 255], false),
            ("Edit Program".to_string(), 100, 115, [255, 255, 255], true),
            ("Clear Programs".to_string(), 100, 135, [255, 255, 255], false),
        ]
    );
    m.state = SquareMenuState::SquareMenu { square_x: 15, square_y: 11, selected_option: 1 };
    let runs = m.render(&mut f, &cells);
    assert_eq!((runs[0].x, runs[0].y), (610, 405));
    assert!(runs[2].selected);
    m.close();
    let mut g = frame(480);
    assert!(m.render(&mut g, &cells).is_empty());
    assert!(g.iter().all(|b| *b == 0));
}
