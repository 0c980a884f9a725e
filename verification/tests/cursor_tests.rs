use canticlec_churn::sequencer::{Cursor, GRID_HEIGHT, GRID_WIDTH};

#[test]
fn cursor_starts_top_left() {
    let c = Cursor::new();
    assert_eq!((c.x, c.y), (0, 0));
}

#[test]
fn cursor_stops_at_the_edges() {
    let mut c = Cursor::new();
    c.move_up();
    c.move_left();
    assert_eq!((c.x, c.y), (0, 0));
    let mut c = Cursor { x: GRID_WIDTH - 1, y: GRID_HEIGHT - 1 };
    c.move_down();
    c.move_right();
    assert_eq!((c.x, c.y), (GRID_WIDTH - 1, GRID_HEIGHT - 1));
}

#[test]
fn cursor_moves_one_cell() {
    let mut c = Cursor { x: 3, y: 4 };
    c.move_right();
    assert_eq!((c.x, c.y), (4, 4));
    c.move_down();
    assert_eq!((c.x, c.y), (4, 5));
    c.move_left();
    assert_eq!((c.x, c.y), (3, 5));
    c.move_up();
    assert_eq!((c.x, c.y), (3, 4));
}

#[test]
fn opposite_moves_undo_each_other_inside_the_grid() {
    let mut c = Cursor { x: 7, y: 6 };
    c.move_up();
    c.move_down();
    c.move_left();
    c.move_right();
    assert_eq!((c.x, c.y), (7, 6));
}

#[test]
fn cursor_never_leaves_the_grid() {
    let mut c = Cursor::new();
    for _ in 0..40 {
        c.move_right();
        c.move_down();
        assert!(c.x < GRID_WIDTH && c.y < GRID_HEIGHT);
    }
    assert_eq!((c.x, c.y), (GRID_WIDTH - 1, GRID_HEIGHT - 1));
}
