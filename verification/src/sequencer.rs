//! The grid's dimensions, the grid cursor, and the records the sequencer
//! keeps of collisions.
use vstd::prelude::*;
use std::collections::VecDeque;
use crate::text::{split_char, split_char_exec, starts_with, starts_with_exec, str_eq, views};
use crate::timing::{elapsed_ms, elapsed_since};
use crate::square::{is_default_square_program, texts_view, Cell, CellContent, Program};
use crate::console::{add_error_comment, with_error_note};

verus! {

pub const GRID_WIDTH: usize = 16;

pub const GRID_HEIGHT: usize = 12;

/// A ball hitting a square, and when (in milliseconds on the caller's clock).
#[derive(Clone, Debug)]
pub struct CollisionEvent {
    pub ball_index: usize,
    pub ball_color: String,
    pub square_x: usize,
    pub square_y: usize,
    pub timestamp: u64,
}

/// When a ball last hit a square (in milliseconds on the caller's clock).
#[derive(Clone, Debug)]
pub struct CollisionCooldown {
    pub ball_index: usize,
    pub square_x: usize,
    pub square_y: usize,
    pub last_collision: u64,
}

/// The selected grid cell.
pub struct Cursor {
    pub x: usize,
    pub y: usize,
}

impl Cursor {
    /// Whether the cursor is on the grid.
    pub open spec fn on_grid(&self) -> bool {
        self.x < GRID_WIDTH && self.y < GRID_HEIGHT
    }

    /// The cursor at the top left cell.
    pub fn new() -> (r: Self)
        ensures
            r.x == 0 && r.y == 0,
    {
        Cursor { x: 0, y: 0 }
    }

    /// One row up, unless on the top row.
    pub fn move_up(&mut self)
        ensures
            final(self).x == old(self).x,
            final(self).y == if old(self).y > 0 { old(self).y - 1 } else { old(self).y as int },
    {
        if self.y > 0 {
            self.y = self.y - 1;
        }
    }

    /// One row down, unless on the bottom row (or below it).
    pub fn move_down(&mut self)
        ensures
            final(self).x == old(self).x,
            final(self).y == if old(self).y < GRID_HEIGHT - 1 { old(self).y + 1 } else { old(self).y as int },
    {
        if self.y < GRID_HEIGHT - 1 {
            self.y = self.y + 1;
        }
    }

    /// One column left, unless in the leftmost column.
    pub fn move_left(&mut self)
        ensures
            final(self).y == old(self).y,
            final(self).x == if old(self).x > 0 { old(self).x - 1 } else { old(self).x as int },
    {
        if self.x > 0 {
            self.x = self.x - 1;
        }
    }

    /// One column right, unless in the rightmost column (or beyond it).
    pub fn move_right(&mut self)
        ensures
            final(self).y == old(self).y,
            final(self).x == if old(self).x < GRID_WIDTH - 1 { old(self).x + 1 } else { old(self).x as int },
    {
        if self.x < GRID_WIDTH - 1 {
            self.x = self.x + 1;
        }
    }
}

/// A cursor on the grid stays on it, whichever way it moves.
pub proof fn lemma_cursor_stays_on_grid(x: usize, y: usize)
    requires
        x < GRID_WIDTH,
        y < GRID_HEIGHT,
    ensures
        (if y > 0 { y - 1 } else { y as int }) < GRID_HEIGHT,
        (if y < GRID_HEIGHT - 1 { y + 1 } else { y as int }) < GRID_HEIGHT,
        (if x > 0 { x - 1 } else { x as int }) < GRID_WIDTH,
        (if x < GRID_WIDTH - 1 { x + 1 } else { x as int }) < GRID_WIDTH,
{
}

/// Moving the cursor and moving it back returns it where it was, unless
/// the first move was stopped by the edge of the grid.
pub proof fn lemma_cursor_moves_undo(c: Cursor)
    requires
        c.on_grid(),
    ensures
        c.y > 0 ==> {
            let up = if c.y > 0 { c.y - 1 } else { c.y as int };
            (if up < GRID_HEIGHT - 1 { up + 1 } else { up }) == c.y
        },
        c.y < GRID_HEIGHT - 1 ==> {
            let down = if c.y < GRID_HEIGHT - 1 { c.y + 1 } else { c.y as int };
            (if down > 0 { down - 1 } else { down }) == c.y
        },
        c.x > 0 ==> {
            let left = if c.x > 0 { c.x - 1 } else { c.x as int };
            (if left < GRID_WIDTH - 1 { left + 1 } else { left }) == c.x
        },
        c.x < GRID_WIDTH - 1 ==> {
            let right = if c.x < GRID_WIDTH - 1 { c.x + 1 } else { c.x as int };
            (if right > 0 { right - 1 } else { right }) == c.x
        },
{
}

/// The collisions the sequencer remembers.
pub const COLLISION_HISTORY_LIMIT: usize = 100;

/// The cooldowns the sequencer remembers.
pub const COOLDOWN_LIMIT: usize = 50;

/// How long, in milliseconds, a ball's program on a square waits before it
/// runs again for the same ball.
pub const COOLDOWN_MS: u64 = 100;

/// Whether a collision is of a ball of `color` with square `(x, y)`.
pub open spec fn collision_matches(e: CollisionEvent, color: Seq<char>, x: usize, y: usize) -> bool {
    e.ball_color@ == color && e.square_x == x && e.square_y == y
}

/// The ball of the latest collision among the first `n` that matches.
pub open spec fn last_collision(h: Seq<CollisionEvent>, n: int, color: Seq<char>, x: usize, y: usize) -> Option<usize>
    decreases n,
{
    if n <= 0 || n > h.len() {
        None
    } else if collision_matches(h[n - 1], color, x, y) {
        Some(h[n - 1].ball_index)
    } else {
        last_collision(h, n - 1, color, x, y)
    }
}

/// The ball found among the first `n` collisions is that of a collision of
/// a ball of `color` with square `(x, y)` after which, up to `n`, no ball of
/// that colour hit that square; none is found when no such collision is
/// among them.
pub proof fn lemma_last_collision_is_latest_match(h: Seq<CollisionEvent>, n: int, color: Seq<char>, x: usize, y: usize)
    requires
        0 <= n <= h.len(),
    ensures
        match last_collision(h, n, color, x, y) {
            Some(b) => exists|k: int|
                0 <= k < n && #[trigger] h[k].ball_index == b && h[k].ball_color@ == color && h[k].square_x == x
                    && h[k].square_y == y && forall|j: int|
                    k < j < n ==> !(#[trigger] h[j].ball_color@ == color && h[j].square_x == x && h[j].square_y == y),
            None => forall|k: int|
                0 <= k < n ==> !(#[trigger] h[k].ball_color@ == color && h[k].square_x == x && h[k].square_y == y),
        },
    decreases n,
{
    if n > 0 {
        lemma_last_collision_is_latest_match(h, n - 1, color, x, y);
        if h[n - 1].ball_color@ == color && h[n - 1].square_x == x && h[n - 1].square_y == y {
            assert(h[n - 1].ball_index == h[n - 1].ball_index);
        } else {
            match last_collision(h, n - 1, color, x, y) {
                Some(b) => {
                    let k = choose|k: int|
                        0 <= k < n - 1 && #[trigger] h[k].ball_index == b && h[k].ball_color@ == color && h[k].square_x == x
                            && h[k].square_y == y && forall|j: int|
                            k < j < n - 1 ==> !(#[trigger] h[j].ball_color@ == color && h[j].square_x == x && h[j].square_y
                                == y);
                    assert(h[k].ball_index == b);
                },
                None => {},
            }
        }
    }
}

/// The first cooldown found from place `i` on is one of ball `b` on square
/// `(x, y)`, with none of them before it; none is found when there is none.
pub proof fn lemma_first_cooldown_is_first_match(cs: Seq<CollisionCooldown>, i: int, b: usize, x: usize, y: usize)
    requires
        0 <= i,
    ensures
        match first_cooldown(cs, i, b, x, y) {
            Some(k) => i <= k < cs.len() && cs[k].ball_index == b && cs[k].square_x == x && cs[k].square_y == y
                && forall|j: int| i <= j < k ==> !(#[trigger] cs[j].ball_index == b && cs[j].square_x == x && cs[j].square_y == y),
            None => forall|j: int| i <= j < cs.len() ==> !(#[trigger] cs[j].ball_index == b && cs[j].square_x == x && cs[j].square_y == y),
        },
    decreases cs.len() - i,
{
    if i < cs.len() {
        lemma_first_cooldown_is_first_match(cs, i + 1, b, x, y);
    }
}

/// The ball a reference of the form `last.COLOR.self…` names: the one of
/// the latest collision of a ball of that colour with square `(x, y)`.
pub open spec fn referenced_ball(h: Seq<CollisionEvent>, reference: Seq<char>, x: usize, y: usize) -> Option<usize> {
    let parts = split_char(reference, '.');
    if starts_with(reference, "last."@) && parts.len() >= 3 && parts[0] == "last"@ && starts_with(parts[2], "self"@) {
        last_collision(h, h.len() as int, parts[1], x, y)
    } else {
        None
    }
}

/// Remembers a collision, forgetting the oldest beyond the limit.
pub fn record_collision(history: &mut VecDeque<CollisionEvent>, event: CollisionEvent)
    ensures
        final(history)@ == if old(history)@.len() + 1 > COLLISION_HISTORY_LIMIT {
            old(history)@.push(event).drop_first()
        } else {
            old(history)@.push(event)
        },
{
    history.push_back(event);
    if history.len() > COLLISION_HISTORY_LIMIT {
        history.pop_front();
    }
}

/// The ball of the latest remembered collision of a ball of `ball_color`
/// with square `(square_x, square_y)`.
pub fn find_last_ball_collision(
    history: &VecDeque<CollisionEvent>,
    ball_color: &str,
    square_x: usize,
    square_y: usize,
) -> (r: Option<usize>)
    ensures
        r == last_collision(history@, history@.len() as int, ball_color@, square_x, square_y),
{
    let mut i = history.len();
    while i > 0
        invariant
            i <= history@.len(),
            last_collision(history@, history@.len() as int, ball_color@, square_x, square_y) == last_collision(
                history@,
                i as int,
                ball_color@,
                square_x,
                square_y,
            ),
        decreases i,
    {
        let e = &history[i - 1];
        if str_eq(e.ball_color.as_str(), ball_color) && e.square_x == square_x && e.square_y == square_y {
            return Some(e.ball_index);
        }
        i = i - 1;
    }
    None
}

/// The ball a reference such as `last.c_red.self(-10)` names (see `referenced_ball`).
pub fn resolve_ball_reference(
    history: &VecDeque<CollisionEvent>,
    ball_reference: &str,
    current_square_x: usize,
    current_square_y: usize,
) -> (r: Option<usize>)
    ensures
        r == referenced_ball(history@, ball_reference@, current_square_x, current_square_y),
{
    if starts_with_exec(ball_reference, "last.") {
        let parts = split_char_exec(ball_reference, '.');
        proof {
            assert(views(parts@).len() == parts@.len());
        }
        if parts.len() >= 3 && str_eq(parts[0], "last") && starts_with_exec(parts[2], "self") {
            assert(views(parts@)[1] == parts@[1]@);
            return find_last_ball_collision(history, parts[1], current_square_x, current_square_y);
        }
    }
    None
}

/// Whether a cooldown is that of ball `b` on square `(x, y)`.
pub open spec fn cooldown_matches(c: CollisionCooldown, b: usize, x: usize, y: usize) -> bool {
    c.ball_index == b && c.square_x == x && c.square_y == y
}

/// The first cooldown of ball `b` on square `(x, y)`, from place `i` on.
pub open spec fn first_cooldown(cs: Seq<CollisionCooldown>, i: int, b: usize, x: usize, y: usize) -> Option<int>
    decreases cs.len() - i,
{
    if i < 0 || i >= cs.len() {
        None
    } else if cooldown_matches(cs[i], b, x, y) {
        Some(i)
    } else {
        first_cooldown(cs, i + 1, b, x, y)
    }
}

fn find_cooldown(cooldowns: &Vec<CollisionCooldown>, ball_index: usize, square_x: usize, square_y: usize) -> (r: Option<usize>)
    ensures
        match r {
            Some(i) => first_cooldown(cooldowns@, 0, ball_index, square_x, square_y) == Some(i as int) && i
                < cooldowns@.len(),
            None => first_cooldown(cooldowns@, 0, ball_index, square_x, square_y) is None,
        },
{
    let mut i: usize = 0;
    while i < cooldowns.len()
        invariant
            i <= cooldowns@.len(),
            first_cooldown(cooldowns@, 0, ball_index, square_x, square_y) == first_cooldown(
                cooldowns@,
                i as int,
                ball_index,
                square_x,
                square_y,
            ),
        decreases cooldowns.len() - i,
    {
        let c = &cooldowns[i];
        if c.ball_index == ball_index && c.square_x == square_x && c.square_y == square_y {
            return Some(i);
        }
        i = i + 1;
    }
    None
}

/// Whether a ball's collision with a square may run the square's program
/// at `now`: always when the ball has no cooldown on it, else when its
/// cooldown is at least `COOLDOWN_MS` old.
pub fn cooldown_allows(
    cooldowns: &Vec<CollisionCooldown>,
    ball_index: usize,
    square_x: usize,
    square_y: usize,
    now: u64,
) -> (r: bool)
    ensures
        r == match first_cooldown(cooldowns@, 0, ball_index, square_x, square_y) {
            Some(i) => elapsed_ms(now, cooldowns@[i].last_collision) >= COOLDOWN_MS,
            None => true,
        },
{
    match find_cooldown(cooldowns, ball_index, square_x, square_y) {
        Some(i) => elapsed_since(now, cooldowns[i].last_collision) >= COOLDOWN_MS,
        None => true,
    }
}

/// Starts a ball's cooldown on a square at `now`: its cooldown there is
/// renewed, or a new one added, forgetting the oldest beyond the limit.
pub fn touch_cooldown(
    cooldowns: &mut Vec<CollisionCooldown>,
    ball_index: usize,
    square_x: usize,
    square_y: usize,
    now: u64,
)
    ensures
        match first_cooldown(old(cooldowns)@, 0, ball_index, square_x, square_y) {
            Some(i) => final(cooldowns)@ == old(cooldowns)@.update(
                i,
                CollisionCooldown { last_collision: now, ..old(cooldowns)@[i] },
            ),
            None => {
                let added = old(cooldowns)@.push(
                    CollisionCooldown { ball_index, square_x, square_y, last_collision: now },
                );
                final(cooldowns)@ == if added.len() > COOLDOWN_LIMIT {
                    added.drop_first()
                } else {
                    added
                }
            },
        },
{
    match find_cooldown(cooldowns, ball_index, square_x, square_y) {
        Some(i) => {
            let c = CollisionCooldown {
                ball_index: cooldowns[i].ball_index,
                square_x: cooldowns[i].square_x,
                square_y: cooldowns[i].square_y,
                last_collision: now,
            };
            cooldowns.set(i, c);
        },
        None => {
            cooldowns.push(CollisionCooldown { ball_index, square_x, square_y, last_collision: now });
            if cooldowns.len() > COOLDOWN_LIMIT {
                cooldowns.remove(0);
                assert(cooldowns@ =~= old(cooldowns)@.push(
                    CollisionCooldown { ball_index, square_x, square_y, last_collision: now },
                ).drop_first());
            }
        },
    }
}

// ---------------------------------------------------------------------------
// Squares on the grid

/// Puts a red square with a new square's programming on cell `(x, y)`, if it
/// is on the grid; nothing else changes.
pub fn place_square_at(cells: &mut [[Cell; GRID_WIDTH]; GRID_HEIGHT], x: usize, y: usize)
    ensures
        x < GRID_WIDTH && y < GRID_HEIGHT ==> {
            &&& final(cells)@[y as int]@[x as int].content == CellContent::Square
            &&& final(cells)@[y as int]@[x as int].color == [255u8, 100u8, 100u8]
            &&& is_default_square_program(final(cells)@[y as int]@[x as int].program)
            &&& final(cells)@[y as int]@[x as int].display_text == old(cells)@[y as int]@[x as int].display_text
        },
        forall|i: int, j: int|
            0 <= i < GRID_HEIGHT && 0 <= j < GRID_WIDTH && !(i == y && j == x) ==> #[trigger] final(cells)@[i]@[j]
                == old(cells)@[i]@[j],
{
    if x < GRID_WIDTH && y < GRID_HEIGHT {
        cells[y][x].place_square(Some([255, 100, 100]));
    }
}

/// Makes cell `(x, y)`, if it is on the grid, an empty grey cell again;
/// nothing else changes.
pub fn clear_cell_at(cells: &mut [[Cell; GRID_WIDTH]; GRID_HEIGHT], x: usize, y: usize)
    ensures
        x < GRID_WIDTH && y < GRID_HEIGHT ==> {
            &&& final(cells)@[y as int]@[x as int].content == CellContent::Empty
            &&& final(cells)@[y as int]@[x as int].color == [100u8, 100u8, 100u8]
            &&& is_default_square_program(final(cells)@[y as int]@[x as int].program)
            &&& final(cells)@[y as int]@[x as int].display_text is None
        },
        forall|i: int, j: int|
            0 <= i < GRID_HEIGHT && 0 <= j < GRID_WIDTH && !(i == y && j == x) ==> #[trigger] final(cells)@[i]@[j]
                == old(cells)@[i]@[j],
{
    if x < GRID_WIDTH && y < GRID_HEIGHT {
        cells[y][x].clear();
    }
}

/// The program of cell `(x, y)` that an error is noted in: its active
/// program, if that keeps its text.
pub open spec fn noted_program(cells: Seq<[Cell; GRID_WIDTH]>, x: usize, y: usize) -> Option<usize> {
    if x < GRID_WIDTH && y < GRID_HEIGHT {
        let sp = cells[y as int]@[x as int].program;
        match sp.active_program {
            Some(a) => if a < sp.programs@.len() && sp.programs@[a as int].source_text is Some {
                Some(a)
            } else {
                None
            },
            None => None,
        }
    } else {
        None
    }
}

/// Program `p` with its text, which it keeps, noted with `message`.
pub open spec fn noted(p: Program, q: Program, message: Seq<char>) -> bool {
    &&& q.name == p.name
    &&& q.instructions == p.instructions
    &&& q.source_text is Some
    &&& texts_view(q.source_text->0@) == with_error_note(texts_view(p.source_text->0@), message)
}

/// Notes a runtime error in the text of the active program of square
/// `(grid_x, grid_y)` (see `noted_program` and `with_error_note`); nothing
/// else changes.
pub fn add_error_comment_to_program(
    cells: &mut [[Cell; GRID_WIDTH]; GRID_HEIGHT],
    grid_x: usize,
    grid_y: usize,
    error_msg: &str,
)
    requires
        noted_program(old(cells)@, grid_x, grid_y) matches Some(a) ==> old(cells)@[grid_y as int]@[grid_x as int].program.programs@[a as int].source_text->0@.len()
            < usize::MAX,
    ensures
        forall|i: int, j: int|
            0 <= i < GRID_HEIGHT && 0 <= j < GRID_WIDTH && !(i == grid_y && j == grid_x) ==> #[trigger] final(cells)@[i]@[j]
                == old(cells)@[i]@[j],
        match noted_program(old(cells)@, grid_x, grid_y) {
            None => final(cells)@ == old(cells)@,
            Some(a) => {
                let c = old(cells)@[grid_y as int]@[grid_x as int];
                let d = final(cells)@[grid_y as int]@[grid_x as int];
                &&& d.content == c.content
                &&& d.color == c.color
                &&& d.display_text == c.display_text
                &&& d.program.steps == c.program.steps
                &&& d.program.hit_count == c.program.hit_count
                &&& d.program.sample_path == c.program.sample_path
                &&& d.program.active_program == c.program.active_program
                &&& d.program.programs@.len() == c.program.programs@.len()
                &&& forall|k: int|
                    0 <= k < c.program.programs@.len() && k != a ==> #[trigger] d.program.programs@[k]
                        == c.program.programs@[k]
                &&& noted(c.program.programs@[a as int], d.program.programs@[a as int], error_msg@)
            },
        },
{
    if grid_x < GRID_WIDTH && grid_y < GRID_HEIGHT {
        let noted_index = match cells[grid_y][grid_x].program.active_program {
            Some(a) => if a < cells[grid_y][grid_x].program.programs.len()
                && cells[grid_y][grid_x].program.programs[a].source_text.is_some() {
                Some(a)
            } else {
                None
            },
            None => None,
        };
        match noted_index {
            Some(a) => {
                let program = &mut cells[grid_y][grid_x].program.programs[a];
                match &mut program.source_text {
                    Some(source_text) => {
                        add_error_comment(source_text, error_msg);
                    },
                    None => {},
                }
            },
            None => {},
        }
    }
}

} // verus!
