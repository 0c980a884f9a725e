//! Drawing the grid, squares, balls' cells, the cursor and the console into
//! the window's frame, 640 pixels wide and 630 high. Text is drawn with the
//! font, which these functions leave to their caller: they return it as
//! text runs.
use vstd::prelude::*;
use std::collections::VecDeque;
use crate::frame::{
    fill_rect, in_rect, lemma_paint_same, lemma_paint_union, paint, paint_pixels, run_view, runs_view, TextRun,
};
use crate::text::{nat_digits, owned, split_char, split_char_exec, str_eq, uint_to_text, views};

verus! {

pub const CELL_SIZE: usize = 40;

pub const CONSOLE_HEIGHT: usize = 150;

pub const WINDOW_WIDTH: usize = 640;

pub const WINDOW_HEIGHT: usize = 630;

pub const GRID_AREA_HEIGHT: usize = 480;

pub struct Renderer;

/// The colour a colour name stands for (white for names it does not know).
pub open spec fn color_rgb(name: Seq<char>) -> [u8; 3] {
    if name == "Red"@ {
        [255, 0, 0]
    } else if name == "Green"@ {
        [0, 255, 0]
    } else if name == "Blue"@ {
        [0, 0, 255]
    } else if name == "Yellow"@ {
        [255, 255, 0]
    } else if name == "Cyan"@ {
        [0, 255, 255]
    } else if name == "Magenta"@ {
        [255, 0, 255]
    } else if name == "White"@ {
        [255, 255, 255]
    } else if name == "Orange"@ {
        [255, 165, 0]
    } else {
        [255, 255, 255]
    }
}

/// The pixels of the grid lines: every 40th column over the window's
/// height, and every 40th row of the grid area over its width.
pub open spec fn grid_line_pixel(p: int) -> bool {
    let px = p % 640;
    let py = p / 640;
    0 <= py < 630 && (px % 40 == 0 || (py % 40 == 0 && py <= 480))
}

/// The pixels of a ball's disc in cell `(gx, gy)`: those of the cell's
/// inner square (2 pixels in from its edge) at most 18 pixels from the cell's
/// centre.
pub open spec fn disc_pixel(p: int, gx: int, gy: int) -> bool {
    let px = p % 640;
    let py = p / 640;
    let cx = gx * 40 + 20;
    let cy = gy * 40 + 20;
    &&& gx * 40 + 2 <= px < gx * 40 + 38
    &&& gy * 40 + 2 <= py < gy * 40 + 38
    &&& py < 630
    &&& (px - cx) * (px - cx) + (py - cy) * (py - cy) <= 324
}

/// The pixels of the cursor's outline around cell `(cx, cy)`.
pub open spec fn cursor_pixel(p: int, cx: int, cy: int) -> bool {
    let x = cx * 40;
    let y = cy * 40;
    ||| in_rect(p, 640, 630, x, y, x + 40, y + 1)
    ||| in_rect(p, 640, 630, x, y + 39, x + 40, y + 40)
    ||| in_rect(p, 640, 630, x, y, x + 1, y + 40)
    ||| in_rect(p, 640, 630, x + 39, y, x + 40, y + 40)
}

pub open spec fn run(text: Seq<char>, x: int, y: int, color: [u8; 3], selected: bool) -> (Seq<char>, usize, usize, [u8; 3], bool) {
    (text, x as usize, y as usize, color, selected)
}

/// The lines of a square's text from line `i` on, each 12 pixels below the
/// last from `y`, as long as they fit above `end_y`.
pub open spec fn square_text_runs(lines: Seq<Seq<char>>, x: int, y: int, end_y: int, i: int) -> Seq<(Seq<char>, usize, usize, [u8; 3], bool)>
    decreases lines.len() - i,
{
    if i < 0 || i >= lines.len() || y + i * 12 + 12 > end_y {
        seq![]
    } else {
        seq![run(lines[i], x, y + i * 12, [255u8, 255, 255], false)] + square_text_runs(lines, x, y, end_y, i + 1)
    }
}

/// The console messages from message `i` on, each 14 pixels below the last,
/// as long as they fit in the console.
pub open spec fn console_runs(messages: Seq<Seq<char>>, i: int) -> Seq<(Seq<char>, usize, usize, [u8; 3], bool)>
    decreases messages.len() - i,
{
    if i < 0 || i >= messages.len() || 490 + i * 14 + 12 >= 630 {
        seq![]
    } else {
        seq![run(messages[i], 5, 490 + i * 14, [200u8, 200, 200], false)] + console_runs(messages, i + 1)
    }
}

impl Renderer {
    pub fn get_color_rgb(color_name: &str) -> (r: [u8; 3])
        ensures
            r == color_rgb(color_name@),
    {
        if str_eq(color_name, "Red") {
            [255, 0, 0]
        } else if str_eq(color_name, "Green") {
            [0, 255, 0]
        } else if str_eq(color_name, "Blue") {
            [0, 0, 255]
        } else if str_eq(color_name, "Yellow") {
            [255, 255, 0]
        } else if str_eq(color_name, "Cyan") {
            [0, 255, 255]
        } else if str_eq(color_name, "Magenta") {
            [255, 0, 255]
        } else if str_eq(color_name, "White") {
            [255, 255, 255]
        } else if str_eq(color_name, "Orange") {
            [255, 165, 0]
        } else {
            [255, 255, 255]
        }
    }

    /// Draws the grid lines in dark grey (see `grid_line_pixel`).
    pub fn draw_grid_lines(frame: &mut [u8])
        ensures
            final(frame)@ == paint_pixels(old(frame)@, |p: int| grid_line_pixel(p), seq![60u8, 60, 60]),
    {
        let ghost f0 = frame@;
        let ghost c = seq![60u8, 60, 60];
        let color: [u8; 4] = [60, 60, 60, 0];
        assert(color@.take(3) =~= c);
        assert(paint_pixels(f0, |p: int| false, c) =~= f0);
        let mut x: usize = 0;
        while x < 16
            invariant
                x <= 16,
                color@.take(3) == c,
                frame@ == paint_pixels(
                    f0,
                    |p: int| 0 <= p / 640 < 630 && (p % 640) % 40 == 0 && (p % 640) / 40 < x,
                    c,
                ),
            decreases 16 - x,
        {
            let ghost before = frame@;
            fill_rect(frame, 640, 630, x * 40, 0, x * 40 + 1, 630, color, 3);
            proof {
                lemma_paint_union(
                    f0,
                    |p: int| 0 <= p / 640 < 630 && (p % 640) % 40 == 0 && (p % 640) / 40 < x,
                    |p: int| in_rect(p, 640, 630, x * 40, 0, x * 40 + 1, 630),
                    |p: int| 0 <= p / 640 < 630 && (p % 640) % 40 == 0 && (p % 640) / 40 < x + 1,
                    c,
                );
            }
            x = x + 1;
        }
        let mut y: usize = 0;
        while y < 13
            invariant
                y <= 13,
                color@.take(3) == c,
                frame@ == paint_pixels(
                    f0,
                    |p: int|
                        0 <= p / 640 < 630 && (((p % 640) % 40 == 0 && (p % 640) / 40 < 16) || ((p / 640) % 40 == 0
                            && (p / 640) / 40 < y)),
                    c,
                ),
            decreases 13 - y,
        {
            fill_rect(frame, 640, 630, 0, y * 40, 640, y * 40 + 1, color, 3);
            proof {
                lemma_paint_union(
                    f0,
                    |p: int|
                        0 <= p / 640 < 630 && (((p % 640) % 40 == 0 && (p % 640) / 40 < 16) || ((p / 640) % 40 == 0
                            && (p / 640) / 40 < y)),
                    |p: int| in_rect(p, 640, 630, 0, y * 40, 640, y * 40 + 1),
                    |p: int|
                        0 <= p / 640 < 630 && (((p % 640) % 40 == 0 && (p % 640) / 40 < 16) || ((p / 640) % 40 == 0
                            && (p / 640) / 40 < y + 1)),
                    c,
                );
            }
            y = y + 1;
        }
        proof {
            lemma_paint_same(
                f0,
                |p: int|
                    0 <= p / 640 < 630 && (((p % 640) % 40 == 0 && (p % 640) / 40 < 16) || ((p / 640) % 40 == 0 && (p
                        / 640) / 40 < 13)),
                |p: int| grid_line_pixel(p),
                c,
            );
        }
    }
    /// Fills the inner square of cell `(grid_x, grid_y)` (2 pixels in from its
    /// edge) with `color`, and gives the lines of `display_text` that fit in
    /// it, white, 12 pixels apart from 4 pixels inside its top left corner.
    pub fn draw_square(frame: &mut [u8], grid_x: usize, grid_y: usize, color: [u8; 3], display_text: &Option<String>) -> (runs: Vec<TextRun>)
        requires
            (grid_x + 1) * 40 <= usize::MAX,
            (grid_y + 1) * 40 <= usize::MAX,
        ensures
            final(frame)@ == paint(
                old(frame)@,
                640,
                630,
                grid_x * 40 + 2,
                grid_y * 40 + 2,
                grid_x * 40 + 38,
                grid_y * 40 + 38,
                color@,
            ),
            runs_view(runs@) == match display_text {
                Some(t) => square_text_runs(split_char(t@, '\n'), grid_x * 40 + 6, grid_y * 40 + 6, grid_y * 40 + 38, 0),
                None => seq![],
            },
    {
        let start_x = grid_x * 40 + 2;
        let start_y = grid_y * 40 + 2;
        let end_x = (grid_x + 1) * 40 - 2;
        let end_y = (grid_y + 1) * 40 - 2;
        let rgba: [u8; 4] = [color[0], color[1], color[2], 0];
        assert(rgba@.take(3) =~= color@);
        fill_rect(frame, 640, 630, start_x, start_y, end_x, end_y, rgba, 3);
        let mut runs: Vec<TextRun> = Vec::new();
        match display_text {
            Some(text) => {
                let text_x = start_x + 4;
                let text_y = start_y + 4;
                let lines = split_char_exec(text.as_str(), '\n');
                let ghost ls = views(lines@);
                let mut i: usize = 0;
                while i < lines.len() && text_y + i * 12 + 12 <= end_y
                    invariant
                        ls == views(lines@),
                        ls == split_char(text@, '\n'),
                        i <= lines.len(),
                        i <= 2,
                        text_y == grid_y * 40 + 6,
                        end_y == grid_y * 40 + 38,
                        text_x == grid_x * 40 + 6,
                        end_y <= usize::MAX,
                        runs_view(runs@) + square_text_runs(ls, text_x as int, text_y as int, end_y as int, i as int)
                            == square_text_runs(ls, text_x as int, text_y as int, end_y as int, 0),
                    decreases lines.len() - i,
                {
                    let ghost before = runs@;
                    let r = TextRun {
                        text: owned(lines[i]),
                        x: text_x,
                        y: text_y + i * 12,
                        color: [255, 255, 255],
                        selected: false,
                    };
                    assert(ls[i as int] == lines@[i as int]@);
                    runs.push(r);
                    assert(runs_view(runs@) =~= runs_view(before).push(run_view(r)));
                    assert(runs_view(runs@) + square_text_runs(ls, text_x as int, text_y as int, end_y as int, i + 1)
                        =~= runs_view(before) + square_text_runs(ls, text_x as int, text_y as int, end_y as int, i as int));
                    i = i + 1;
                }
                assert(square_text_runs(ls, text_x as int, text_y as int, end_y as int, i as int) =~= seq![]);
                assert(runs_view(runs@) =~= runs_view(runs@) + square_text_runs(
                    ls,
                    text_x as int,
                    text_y as int,
                    end_y as int,
                    i as int,
                ));
            },
            None => {
                assert(runs_view(runs@) =~= seq![]);
            },
        }
        runs
    }

    /// Draws a ball's disc in cell `(grid_x, grid_y)` (see `disc_pixel`). The
    /// disc is the cell's pixels within 18 of its centre, compared exactly on
    /// whole pixel positions.
    pub fn draw_circle(frame: &mut [u8], grid_x: usize, grid_y: usize, color: [u8; 3])
        requires
            (grid_x + 1) * 40 <= usize::MAX,
            (grid_y + 1) * 40 <= usize::MAX,
        ensures
            final(frame)@ == paint_pixels(old(frame)@, |p: int| disc_pixel(p, grid_x as int, grid_y as int), color@),
    {
        let ghost f0 = frame@;
        let ghost gx = grid_x as int;
        let ghost gy = grid_y as int;
        let center_x = grid_x * 40 + 20;
        let center_y = grid_y * 40 + 20;
        let start_x = grid_x * 40 + 2;
        let start_y = grid_y * 40 + 2;
        let end_x = (grid_x + 1) * 40 - 2;
        let end_y = (grid_y + 1) * 40 - 2;
        let rgba: [u8; 4] = [color[0], color[1], color[2], 0];
        assert(rgba@.take(3) =~= color@);
        assert(paint_pixels(f0, |p: int| false, color@) =~= f0);
        let mut y = start_y;
        while y < end_y
            invariant
                start_y <= y <= end_y,
                start_x == gx * 40 + 2,
                end_x == gx * 40 + 38,
                start_y == gy * 40 + 2,
                end_y == gy * 40 + 38,
                center_x == gx * 40 + 20,
                center_y == gy * 40 + 20,
                rgba@.take(3) == color@,
                frame@ == paint_pixels(f0, |p: int| disc_pixel(p, gx, gy) && p / 640 < y, color@),
            decreases end_y - y,
        {
            let mut x = start_x;
            while x < end_x
                invariant
                    start_y <= y < end_y,
                    start_x <= x <= end_x,
                    start_x == gx * 40 + 2,
                    end_x == gx * 40 + 38,
                    start_y == gy * 40 + 2,
                    end_y == gy * 40 + 38,
                    center_x == gx * 40 + 20,
                    center_y == gy * 40 + 20,
                    rgba@.take(3) == color@,
                    frame@ == paint_pixels(
                        f0,
                        |p: int| disc_pixel(p, gx, gy) && (p / 640 < y || (p / 640 == y && p % 640 < x)),
                        color@,
                    ),
                decreases end_x - x,
            {
                let dx = if x >= center_x { x - center_x } else { center_x - x };
                let dy = if y >= center_y { y - center_y } else { center_y - y };
                let mut inside = false;
                if x < 640 && y < 630 && dx <= 18 && dy <= 18 {
                    assert(dx * dx <= 324 && dy * dy <= 324) by (nonlinear_arith)
                        requires
                            dx <= 18,
                            dy <= 18,
                    ;
                    inside = dx * dx + dy * dy <= 324;
                }
                proof {
                    let ddx = x - center_x;
                    let ddy = y - center_y;
                    assert(ddx * ddx == dx * dx) by (nonlinear_arith)
                        requires
                            dx == ddx || dx == -ddx,
                    ;
                    assert(ddy * ddy == dy * dy) by (nonlinear_arith)
                        requires
                            dy == ddy || dy == -ddy,
                    ;
                    if dx > 18 {
                        assert(dx * dx > 324) by (nonlinear_arith)
                            requires
                                dx > 18,
                        ;
                    }
                    if dy > 18 {
                        assert(dy * dy > 324) by (nonlinear_arith)
                            requires
                                dy > 18,
                        ;
                    }
                }
                if inside {
                    fill_rect(frame, 640, 630, x, y, x + 1, y + 1, rgba, 3);
                    proof {
                        lemma_paint_union(
                            f0,
                            |p: int| disc_pixel(p, gx, gy) && (p / 640 < y || (p / 640 == y && p % 640 < x)),
                            |p: int| in_rect(p, 640, 630, x as int, y as int, x + 1, y + 1),
                            |p: int| disc_pixel(p, gx, gy) && (p / 640 < y || (p / 640 == y && p % 640 < x + 1)),
                            color@,
                        );
                    }
                } else {
                    proof {
                        lemma_paint_same(
                            f0,
                            |p: int| disc_pixel(p, gx, gy) && (p / 640 < y || (p / 640 == y && p % 640 < x)),
                            |p: int| disc_pixel(p, gx, gy) && (p / 640 < y || (p / 640 == y && p % 640 < x + 1)),
                            color@,
                        );
                    }
                }
                x = x + 1;
            }
            proof {
                lemma_paint_same(
                    f0,
                    |p: int| disc_pixel(p, gx, gy) && (p / 640 < y || (p / 640 == y && p % 640 < end_x)),
                    |p: int| disc_pixel(p, gx, gy) && p / 640 < y + 1,
                    color@,
                );
            }
            y = y + 1;
        }
        proof {
            lemma_paint_same(
                f0,
                |p: int| disc_pixel(p, gx, gy) && p / 640 < end_y,
                |p: int| disc_pixel(p, gx, gy),
                color@,
            );
        }
    }

    /// Draws the cursor's yellow outline around cell `(cursor_x, cursor_y)`.
    pub fn draw_cursor(frame: &mut [u8], cursor_x: usize, cursor_y: usize)
        requires
            (cursor_x + 1) * 40 <= usize::MAX,
            (cursor_y + 1) * 40 <= usize::MAX,
        ensures
            final(frame)@ == paint_pixels(
                old(frame)@,
                |p: int| cursor_pixel(p, cursor_x as int, cursor_y as int),
                seq![255u8, 255, 0],
            ),
    {
        let ghost f0 = frame@;
        let ghost c = seq![255u8, 255, 0];
        let color: [u8; 4] = [255, 255, 0, 0];
        assert(color@.take(3) =~= c);
        let x = cursor_x * 40;
        let y = cursor_y * 40;
        fill_rect(frame, 640, 630, x, y, x + 40, y + 1, color, 3);
        fill_rect(frame, 640, 630, x, y + 39, x + 40, y + 40, color, 3);
        fill_rect(frame, 640, 630, x, y, x + 1, y + 40, color, 3);
        fill_rect(frame, 640, 630, x + 39, y, x + 40, y + 40, color, 3);
        proof {
            let top = |p: int| in_rect(p, 640, 630, x as int, y as int, x + 40, y + 1);
            let bottom = |p: int| in_rect(p, 640, 630, x as int, y + 39, x + 40, y + 40);
            let left = |p: int| in_rect(p, 640, 630, x as int, y as int, x + 1, y + 40);
            let right = |p: int| in_rect(p, 640, 630, x + 39, y as int, x + 40, y + 40);
            let tb = |p: int| top(p) || bottom(p);
            let tbl = |p: int| top(p) || bottom(p) || left(p);
            lemma_paint_union(f0, top, bottom, tb, c);
            lemma_paint_union(f0, tb, left, tbl, c);
            lemma_paint_union(f0, tbl, right, |p: int| cursor_pixel(p, cursor_x as int, cursor_y as int), c);
        }
    }

    /// Draws the console (a dark band below the grid with a grey top edge)
    /// and gives its messages that fit, one every 14 pixels.
    pub fn draw_console(frame: &mut [u8], console_messages: &VecDeque<String>) -> (runs: Vec<TextRun>)
        ensures
            final(frame)@ == paint(
                paint(old(frame)@, 640, 630, 0, 480, 640, 630, seq![30u8, 30, 30, 255]),
                640,
                630,
                0,
                480,
                640,
                481,
                seq![100u8, 100, 100, 255],
            ),
            runs_view(runs@) == console_runs(console_messages@.map_values(|m: String| m@), 0),
    {
        let background: [u8; 4] = [30, 30, 30, 255];
        let border: [u8; 4] = [100, 100, 100, 255];
        assert(background@.take(4) =~= seq![30u8, 30, 30, 255]);
        assert(border@.take(4) =~= seq![100u8, 100, 100, 255]);
        fill_rect(frame, 640, 630, 0, 480, 640, 630, background, 4);
        fill_rect(frame, 640, 630, 0, 480, 640, 481, border, 4);
        let ghost ms = console_messages@.map_values(|m: String| m@);
        let mut runs: Vec<TextRun> = Vec::new();
        let mut i: usize = 0;
        while i < console_messages.len() && 490 + i * 14 + 12 < 630
            invariant
                ms == console_messages@.map_values(|m: String| m@),
                i <= console_messages@.len(),
                i <= 10,
                runs_view(runs@) + console_runs(ms, i as int) == console_runs(ms, 0),
            decreases console_messages@.len() - i,
        {
            let ghost before = runs@;
            let r = TextRun {
                text: owned(console_messages[i].as_str()),
                x: 5,
                y: 490 + i * 14,
                color: [200, 200, 200],
                selected: false,
            };
            assert(ms[i as int] == console_messages@[i as int]@);
            runs.push(r);
            assert(runs_view(runs@) =~= runs_view(before).push(run_view(r)));
            assert(runs_view(runs@) + console_runs(ms, i + 1) =~= runs_view(before) + console_runs(ms, i as int));
            i = i + 1;
        }
        assert(console_runs(ms, i as int) =~= seq![]);
        assert(runs_view(runs@) =~= runs_view(runs@) + console_runs(ms, i as int));
        runs
    }

    /// The text run for `text` at `(x, y)`.
    pub fn draw_menu_text(text: &str, x: usize, y: usize, color: [u8; 3], selected: bool) -> (r: TextRun)
        ensures
            run_view(r) == (text@, x, y, color, selected),
    {
        TextRun { text: owned(text), x, y, color, selected }
    }

    /// The cursor's cell as `(x, y)`, in white above the grid's top left corner.
    pub fn draw_cursor_coordinates(cursor_x: usize, cursor_y: usize) -> (r: TextRun)
        ensures
            run_view(r) == (
                "("@ + nat_digits(cursor_x as nat) + ", "@ + nat_digits(cursor_y as nat) + ")"@,
                5usize,
                25usize,
                [255u8, 255, 255],
                false,
            ),
    {
        let xs = uint_to_text(cursor_x as u64);
        let ys = uint_to_text(cursor_y as u64);
        let mut text = owned("(");
        text.append(xs.as_str());
        text.append(", ");
        text.append(ys.as_str());
        text.append(")");
        TextRun { text, x: 5, y: 25, color: [255, 255, 255], selected: false }
    }
}

/// Drawing the grid lines keeps the frame's length and every alpha byte;
/// a pixel changes only where it lies on a grid line, and each grid-line
/// pixel whose colour bytes lie in the frame becomes dark grey.
pub proof fn lemma_grid_lines_drawn(f: Seq<u8>)
    ensures
        ({
            let g = paint_pixels(f, |p: int| grid_line_pixel(p), seq![60u8, 60, 60]);
            &&& g.len() == f.len()
            &&& forall|k: int| 0 <= k < f.len() && k % 4 == 3 ==> #[trigger] g[k] == f[k]
            &&& forall|k: int| 0 <= k < f.len() && !grid_line_pixel(k / 4) ==> #[trigger] g[k] == f[k]
            &&& forall|p: int|
                0 <= p && 4 * p + 2 < f.len() && #[trigger] grid_line_pixel(p) ==> g[4 * p] == 60
                    && g[4 * p + 1] == 60 && g[4 * p + 2] == 60
        }),
{
    let c = seq![60u8, 60, 60];
    let g = paint_pixels(f, |p: int| grid_line_pixel(p), c);
    assert forall|p: int|
        0 <= p && 4 * p + 2 < f.len() && #[trigger] grid_line_pixel(p) implies g[4 * p] == 60
            && g[4 * p + 1] == 60 && g[4 * p + 2] == 60 by {
        assert((4 * p) / 4 == p && (4 * p) % 4 == 0);
        assert((4 * p + 1) / 4 == p && (4 * p + 1) % 4 == 1);
        assert((4 * p + 2) / 4 == p && (4 * p + 2) % 4 == 2);
    }
}

} // verus!
