//! Painting into a frame of RGBA pixels, four bytes each, stored row by row
//! in a window `w` pixels wide and `h` high. A pixel is painted only when
//! it lies in the window and its channels fit in the frame.
use vstd::prelude::*;

verus! {

/// Pixel number `p` lies in the rectangle from `(x0, y0)` up to (not
/// including) `(x1, y1)` and in the window.
pub open spec fn in_rect(p: int, w: int, h: int, x0: int, y0: int, x1: int, y1: int) -> bool {
    let px = p % w;
    let py = p / w;
    x0 <= px < x1 && y0 <= py < y1 && py < h
}

/// The frame `f` with the pixels `covered` picks painted in colour `c`: the
/// first `c.len()` channels of each such pixel whose channels fit in the frame.
pub open spec fn paint_pixels(f: Seq<u8>, covered: spec_fn(int) -> bool, c: Seq<u8>) -> Seq<u8> {
    Seq::new(
        f.len(),
        |k: int| if covered(k / 4) && (k / 4) * 4 + c.len() <= f.len() && k % 4 < c.len() { c[k % 4] } else { f[k] },
    )
}

/// The frame `f` with a rectangle painted in colour `c`.
pub open spec fn paint(f: Seq<u8>, w: int, h: int, x0: int, y0: int, x1: int, y1: int, c: Seq<u8>) -> Seq<u8> {
    paint_pixels(f, |p: int| in_rect(p, w, h, x0, y0, x1, y1), c)
}

/// Painting some pixels and then others in one colour paints them all.
pub proof fn lemma_paint_union(f: Seq<u8>, a: spec_fn(int) -> bool, b: spec_fn(int) -> bool, u: spec_fn(int) -> bool, c: Seq<u8>)
    requires
        forall|p: int| #[trigger] u(p) == (a(p) || b(p)),
    ensures
        paint_pixels(paint_pixels(f, a, c), b, c) == paint_pixels(f, u, c),
{
    assert(paint_pixels(paint_pixels(f, a, c), b, c) =~= paint_pixels(f, u, c));
}

/// Painting pixels picked by two predicates that agree is painting the same.
pub proof fn lemma_paint_same(f: Seq<u8>, a: spec_fn(int) -> bool, b: spec_fn(int) -> bool, c: Seq<u8>)
    requires
        forall|p: int| #[trigger] a(p) == b(p),
    ensures
        paint_pixels(f, a, c) == paint_pixels(f, b, c),
{
    assert(paint_pixels(f, a, c) =~= paint_pixels(f, b, c));
}

/// A piece of text to draw with the font, at `(x, y)`, inverted if selected.
pub struct TextRun {
    pub text: String,
    pub x: usize,
    pub y: usize,
    pub color: [u8; 3],
    pub selected: bool,
}

/// The view of a text run: its characters, position, colour and selection.
pub open spec fn run_view(r: TextRun) -> (Seq<char>, usize, usize, [u8; 3], bool) {
    (r.text@, r.x, r.y, r.color, r.selected)
}

pub open spec fn runs_view(v: Seq<TextRun>) -> Seq<(Seq<char>, usize, usize, [u8; 3], bool)> {
    v.map_values(|r: TextRun| run_view(r))
}

/// A pixel is numbered by its position in the window, row by row.
pub proof fn lemma_pixel_position(p: int, w: int, x: int, y: int)
    requires
        w > 0,
        0 <= x < w,
        0 <= y,
    ensures
        (p % w == x && p / w == y) <==> p == y * w + x,
{
    if p % w == x && p / w == y {
        vstd::arithmetic::div_mod::lemma_fundamental_div_mod(p, w);
        assert(w * y == y * w) by (nonlinear_arith);
    }
    if p == y * w + x {
        vstd::arithmetic::div_mod::lemma_fundamental_div_mod_converse(p, w, y, x);
    }
}

/// Painting a band of rows and then the rows below it, in one colour,
/// paints the rows they make up.
proof fn lemma_paint_rows(f: Seq<u8>, w: int, h: int, x0: int, x1: int, y0: int, ym: int, y1: int, c: Seq<u8>)
    requires
        y0 <= ym <= y1,
    ensures
        paint(paint(f, w, h, x0, y0, x1, ym, c), w, h, x0, ym, x1, y1, c) == paint(f, w, h, x0, y0, x1, y1, c),
{
    assert(paint(paint(f, w, h, x0, y0, x1, ym, c), w, h, x0, ym, x1, y1, c) =~= paint(f, w, h, x0, y0, x1, y1, c));
}

/// Paints one pixel, at byte `index`, with the first `n` channels of `color`.
fn put_pixel(frame: &mut [u8], index: usize, color: [u8; 4], n: usize)
    requires
        n == 3 || n == 4,
        index + n <= old(frame)@.len(),
    ensures
        final(frame)@.len() == old(frame)@.len(),
        forall|k: int|
            0 <= k < old(frame)@.len() ==> #[trigger] final(frame)@[k] == if index <= k < index + n {
                color@[k - index]
            } else {
                old(frame)@[k]
            },
{
    frame[index] = color[0];
    frame[index + 1] = color[1];
    frame[index + 2] = color[2];
    if n == 4 {
        frame[index + 3] = color[3];
    }
}

/// Paints the rectangle from `(x0, y0)` up to `(x1, y1)` with the first `n`
/// channels of `color` (see `paint`).
pub fn fill_rect(frame: &mut [u8], w: usize, h: usize, x0: usize, y0: usize, x1: usize, y1: usize, color: [u8; 4], n: usize)
    requires
        w > 0,
        n == 3 || n == 4,
        h * w * 4 <= usize::MAX,
    ensures
        final(frame)@ == paint(old(frame)@, w as int, h as int, x0 as int, y0 as int, x1 as int, y1 as int, color@.take(n as int)),
{
    let ghost f0 = frame@;
    let ghost c = color@.take(n as int);
    let len = frame.len();
    assert(paint(f0, w as int, h as int, x0 as int, y0 as int, x1 as int, y0 as int, c) =~= f0);
    let mut y = y0;
    while y < y1
        invariant
            w > 0,
            n == 3 || n == 4,
            h * w * 4 <= usize::MAX,
            len == frame@.len() == f0.len(),
            c == color@.take(n as int),
            y0 <= y,
            y <= y1 || y == y0,
            frame@ == paint(f0, w as int, h as int, x0 as int, y0 as int, x1 as int, y as int, c),
        decreases y1 - y,
    {
        let ghost rows = frame@;
        assert(paint(rows, w as int, h as int, x0 as int, y as int, x0 as int, y + 1, c) =~= rows);
        let mut x = x0;
        while x < x1
            invariant
                w > 0,
                n == 3 || n == 4,
                h * w * 4 <= usize::MAX,
                len == frame@.len() == f0.len(),
                c == color@.take(n as int),
                y < y1,
                x0 <= x,
                x <= x1 || x == x0,
                rows == paint(f0, w as int, h as int, x0 as int, y0 as int, x1 as int, y as int, c),
                frame@ == paint(rows, w as int, h as int, x0 as int, y as int, x as int, y + 1, c),
            decreases x1 - x,
        {
            let ghost before = frame@;
            if x < w && y < h {
                assert(y * w + x < h * w) by (nonlinear_arith)
                    requires
                        x < w,
                        y < h,
                ;
                let index = (y * w + x) * 4;
                if index + n <= len {
                    put_pixel(frame, index, color, n);
                    assert forall|k: int| 0 <= k < len implies #[trigger] frame@[k] == paint(
                        rows,
                        w as int,
                        h as int,
                        x0 as int,
                        y as int,
                        x + 1,
                        y + 1,
                        c,
                    )[k] by {
                        lemma_pixel_position(k / 4, w as int, x as int, y as int);
                    }
                } else {
                    assert forall|k: int| 0 <= k < len implies #[trigger] frame@[k] == paint(
                        rows,
                        w as int,
                        h as int,
                        x0 as int,
                        y as int,
                        x + 1,
                        y + 1,
                        c,
                    )[k] by {
                        lemma_pixel_position(k / 4, w as int, x as int, y as int);
                    }
                }
            } else {
                assert forall|k: int| 0 <= k < len implies #[trigger] frame@[k] == paint(
                    rows,
                    w as int,
                    h as int,
                    x0 as int,
                    y as int,
                    x + 1,
                    y + 1,
                    c,
                )[k] by {
                    vstd::arithmetic::div_mod::lemma_mod_pos_bound(k / 4, w as int);
                }
            }
            x = x + 1;
            assert(frame@ =~= paint(rows, w as int, h as int, x0 as int, y as int, x as int, y + 1, c));
        }
        proof {
            if x0 >= x1 {
                assert(frame@ =~= paint(rows, w as int, h as int, x0 as int, y as int, x1 as int, y + 1, c));
            }
            lemma_paint_rows(f0, w as int, h as int, x0 as int, x1 as int, y0 as int, y as int, y + 1, c);
        }
        y = y + 1;
    }
    proof {
        if y0 >= y1 {
            assert(frame@ =~= paint(f0, w as int, h as int, x0 as int, y0 as int, x1 as int, y1 as int, c));
        }
    }
}

/// `a + d`, or 255 where that would not fit in a byte.
pub open spec fn saturated(a: u8, d: u8) -> u8 {
    if a + d > 255 {
        255
    } else {
        (a + d) as u8
    }
}

/// The frame `f` with the red, green and blue of each pixel of the rectangle
/// raised by `d` (saturating), for pixels whose four channels fit in it.
pub open spec fn brighten(f: Seq<u8>, w: int, h: int, x0: int, y0: int, x1: int, y1: int, d: Seq<u8>) -> Seq<u8> {
    Seq::new(
        f.len(),
        |k: int|
            if in_rect(k / 4, w, h, x0, y0, x1, y1) && (k / 4) * 4 + 4 <= f.len() && k % 4 < 3 {
                saturated(f[k], d[k % 4])
            } else {
                f[k]
            },
    )
}

/// Raises the red, green and blue of the rectangle's pixels (see `brighten`).
pub fn brighten_rect(frame: &mut [u8], w: usize, h: usize, x0: usize, y0: usize, x1: usize, y1: usize, d: [u8; 3])
    requires
        w > 0,
        h * w * 4 <= usize::MAX,
    ensures
        final(frame)@ == brighten(old(frame)@, w as int, h as int, x0 as int, y0 as int, x1 as int, y1 as int, d@),
{
    let ghost f0 = frame@;
    let len = frame.len();
    assert(brighten(f0, w as int, h as int, x0 as int, y0 as int, x1 as int, y0 as int, d@) =~= f0);
    let mut y = y0;
    while y < y1
        invariant
            w > 0,
            h * w * 4 <= usize::MAX,
            len == frame@.len() == f0.len(),
            y0 <= y,
            y <= y1 || y == y0,
            frame@ == brighten(f0, w as int, h as int, x0 as int, y0 as int, x1 as int, y as int, d@),
        decreases y1 - y,
    {
        let mut x = x0;
        while x < x1
            invariant
                w > 0,
                h * w * 4 <= usize::MAX,
                len == frame@.len() == f0.len(),
                y < y1,
                x0 <= x,
                x <= x1 || x == x0,
                frame@ == Seq::new(
                    f0.len(),
                    |k: int|
                        if (in_rect(k / 4, w as int, h as int, x0 as int, y0 as int, x1 as int, y as int) || in_rect(
                            k / 4,
                            w as int,
                            h as int,
                            x0 as int,
                            y as int,
                            x as int,
                            y + 1,
                        )) && (k / 4) * 4 + 4 <= f0.len() && k % 4 < 3 {
                            saturated(f0[k], d@[k % 4])
                        } else {
                            f0[k]
                        },
                ),
            decreases x1 - x,
        {
            let ghost before = frame@;
            if x < w && y < h {
                assert(y * w + x < h * w) by (nonlinear_arith)
                    requires
                        x < w,
                        y < h,
                ;
                let index = (y * w + x) * 4;
                if index + 4 <= len {
                    frame[index] = frame[index].saturating_add(d[0]);
                    frame[index + 1] = frame[index + 1].saturating_add(d[1]);
                    frame[index + 2] = frame[index + 2].saturating_add(d[2]);
                }
                assert forall|k: int| 0 <= k < len implies #[trigger] frame@[k] == (if (in_rect(
                    k / 4,
                    w as int,
                    h as int,
                    x0 as int,
                    y0 as int,
                    x1 as int,
                    y as int,
                ) || in_rect(k / 4, w as int, h as int, x0 as int, y as int, x + 1, y + 1)) && (k / 4) * 4 + 4
                    <= f0.len() && k % 4 < 3 {
                    saturated(f0[k], d@[k % 4])
                } else {
                    f0[k]
                }) by {
                    lemma_pixel_position(k / 4, w as int, x as int, y as int);
                }
            } else {
                assert forall|k: int| 0 <= k < len implies #[trigger] frame@[k] == (if (in_rect(
                    k / 4,
                    w as int,
                    h as int,
                    x0 as int,
                    y0 as int,
                    x1 as int,
                    y as int,
                ) || in_rect(k / 4, w as int, h as int, x0 as int, y as int, x + 1, y + 1)) && (k / 4) * 4 + 4
                    <= f0.len() && k % 4 < 3 {
                    saturated(f0[k], d@[k % 4])
                } else {
                    f0[k]
                }) by {
                    vstd::arithmetic::div_mod::lemma_mod_pos_bound(k / 4, w as int);
                }
            }
            x = x + 1;
        }
        assert(frame@ =~= brighten(f0, w as int, h as int, x0 as int, y0 as int, x1 as int, y + 1, d@));
        y = y + 1;
    }
    proof {
        if y0 >= y1 {
            assert(frame@ =~= brighten(f0, w as int, h as int, x0 as int, y0 as int, x1 as int, y1 as int, d@));
        }
    }
}

} // verus!
