//! Ball directions and how bouncing turns them.
use vstd::prelude::*;

verus! {

/// The eight directions a ball can travel in.
#[derive(Clone, Copy, PartialEq, Eq, Debug, Structural)]
pub enum Direction {
    Up,
    Down,
    Left,
    Right,
    UpLeft,
    UpRight,
    DownLeft,
    DownRight,
}

/// The name of a direction as the menus and the program language spell it,
/// a diagonal as its vertical part, a hyphen and its horizontal part.
pub open spec fn direction_label(d: Direction) -> Seq<char> {
    match d {
        Direction::Up => "Up"@,
        Direction::Down => "Down"@,
        Direction::Left => "Left"@,
        Direction::Right => "Right"@,
        Direction::UpLeft => "Up-Left"@,
        Direction::UpRight => "Up-Right"@,
        Direction::DownLeft => "Down-Left"@,
        Direction::DownRight => "Down-Right"@,
    }
}

/// The direction after bouncing off a left or right wall: the horizontal
/// component flips, a purely vertical direction is kept.
pub open spec fn spec_reverse_horizontal(d: Direction) -> Direction {
    match d {
        Direction::Left => Direction::Right,
        Direction::Right => Direction::Left,
        Direction::UpLeft => Direction::UpRight,
        Direction::UpRight => Direction::UpLeft,
        Direction::DownLeft => Direction::DownRight,
        Direction::DownRight => Direction::DownLeft,
        _ => d,
    }
}

/// The direction after bouncing off a top or bottom wall: the vertical
/// component flips, a purely horizontal direction is kept.
pub open spec fn spec_reverse_vertical(d: Direction) -> Direction {
    match d {
        Direction::Up => Direction::Down,
        Direction::Down => Direction::Up,
        Direction::UpLeft => Direction::DownLeft,
        Direction::UpRight => Direction::DownRight,
        Direction::DownLeft => Direction::UpLeft,
        Direction::DownRight => Direction::UpRight,
        _ => d,
    }
}

/// The opposite direction.
pub open spec fn spec_reverse(d: Direction) -> Direction {
    match d {
        Direction::Up => Direction::Down,
        Direction::Down => Direction::Up,
        Direction::Left => Direction::Right,
        Direction::Right => Direction::Left,
        Direction::UpLeft => Direction::DownRight,
        Direction::UpRight => Direction::DownLeft,
        Direction::DownLeft => Direction::UpRight,
        Direction::DownRight => Direction::UpLeft,
    }
}

/// A ball's direction once it bounced off a left or right wall.
pub fn reverse_horizontal_direction(d: Direction) -> (r: Direction)
    ensures
        r == spec_reverse_horizontal(d),
{
    match d {
        Direction::Left => Direction::Right,
        Direction::Right => Direction::Left,
        Direction::UpLeft => Direction::UpRight,
        Direction::UpRight => Direction::UpLeft,
        Direction::DownLeft => Direction::DownRight,
        Direction::DownRight => Direction::DownLeft,
        _ => d,
    }
}

/// A ball's direction once it bounced off a top or bottom wall.
pub fn reverse_vertical_direction(d: Direction) -> (r: Direction)
    ensures
        r == spec_reverse_vertical(d),
{
    match d {
        Direction::Up => Direction::Down,
        Direction::Down => Direction::Up,
        Direction::UpLeft => Direction::DownLeft,
        Direction::UpRight => Direction::DownRight,
        Direction::DownLeft => Direction::UpLeft,
        Direction::DownRight => Direction::UpRight,
        _ => d,
    }
}

/// A ball's direction once it turned around.
pub fn reverse_direction(d: Direction) -> (r: Direction)
    ensures
        r == spec_reverse(d),
{
    match d {
        Direction::Up => Direction::Down,
        Direction::Down => Direction::Up,
        Direction::Left => Direction::Right,
        Direction::Right => Direction::Left,
        Direction::UpLeft => Direction::DownRight,
        Direction::UpRight => Direction::DownLeft,
        Direction::DownLeft => Direction::UpRight,
        Direction::DownRight => Direction::UpLeft,
    }
}

/// Bouncing twice off the same kind of wall, or turning around twice,
/// gives back the direction the ball had.
pub proof fn lemma_reversals_are_involutions(d: Direction)
    ensures
        spec_reverse_horizontal(spec_reverse_horizontal(d)) == d,
        spec_reverse_vertical(spec_reverse_vertical(d)) == d,
        spec_reverse(spec_reverse(d)) == d,
{
}

/// Bouncing off a side wall and off a top or bottom wall, in either order,
/// is turning around.
pub proof fn lemma_corner_bounce_reverses(d: Direction)
    ensures
        spec_reverse_vertical(spec_reverse_horizontal(d)) == spec_reverse(d),
        spec_reverse_horizontal(spec_reverse_vertical(d)) == spec_reverse(d),
{
}

/// A side wall leaves a vertical direction alone, a top or bottom wall a
/// horizontal one; every other direction is changed.
pub proof fn lemma_bounce_fixed_points(d: Direction)
    ensures
        (spec_reverse_horizontal(d) == d) <==> (d == Direction::Up || d == Direction::Down),
        (spec_reverse_vertical(d) == d) <==> (d == Direction::Left || d == Direction::Right),
        spec_reverse(d) != d,
{
}

} // verus!
