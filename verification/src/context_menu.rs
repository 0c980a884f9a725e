//! The menu a ball opens, and its submenus for direction, speed, speed
//! relative to another ball, and colour: which submenu is open, which
//! option is selected, and what choosing one asks of the sequencer.
//!
//! Speeds are `f32` values, carried here by their bits: the menu moves them
//! around but leaves all arithmetic on them to its caller.
use vstd::prelude::*;
use crate::ball::{direction_label, Direction};
use crate::editor_view::{draw_outline, outline_pixel};
use crate::frame::{fill_rect, paint, paint_pixels, runs_view, TextRun};
use crate::renderer::{color_rgb, run, Renderer};
use crate::text::{joined4, nat_digits, owned, uint_to_text};

verus! {

/// The options of the ball menu.
pub const BALL_MENU_OPTION_COUNT: usize = 5;

/// The directions, colours and speed multipliers on offer.
pub const DIRECTION_OPTION_COUNT: usize = 8;

pub const COLOR_OPTION_COUNT: usize = 8;

pub const SPEED_RATIO_COUNT: usize = 9;

/// The place of the multiplier 1 among the speed multipliers.
pub const UNIT_RATIO_INDEX: usize = 4;

/// Which menu is open and what it shows.
#[derive(Clone, Copy, Debug, PartialEq, Eq, Structural)]
pub enum ContextMenuState {
    Closed,
    BallMenu { ball_index: usize, selected_option: usize },
    BallDirection { ball_index: usize, selected_option: usize },
    /// A speed slider; `speed` holds the bits of the `f32` speed.
    BallSpeed { ball_index: usize, speed: u32 },
    /// A speed taken from the ball `selected_ball` times the multiplier at
    /// `ratio_index`.
    BallRelativeSpeed { ball_index: usize, selected_ball: usize, ratio_index: usize },
    BallColor { ball_index: usize, selected_option: usize },
}

/// The keys the ball menu answers to.
#[derive(Clone, Copy, Debug, PartialEq, Eq, Structural)]
pub enum BallMenuKey {
    Escape,
    Up,
    Down,
    Left,
    Right,
    Space,
}

/// What the ball menu asks of the sequencer. The speed actions carry `f32`
/// bits or leave the arithmetic to the caller.
pub enum ContextMenuAction {
    SetDirection { ball_index: usize, direction: Direction },
    /// Set the ball's speed to the `f32` with these bits.
    SetSpeed { ball_index: usize, speed: u32 },
    SetColor { ball_index: usize, color: String },
    OpenFileDialog { ball_index: usize },
    AddSampleToLibrary { ball_index: usize },
    /// Move the speed slider one step down (towards the least speed) or up.
    StepSpeed { ball_index: usize, faster: bool },
    /// Set the ball's speed to that of `reference_ball` times the multiplier
    /// at `ratio_index`, kept within the speed range.
    ScaleSpeed { ball_index: usize, reference_ball: usize, ratio_index: usize },
}

/// An action as the contracts see it.
pub enum MenuAction {
    SetDirection { ball_index: usize, direction: Direction },
    SetSpeed { ball_index: usize, speed: u32 },
    SetColor { ball_index: usize, color: Seq<char> },
    OpenFileDialog { ball_index: usize },
    AddSampleToLibrary { ball_index: usize },
    StepSpeed { ball_index: usize, faster: bool },
    ScaleSpeed { ball_index: usize, reference_ball: usize, ratio_index: usize },
}

pub open spec fn action_view(a: ContextMenuAction) -> MenuAction {
    match a {
        ContextMenuAction::SetDirection { ball_index, direction } => MenuAction::SetDirection { ball_index, direction },
        ContextMenuAction::SetSpeed { ball_index, speed } => MenuAction::SetSpeed { ball_index, speed },
        ContextMenuAction::SetColor { ball_index, color } => MenuAction::SetColor { ball_index, color: color@ },
        ContextMenuAction::OpenFileDialog { ball_index } => MenuAction::OpenFileDialog { ball_index },
        ContextMenuAction::AddSampleToLibrary { ball_index } => MenuAction::AddSampleToLibrary { ball_index },
        ContextMenuAction::StepSpeed { ball_index, faster } => MenuAction::StepSpeed { ball_index, faster },
        ContextMenuAction::ScaleSpeed { ball_index, reference_ball, ratio_index } => MenuAction::ScaleSpeed {
            ball_index,
            reference_ball,
            ratio_index,
        },
    }
}

pub open spec fn option_action_view(a: Option<ContextMenuAction>) -> Option<MenuAction> {
    match a {
        Some(a) => Some(action_view(a)),
        None => None,
    }
}

/// The directions in the order the direction menu lists them.
pub open spec fn direction_option(i: usize) -> Direction {
    if i == 0 {
        Direction::Up
    } else if i == 1 {
        Direction::Down
    } else if i == 2 {
        Direction::Left
    } else if i == 3 {
        Direction::Right
    } else if i == 4 {
        Direction::UpLeft
    } else if i == 5 {
        Direction::UpRight
    } else if i == 6 {
        Direction::DownLeft
    } else if i == 7 {
        Direction::DownRight
    } else {
        Direction::Up
    }
}

/// The colours in the order the colour menu lists them.
pub open spec fn color_options() -> Seq<Seq<char>> {
    seq!["Red"@, "Green"@, "Blue"@, "Yellow"@, "Cyan"@, "Magenta"@, "White"@, "Orange"@]
}

/// The option before `i` in a list of `n`, the last before the first.
pub open spec fn previous(i: usize, n: usize) -> usize {
    if i == 0 {
        (n - 1) as usize
    } else {
        (i - 1) as usize
    }
}

/// The option after `i` in a list of `n`, the first after the last.
pub open spec fn next(i: usize, n: usize) -> usize {
    ((i + 1) % (n as int)) as usize
}

/// Every selection points into its list.
pub open spec fn state_wf(s: ContextMenuState) -> bool {
    match s {
        ContextMenuState::BallMenu { selected_option, .. } => selected_option < BALL_MENU_OPTION_COUNT,
        ContextMenuState::BallDirection { selected_option, .. } => selected_option < DIRECTION_OPTION_COUNT,
        ContextMenuState::BallRelativeSpeed { selected_ball, ratio_index, .. } => {
            selected_ball < usize::MAX && ratio_index < SPEED_RATIO_COUNT
        },
        ContextMenuState::BallColor { selected_option, .. } => selected_option < COLOR_OPTION_COUNT,
        _ => true,
    }
}

/// The menu after a key, and what it asks: `ball_count` is the number of
/// balls, `ball_speed` the bits of the speed the ball's slider opens on.
pub open spec fn menu_step(
    s: ContextMenuState,
    key: BallMenuKey,
    shift: bool,
    ball_count: usize,
    ball_speed: u32,
) -> (ContextMenuState, Option<MenuAction>) {
    match s {
        ContextMenuState::Closed => (s, None),
        ContextMenuState::BallMenu { ball_index: b, selected_option: o } => match key {
            BallMenuKey::Escape => (ContextMenuState::Closed, None),
            BallMenuKey::Up => (
                ContextMenuState::BallMenu { ball_index: b, selected_option: previous(o, BALL_MENU_OPTION_COUNT) },
                None,
            ),
            BallMenuKey::Down => (
                ContextMenuState::BallMenu { ball_index: b, selected_option: next(o, BALL_MENU_OPTION_COUNT) },
                None,
            ),
            BallMenuKey::Space => if o == 3 && shift {
                (ContextMenuState::Closed, Some(MenuAction::AddSampleToLibrary { ball_index: b }))
            } else if o == 0 {
                (ContextMenuState::BallDirection { ball_index: b, selected_option: 0 }, None)
            } else if o == 1 {
                (ContextMenuState::BallSpeed { ball_index: b, speed: ball_speed }, None)
            } else if o == 2 {
                (
                    ContextMenuState::BallRelativeSpeed {
                        ball_index: b,
                        selected_ball: if b == 0 && ball_count > 1 { 1 } else { 0 },
                        ratio_index: UNIT_RATIO_INDEX,
                    },
                    None,
                )
            } else if o == 3 {
                (ContextMenuState::Closed, Some(MenuAction::OpenFileDialog { ball_index: b }))
            } else if o == 4 {
                (ContextMenuState::BallColor { ball_index: b, selected_option: 0 }, None)
            } else {
                (s, None)
            },
            _ => (s, None),
        },
        ContextMenuState::BallDirection { ball_index: b, selected_option: o } => match key {
            BallMenuKey::Escape => (ContextMenuState::BallMenu { ball_index: b, selected_option: 0 }, None),
            BallMenuKey::Up => (
                ContextMenuState::BallDirection { ball_index: b, selected_option: previous(o, DIRECTION_OPTION_COUNT) },
                None,
            ),
            BallMenuKey::Down => (
                ContextMenuState::BallDirection { ball_index: b, selected_option: next(o, DIRECTION_OPTION_COUNT) },
                None,
            ),
            BallMenuKey::Space => (
                ContextMenuState::BallMenu { ball_index: b, selected_option: 0 },
                Some(MenuAction::SetDirection { ball_index: b, direction: direction_option(o) }),
            ),
            _ => (s, None),
        },
        ContextMenuState::BallSpeed { ball_index: b, speed } => match key {
            BallMenuKey::Escape => (ContextMenuState::BallMenu { ball_index: b, selected_option: 1 }, None),
            BallMenuKey::Left => (s, Some(MenuAction::StepSpeed { ball_index: b, faster: false })),
            BallMenuKey::Right => (s, Some(MenuAction::StepSpeed { ball_index: b, faster: true })),
            BallMenuKey::Space => (
                ContextMenuState::BallMenu { ball_index: b, selected_option: 1 },
                Some(MenuAction::SetSpeed { ball_index: b, speed }),
            ),
            _ => (s, None),
        },
        ContextMenuState::BallRelativeSpeed { ball_index: b, selected_ball: r, ratio_index: k } => match key {
            BallMenuKey::Escape => (ContextMenuState::BallMenu { ball_index: b, selected_option: 2 }, None),
            BallMenuKey::Up => (
                ContextMenuState::BallRelativeSpeed {
                    ball_index: b,
                    selected_ball: if r == 0 {
                        if ball_count > 0 { (ball_count - 1) as usize } else { 0 }
                    } else {
                        (r - 1) as usize
                    },
                    ratio_index: k,
                },
                None,
            ),
            BallMenuKey::Down => (
                ContextMenuState::BallRelativeSpeed {
                    ball_index: b,
                    selected_ball: next(r, if ball_count > 1 { ball_count } else { 1 }),
                    ratio_index: k,
                },
                None,
            ),
            BallMenuKey::Left => (
                ContextMenuState::BallRelativeSpeed {
                    ball_index: b,
                    selected_ball: r,
                    ratio_index: previous(k, SPEED_RATIO_COUNT),
                },
                None,
            ),
            BallMenuKey::Right => (
                ContextMenuState::BallRelativeSpeed { ball_index: b, selected_ball: r, ratio_index: next(k, SPEED_RATIO_COUNT) },
                None,
            ),
            BallMenuKey::Space => (
                ContextMenuState::BallMenu { ball_index: b, selected_option: 2 },
                if r < ball_count {
                    Some(MenuAction::ScaleSpeed { ball_index: b, reference_ball: r, ratio_index: k })
                } else {
                    None
                },
            ),
        },
        ContextMenuState::BallColor { ball_index: b, selected_option: o } => match key {
            BallMenuKey::Escape => (ContextMenuState::BallMenu { ball_index: b, selected_option: 4 }, None),
            BallMenuKey::Up => (
                ContextMenuState::BallColor { ball_index: b, selected_option: previous(o, COLOR_OPTION_COUNT) },
                None,
            ),
            BallMenuKey::Down => (
                ContextMenuState::BallColor { ball_index: b, selected_option: next(o, COLOR_OPTION_COUNT) },
                None,
            ),
            BallMenuKey::Space => (
                ContextMenuState::BallMenu { ball_index: b, selected_option: 4 },
                Some(MenuAction::SetColor { ball_index: b, color: color_options()[o as int] }),
            ),
            _ => (s, None),
        },
    }
}

fn direction_at(i: usize) -> (d: Direction)
    ensures
        d == direction_option(i),
{
    if i == 0 {
        Direction::Up
    } else if i == 1 {
        Direction::Down
    } else if i == 2 {
        Direction::Left
    } else if i == 3 {
        Direction::Right
    } else if i == 4 {
        Direction::UpLeft
    } else if i == 5 {
        Direction::UpRight
    } else if i == 6 {
        Direction::DownLeft
    } else if i == 7 {
        Direction::DownRight
    } else {
        Direction::Up
    }
}

fn color_at(i: usize) -> (c: String)
    requires
        i < COLOR_OPTION_COUNT,
    ensures
        c@ == color_options()[i as int],
{
    let names: [&str; 8] = ["Red", "Green", "Blue", "Yellow", "Cyan", "Magenta", "White", "Orange"];
    owned(names[i])
}

fn previous_exec(i: usize, n: usize) -> (r: usize)
    requires
        n > 0,
    ensures
        r == previous(i, n),
{
    if i == 0 {
        n - 1
    } else {
        i - 1
    }
}

fn next_exec(i: usize, n: usize) -> (r: usize)
    requires
        n > 0,
        i < usize::MAX,
    ensures
        r == next(i, n),
{
    (i + 1) % n
}

/// The ball menu and its submenus.
pub struct ContextMenu {
    pub state: ContextMenuState,
}

impl ContextMenu {
    /// A closed menu.
    pub fn new() -> (r: Self)
        ensures
            r.state == ContextMenuState::Closed,
    {
        ContextMenu { state: ContextMenuState::Closed }
    }

    /// Opens the ball menu of a ball on its first option.
    pub fn open_ball_menu(&mut self, ball_index: usize)
        ensures
            final(self).state == (ContextMenuState::BallMenu { ball_index, selected_option: 0 }),
    {
        self.state = ContextMenuState::BallMenu { ball_index, selected_option: 0 };
    }

    /// Opens the speed slider of a ball on the `f32` speed with these bits.
    pub fn open_speed_menu(&mut self, ball_index: usize, current_speed: u32)
        ensures
            final(self).state == (ContextMenuState::BallSpeed { ball_index, speed: current_speed }),
    {
        self.state = ContextMenuState::BallSpeed { ball_index, speed: current_speed };
    }

    pub fn close(&mut self)
        ensures
            final(self).state == ContextMenuState::Closed,
    {
        self.state = ContextMenuState::Closed;
    }

    pub fn is_open(&self) -> (r: bool)
        ensures
            r == !(self.state is Closed),
    {
        !matches!(self.state, ContextMenuState::Closed)
    }

    /// Answers a key (see `menu_step`): `ball_count` is the number of balls,
    /// `ball_speed` the bits of the ball's speed, which the speed slider
    /// opens on.
    pub fn handle_key(&mut self, key: BallMenuKey, shift: bool, ball_count: usize, ball_speed: u32) -> (r: Option<
        ContextMenuAction,
    >)
        requires
            state_wf(old(self).state),
        ensures
            state_wf(final(self).state),
            final(self).state == menu_step(old(self).state, key, shift, ball_count, ball_speed).0,
            option_action_view(r) == menu_step(old(self).state, key, shift, ball_count, ball_speed).1,
    {
        match self.state {
            ContextMenuState::Closed => None,
            ContextMenuState::BallMenu { ball_index, selected_option } => match key {
                BallMenuKey::Escape => {
                    self.close();
                    None
                },
                BallMenuKey::Up => {
                    self.state = ContextMenuState::BallMenu {
                        ball_index,
                        selected_option: previous_exec(selected_option, BALL_MENU_OPTION_COUNT),
                    };
                    None
                },
                BallMenuKey::Down => {
                    self.state = ContextMenuState::BallMenu {
                        ball_index,
                        selected_option: next_exec(selected_option, BALL_MENU_OPTION_COUNT),
                    };
                    None
                },
                BallMenuKey::Space => {
                    if selected_option == 3 && shift {
                        self.close();
                        return Some(ContextMenuAction::AddSampleToLibrary { ball_index });
                    }
                    if selected_option == 0 {
                        self.state = ContextMenuState::BallDirection { ball_index, selected_option: 0 };
                    } else if selected_option == 1 {
                        self.state = ContextMenuState::BallSpeed { ball_index, speed: ball_speed };
                    } else if selected_option == 2 {
                        let selected_ball = if ball_index == 0 && ball_count > 1 {
                            1
                        } else {
                            0
                        };
                        self.state = ContextMenuState::BallRelativeSpeed {
                            ball_index,
                            selected_ball,
                            ratio_index: UNIT_RATIO_INDEX,
                        };
                    } else if selected_option == 3 {
                        self.close();
                        return Some(ContextMenuAction::OpenFileDialog { ball_index });
                    } else if selected_option == 4 {
                        self.state = ContextMenuState::BallColor { ball_index, selected_option: 0 };
                    }
                    None
                },
                _ => None,
            },
            ContextMenuState::BallDirection { ball_index, selected_option } => match key {
                BallMenuKey::Escape => {
                    self.state = ContextMenuState::BallMenu { ball_index, selected_option: 0 };
                    None
                },
                BallMenuKey::Up => {
                    self.state = ContextMenuState::BallDirection {
                        ball_index,
                        selected_option: previous_exec(selected_option, DIRECTION_OPTION_COUNT),
                    };
                    None
                },
                BallMenuKey::Down => {
                    self.state = ContextMenuState::BallDirection {
                        ball_index,
                        selected_option: next_exec(selected_option, DIRECTION_OPTION_COUNT),
                    };
                    None
                },
                BallMenuKey::Space => {
                    let direction = direction_at(selected_option);
                    self.state = ContextMenuState::BallMenu { ball_index, selected_option: 0 };
                    Some(ContextMenuAction::SetDirection { ball_index, direction })
                },
                _ => None,
            },
            ContextMenuState::BallSpeed { ball_index, speed } => match key {
                BallMenuKey::Escape => {
                    self.state = ContextMenuState::BallMenu { ball_index, selected_option: 1 };
                    None
                },
                BallMenuKey::Left => Some(ContextMenuAction::StepSpeed { ball_index, faster: false }),
                BallMenuKey::Right => Some(ContextMenuAction::StepSpeed { ball_index, faster: true }),
                BallMenuKey::Space => {
                    self.state = ContextMenuState::BallMenu { ball_index, selected_option: 1 };
                    Some(ContextMenuAction::SetSpeed { ball_index, speed })
                },
                _ => None,
            },
            ContextMenuState::BallRelativeSpeed { ball_index, selected_ball, ratio_index } => match key {
                BallMenuKey::Escape => {
                    self.state = ContextMenuState::BallMenu { ball_index, selected_option: 2 };
                    None
                },
                BallMenuKey::Up => {
                    let new_selected = if selected_ball == 0 {
                        if ball_count > 0 {
                            ball_count - 1
                        } else {
                            0
                        }
                    } else {
                        selected_ball - 1
                    };
                    self.state = ContextMenuState::BallRelativeSpeed {
                        ball_index,
                        selected_ball: new_selected,
                        ratio_index,
                    };
                    None
                },
                BallMenuKey::Down => {
                    let n = if ball_count > 1 {
                        ball_count
                    } else {
                        1
                    };
                    let new_selected = next_exec(selected_ball, n);
                    self.state = ContextMenuState::BallRelativeSpeed {
                        ball_index,
                        selected_ball: new_selected,
                        ratio_index,
                    };
                    None
                },
                BallMenuKey::Left => {
                    self.state = ContextMenuState::BallRelativeSpeed {
                        ball_index,
                        selected_ball,
                        ratio_index: previous_exec(ratio_index, SPEED_RATIO_COUNT),
                    };
                    None
                },
                BallMenuKey::Right => {
                    self.state = ContextMenuState::BallRelativeSpeed {
                        ball_index,
                        selected_ball,
                        ratio_index: next_exec(ratio_index, SPEED_RATIO_COUNT),
                    };
                    None
                },
                BallMenuKey::Space => {
                    self.state = ContextMenuState::BallMenu { ball_index, selected_option: 2 };
                    if selected_ball < ball_count {
                        Some(ContextMenuAction::ScaleSpeed { ball_index, reference_ball: selected_ball, ratio_index })
                    } else {
                        None
                    }
                },
            },
            ContextMenuState::BallColor { ball_index, selected_option } => match key {
                BallMenuKey::Escape => {
                    self.state = ContextMenuState::BallMenu { ball_index, selected_option: 4 };
                    None
                },
                BallMenuKey::Up => {
                    self.state = ContextMenuState::BallColor {
                        ball_index,
                        selected_option: previous_exec(selected_option, COLOR_OPTION_COUNT),
                    };
                    None
                },
                BallMenuKey::Down => {
                    self.state = ContextMenuState::BallColor {
                        ball_index,
                        selected_option: next_exec(selected_option, COLOR_OPTION_COUNT),
                    };
                    None
                },
                BallMenuKey::Space => {
                    let color = color_at(selected_option);
                    self.state = ContextMenuState::BallMenu { ball_index, selected_option: 4 };
                    Some(ContextMenuAction::SetColor { ball_index, color })
                },
                _ => None,
            },
        }
    }
}

/// Up and then Down in a list menu come back to the option first selected,
/// and so do Down and then Up.
pub proof fn lemma_up_down_undo(s: ContextMenuState, shift: bool, ball_count: usize, ball_speed: u32)
    requires
        state_wf(s),
        s is BallMenu || s is BallDirection || s is BallColor,
    ensures
        menu_step(menu_step(s, BallMenuKey::Up, shift, ball_count, ball_speed).0, BallMenuKey::Down, shift, ball_count, ball_speed).0 == s,
        menu_step(menu_step(s, BallMenuKey::Down, shift, ball_count, ball_speed).0, BallMenuKey::Up, shift, ball_count, ball_speed).0 == s,
{
}

/// Left and then Right in the relative speed menu come back to the
/// multiplier first selected, and so do Right and then Left.
pub proof fn lemma_ratio_steps_undo(s: ContextMenuState, shift: bool, ball_count: usize, ball_speed: u32)
    requires
        state_wf(s),
        s is BallRelativeSpeed,
    ensures
        menu_step(menu_step(s, BallMenuKey::Left, shift, ball_count, ball_speed).0, BallMenuKey::Right, shift, ball_count, ball_speed).0 == s,
        menu_step(menu_step(s, BallMenuKey::Right, shift, ball_count, ball_speed).0, BallMenuKey::Left, shift, ball_count, ball_speed).0 == s,
{
}

/// Opening a submenu from the ball menu and leaving it with Escape comes
/// back to the ball menu on the same option, having asked nothing.
pub proof fn lemma_escape_returns(ball_index: usize, option: usize, ball_count: usize, ball_speed: u32)
    requires
        option == 0 || option == 1 || option == 2 || option == 4,
    ensures
        ({
            let s = ContextMenuState::BallMenu { ball_index, selected_option: option };
            let opened = menu_step(s, BallMenuKey::Space, false, ball_count, ball_speed);
            &&& opened.1 is None
            &&& menu_step(opened.0, BallMenuKey::Escape, false, ball_count, ball_speed) == (s, None::<MenuAction>)
        }),
{
}

/// Every key keeps the menu's selections within their lists.
pub proof fn lemma_step_keeps_wf(s: ContextMenuState, key: BallMenuKey, shift: bool, ball_count: usize, ball_speed: u32)
    requires
        state_wf(s),
    ensures
        state_wf(menu_step(s, key, shift, ball_count, ball_speed).0),
{
}

// ---------------------------------------------------------------------------
// Drawing the menus

/// Where a menu `width` by `height` pixels opens for a ball on cell
/// `(ball_x, ball_y)`: right of the ball's cell, or left of it where it would
/// leave the window; moved up where it would go below the grid.
pub open spec fn menu_at(ball_x: usize, ball_y: usize, width: int, height: int) -> (int, int) {
    (
        if ball_x * 40 + 40 + width > 640 {
            ball_x * 40 - width
        } else {
            ball_x * 40 + 40
        },
        if ball_y * 40 + height > 480 {
            480 - height
        } else {
            ball_y * 40
        },
    )
}

/// Whether the menu can be placed without an arithmetic overflow: it fits
/// left of the ball where it does not fit right of it.
pub open spec fn menu_fits(ball_x: usize, ball_y: usize, width: int, height: int) -> bool {
    &&& ball_x * 40 + 40 + width <= usize::MAX
    &&& ball_y * 40 + height <= usize::MAX
    &&& ball_x * 40 + 40 + width > 640 ==> ball_x * 40 >= width
    &&& ball_y * 40 + height > 480 ==> height <= 480
}

/// A menu's dark background and white outline, `width` by `height` pixels from `(x, y)`.
pub open spec fn paint_menu_box(f: Seq<u8>, x: int, y: int, width: int, height: int) -> Seq<u8> {
    paint_pixels(
        paint(f, 640, 480, x, y, x + width, y + height, seq![40u8, 40, 40, 255]),
        |p: int| outline_pixel(p, 640, 480, x, y, width, height),
        seq![255u8, 255, 255, 255],
    )
}

/// Options listed from `(x, y0)` down, `step` pixels apart, in light grey,
/// the selected one inverted.
pub open spec fn option_runs(options: Seq<Seq<char>>, x: int, y0: int, step: int, selected: usize) -> Seq<
    (Seq<char>, usize, usize, [u8; 3], bool),
> {
    Seq::new(options.len(), |i: int| run(options[i], x, y0 + i * step, [200u8, 200, 200], i == selected))
}

pub open spec fn direction_options() -> Seq<Seq<char>> {
    seq!["Up"@, "Down"@, "Left"@, "Right"@, "Up-Left"@, "Up-Right"@, "Down-Left"@, "Down-Right"@]
}

/// The ball menu's options, the sample one naming the ball's sample file.
pub open spec fn ball_menu_options(sample: Option<Seq<char>>) -> Seq<Seq<char>> {
    seq![
        "Direction"@,
        "Speed"@,
        "Relative Speed"@,
        match sample {
            Some(name) => "Sample ("@ + name + ")"@,
            None => "Sample"@,
        },
        "Color"@,
    ]
}

/// The colour swatches of the first `n` colour options, each 12 pixels
/// square, 18 pixels apart from `(x, y)`.
pub open spec fn paint_swatches(f: Seq<u8>, x: int, y: int, n: int) -> Seq<u8>
    decreases n,
{
    if n <= 0 {
        f
    } else {
        let c = color_rgb(color_options()[n - 1]);
        let sy = y + (n - 1) * 18;
        paint(paint_swatches(f, x, y, n - 1), 640, 480, x, sy, x + 12, sy + 12, seq![c[0], c[1], c[2], 255u8])
    }
}

/// Where a menu opens (see `menu_at`).
fn place_menu(ball_x: usize, ball_y: usize, width: usize, height: usize) -> (r: (usize, usize))
    requires
        menu_fits(ball_x, ball_y, width as int, height as int),
    ensures
        (r.0 as int, r.1 as int) == menu_at(ball_x, ball_y, width as int, height as int),
{
    let mut menu_x = ball_x * 40 + 40;
    let mut menu_y = ball_y * 40;
    if menu_x + width > 640 {
        menu_x = ball_x * 40 - width;
    }
    if menu_y + height > 480 {
        menu_y = 480 - height;
    }
    (menu_x, menu_y)
}

/// Paints a menu's background and outline (see `paint_menu_box`).
fn draw_menu_box(frame: &mut [u8], x: usize, y: usize, width: usize, height: usize)
    requires
        width > 0,
        height > 0,
        x + width <= usize::MAX,
        y + height <= usize::MAX,
    ensures
        final(frame)@ == paint_menu_box(old(frame)@, x as int, y as int, width as int, height as int),
{
    let dark: [u8; 4] = [40, 40, 40, 255];
    let white: [u8; 4] = [255, 255, 255, 255];
    assert(dark@.take(4) =~= seq![40u8, 40, 40, 255]);
    assert(white@.take(4) =~= seq![255u8, 255, 255, 255]);
    fill_rect(frame, 640, 480, x, y, x + width, y + height, dark, 4);
    draw_outline(frame, x, y, width, height, white, 4);
}

/// Texts listed from `(x, y0)` down, `step` pixels apart (see `option_runs`).
fn push_option_runs(runs: &mut Vec<TextRun>, options: &Vec<String>, x: usize, y0: usize, step: usize, selected: usize)
    requires
        y0 + options@.len() * step <= usize::MAX,
    ensures
        runs_view(final(runs)@) == runs_view(old(runs)@) + option_runs(
            options@.map_values(|s: String| s@),
            x as int,
            y0 as int,
            step as int,
            selected,
        ),
{
    let ghost want = option_runs(options@.map_values(|s: String| s@), x as int, y0 as int, step as int, selected);
    let mut i: usize = 0;
    while i < options.len()
        invariant
            i <= options@.len(),
            y0 + options@.len() * step <= usize::MAX,
            want == option_runs(options@.map_values(|s: String| s@), x as int, y0 as int, step as int, selected),
            runs_view(runs@) == runs_view(old(runs)@) + want.take(i as int),
        decreases options.len() - i,
    {
        proof {
            assert(i * step <= options@.len() * step) by (nonlinear_arith)
                requires
                    i <= options@.len(),
            ;
        }
        let y = y0 + i * step;
        let ghost before = runs@;
        runs.push(TextRun { text: owned(options[i].as_str()), x, y, color: [200, 200, 200], selected: i == selected });
        assert(runs_view(runs@) =~= runs_view(before).push(want[i as int]));
        assert(want.take(i + 1) =~= want.take(i as int).push(want[i as int]));
        i = i + 1;
    }
    assert(want.take(i as int) =~= want);
}

fn direction_option_names() -> (r: Vec<String>)
    ensures
        r@.map_values(|s: String| s@) == direction_options(),
{
    let r = vec![
        owned("Up"),
        owned("Down"),
        owned("Left"),
        owned("Right"),
        owned("Up-Left"),
        owned("Up-Right"),
        owned("Down-Left"),
        owned("Down-Right"),
    ];
    assert(r@.map_values(|s: String| s@) =~= direction_options());
    r
}

fn color_option_names() -> (r: Vec<String>)
    ensures
        r@.map_values(|s: String| s@) == color_options(),
{
    let r = vec![
        owned("Red"),
        owned("Green"),
        owned("Blue"),
        owned("Yellow"),
        owned("Cyan"),
        owned("Magenta"),
        owned("White"),
        owned("Orange"),
    ];
    assert(r@.map_values(|s: String| s@) =~= color_options());
    r
}

/// Draws the direction menu for a ball on cell `(ball_x, ball_y)`: its box,
/// 200 by 320 pixels (see `menu_at`), with the directions listed 18 pixels
/// apart, whose texts it hands back to be drawn with the font.
pub fn draw_direction_menu(frame: &mut [u8], ball_x: usize, ball_y: usize, selected_option: usize) -> (runs: Vec<TextRun>)
    requires
        menu_fits(ball_x, ball_y, 200, 320),
    ensures
        ({
            let (mx, my) = menu_at(ball_x, ball_y, 200, 320);
            &&& final(frame)@ == paint_menu_box(old(frame)@, mx, my, 200, 320)
            &&& runs_view(runs@) == option_runs(direction_options(), mx + 5, my + 5, 18, selected_option)
        }),
{
    let (menu_x, menu_y) = place_menu(ball_x, ball_y, 200, 320);
    draw_menu_box(frame, menu_x, menu_y, 200, 320);
    let mut runs: Vec<TextRun> = Vec::new();
    let names = direction_option_names();
    assert(names@.len() == 8) by {
        assert(names@.map_values(|t: String| t@).len() == names@.len());
    }
    push_option_runs(&mut runs, &names, menu_x + 5, menu_y + 5, 18, selected_option);
    assert(runs_view(runs@) =~= option_runs(direction_options(), menu_x + 5, menu_y + 5, 18, selected_option));
    runs
}

/// Draws the colour menu for a ball on cell `(ball_x, ball_y)`: its box,
/// 160 by 240 pixels (see `menu_at`), with each colour's swatch and name
/// 18 pixels apart; the names it hands back to be drawn with the font.
pub fn draw_color_menu(frame: &mut [u8], ball_x: usize, ball_y: usize, selected_option: usize) -> (runs: Vec<TextRun>)
    requires
        menu_fits(ball_x, ball_y, 160, 240),
    ensures
        ({
            let (mx, my) = menu_at(ball_x, ball_y, 160, 240);
            &&& final(frame)@ == paint_swatches(paint_menu_box(old(frame)@, mx, my, 160, 240), mx + 5, my + 7, 8)
            &&& runs_view(runs@) == option_runs(color_options(), mx + 25, my + 5, 18, selected_option)
        }),
{
    let (menu_x, menu_y) = place_menu(ball_x, ball_y, 160, 240);
    draw_menu_box(frame, menu_x, menu_y, 160, 240);
    let ghost boxed = frame@;
    let names = color_option_names();
    assert(names@.len() == 8) by {
        assert(names@.map_values(|t: String| t@).len() == names@.len());
    }
    let mut i: usize = 0;
    while i < 8
        invariant
            i <= 8,
            names@.len() == 8,
            names@.map_values(|s: String| s@) == color_options(),
            menu_y + 240 <= usize::MAX,
            menu_x + 160 <= usize::MAX,
            frame@ == paint_swatches(boxed, menu_x + 5, menu_y + 7, i as int),
        decreases 8 - i,
    {
        let c = Renderer::get_color_rgb(names[i].as_str());
        assert(names@[i as int]@ == names@.map_values(|t: String| t@)[i as int]);
        let swatch: [u8; 4] = [c[0], c[1], c[2], 255];
        assert(swatch@.take(4) =~= seq![c[0], c[1], c[2], 255u8]);
        let sy = menu_y + 7 + i * 18;
        fill_rect(frame, 640, 480, menu_x + 5, sy, menu_x + 17, sy + 12, swatch, 4);
        i = i + 1;
    }
    let mut runs: Vec<TextRun> = Vec::new();
    push_option_runs(&mut runs, &names, menu_x + 25, menu_y + 5, 18, selected_option);
    assert(runs_view(runs@) =~= option_runs(color_options(), menu_x + 25, menu_y + 5, 18, selected_option));
    runs
}

/// The ball menu's heading: `Ball n (colour)`.
pub open spec fn ball_heading(ball_index: usize, color: Seq<char>) -> Seq<char> {
    "Ball "@ + nat_digits(ball_index as nat) + " ("@ + color + ")"@
}

/// Draws the ball menu for ball `ball_index` on cell `(ball_x, ball_y)`: its
/// box, 240 by 160 pixels (see `menu_at`), a grey rule under the heading,
/// and the options 20 pixels apart, the sample option naming `sample`, the
/// file name of the ball's sample if it has one; the texts it hands back to
/// be drawn with the font.
pub fn draw_ball_menu(
    frame: &mut [u8],
    ball_x: usize,
    ball_y: usize,
    selected_option: usize,
    ball_index: usize,
    ball_color: &str,
    sample: Option<&str>,
) -> (runs: Vec<TextRun>)
    requires
        menu_fits(ball_x, ball_y, 240, 160),
    ensures
        ({
            let (mx, my) = menu_at(ball_x, ball_y, 240, 160);
            let s = match sample {
                Some(n) => Some(n@),
                None => None,
            };
            &&& final(frame)@ == paint(
                paint_menu_box(old(frame)@, mx, my, 240, 160),
                640,
                480,
                mx + 5,
                my + 25,
                mx + 235,
                my + 26,
                seq![150u8, 150, 150, 255],
            )
            &&& runs_view(runs@) == seq![run(ball_heading(ball_index, ball_color@), mx + 5, my + 5, [255u8, 255, 255], false)]
                + option_runs(ball_menu_options(s), mx + 5, my + 35, 20, selected_option)
        }),
{
    proof {
        reveal_strlit("Sample (");
        reveal_strlit(")");
    }
    let (menu_x, menu_y) = place_menu(ball_x, ball_y, 240, 160);
    draw_menu_box(frame, menu_x, menu_y, 240, 160);
    let grey: [u8; 4] = [150, 150, 150, 255];
    assert(grey@.take(4) =~= seq![150u8, 150, 150, 255]);
    fill_rect(frame, 640, 480, menu_x + 5, menu_y + 25, menu_x + 235, menu_y + 26, grey, 4);
    let mut runs: Vec<TextRun> = Vec::new();
    let number = uint_to_text(ball_index as u64);
    let mut heading = joined4("Ball ", number.as_str(), " (", ball_color);
    heading.append(")");
    runs.push(TextRun { text: heading, x: menu_x + 5, y: menu_y + 5, color: [255, 255, 255], selected: false });
    let sample_text = match sample {
        Some(name) => joined4("Sample (", name, ")", ""),
        None => owned("Sample"),
    };
    let options = vec![owned("Direction"), owned("Speed"), owned("Relative Speed"), sample_text, owned("Color")];
    let ghost s = match sample {
        Some(n) => Some(n@),
        None => None::<Seq<char>>,
    };
    proof {
        reveal_strlit("");
        assert(options@.map_values(|t: String| t@) =~= ball_menu_options(s));
    }
    let ghost first = runs@;
    push_option_runs(&mut runs, &options, menu_x + 5, menu_y + 35, 20, selected_option);
    assert(runs_view(runs@) =~= runs_view(first) + option_runs(ball_menu_options(s), menu_x + 5, menu_y + 35, 20, selected_option));
    runs
}

/// The direction a choice in the direction menu gives is the one its label
/// names, and the eight choices give eight different directions.
pub proof fn lemma_direction_choice_is_its_label(i: usize, j: usize)
    requires
        i < 8,
        j < 8,
    ensures
        direction_label(direction_option(i)) == direction_options()[i as int],
        i != j ==> direction_option(i) != direction_option(j),
{
    reveal_strlit("Up");
    reveal_strlit("Down");
    reveal_strlit("Left");
    reveal_strlit("Right");
    reveal_strlit("Up-Left");
    reveal_strlit("Up-Right");
    reveal_strlit("Down-Left");
    reveal_strlit("Down-Right");
}

/// Space on an option of the ball menu opens what the option's label
/// names: the direction, speed, relative speed or colour menu, or (for the
/// sample option) the file dialog; escaping from that menu comes back to
/// the same option.
pub proof fn lemma_ball_menu_choice_is_its_label(b: usize, o: usize, ball_count: usize, ball_speed: u32)
    requires
        o < BALL_MENU_OPTION_COUNT,
    ensures
        ({
            let label = ball_menu_options(None)[o as int];
            let (t, a) = menu_step(ContextMenuState::BallMenu { ball_index: b, selected_option: o }, BallMenuKey::Space, false, ball_count, ball_speed);
            &&& (label == "Direction"@ <==> t is BallDirection)
            &&& (label == "Speed"@ <==> t is BallSpeed)
            &&& (label == "Relative Speed"@ <==> t is BallRelativeSpeed)
            &&& (label == "Color"@ <==> t is BallColor)
            &&& (label == "Sample"@ <==> a == Some(MenuAction::OpenFileDialog { ball_index: b }))
            &&& label != "Sample"@ ==> menu_step(t, BallMenuKey::Escape, false, ball_count, ball_speed).0
                == (ContextMenuState::BallMenu { ball_index: b, selected_option: o })
        }),
{
    reveal_strlit("Direction");
    reveal_strlit("Speed");
    reveal_strlit("Relative Speed");
    reveal_strlit("Color");
    reveal_strlit("Sample");
    assert("Direction"@.len() == 9 && "Speed"@.len() == 5 && "Relative Speed"@.len() == 14 && "Color"@.len() == 5
        && "Sample"@.len() == 6);
    assert("Speed"@[0] != "Color"@[0]);
    if o == 0 {
    } else if o == 1 {
    } else if o == 2 {
    } else if o == 3 {
    } else {
    }
}

} // verus!
