//! The menu a square opens: choose to edit its program or clear its
//! programs, and the program editor it opens.
use vstd::prelude::*;
use crate::program_editor::{
    copy_lines, editor_programs, join_lines, starting_text, EditorState, ProgramEditor, ProgramEditorAction,
};
use crate::programmer::spec_programs;
use crate::square::programs_view;
use crate::sequencer::{GRID_HEIGHT, GRID_WIDTH};
use crate::square::{is_untouched_default, texts_view, Cell, Instruction, Program};
use crate::text::{joined, joined4, nat_digits, owned, str_eq, uint_to_text};
use crate::frame::{paint, paint_pixels, runs_view, TextRun};
use crate::editor_view::{draw_menu_background, draw_outline, outline_pixel, paint_editor};
use crate::program_editor::byte_len;
use vstd::utf8::{encode_utf8, is_char_boundary};
use crate::timing::{key_repeat, key_repeat_fires, key_repeat_last};

verus! {

/// What the square menu shows.
#[derive(Clone, Copy, Debug, PartialEq, Eq, Structural)]
pub enum SquareMenuState {
    Closed,
    SquareMenu { square_x: usize, square_y: usize, selected_option: usize },
    ProgramEditor { square_x: usize, square_y: usize, cursor_line: usize, cursor_col: usize },
}

/// What the square menu asks the sequencer to do.
pub enum SquareMenuAction {
    SaveProgram { square_x: usize, square_y: usize, program: Program, program_index: Option<usize> },
    SaveMultiplePrograms { square_x: usize, square_y: usize, programs: Vec<Program>, program_index: Option<usize> },
    ClearPrograms { square_x: usize, square_y: usize },
}

/// The keys the square menu answers to.
#[derive(Clone, Copy, Debug, PartialEq, Eq, Structural)]
pub enum MenuKey {
    Escape,
    Up,
    Down,
    Space,
}

/// The options of the square menu, in order.
pub open spec fn square_menu_options() -> Seq<Seq<char>> {
    seq!["Edit Program"@, "Clear Programs"@]
}

pub struct SquareContextMenu {
    pub state: SquareMenuState,
    pub program_editor: ProgramEditor,
    /// Which of the square's programs the editor replaces (`None`: it adds one).
    pub editing_program_index: Option<usize>,
    /// When a key was last handled, for key repeat.
    pub last_key_repeat: Option<u64>,
    /// In milliseconds.
    pub key_repeat_delay: u64,
    /// In milliseconds.
    pub key_repeat_rate: u64,
}

/// Which program the editor opens on for a square: its active program (the
/// first if none is active) if it has one, which the edit will replace.
pub open spec fn program_to_edit(cells: [[Cell; GRID_WIDTH]; GRID_HEIGHT], x: usize, y: usize) -> Option<usize> {
    if x < GRID_WIDTH && y < GRID_HEIGHT {
        let p = cells@[y as int]@[x as int].program;
        let a = match p.active_program {
            Some(a) => a,
            None => 0usize,
        };
        if a < p.programs@.len() {
            Some(a)
        } else {
            None
        }
    } else {
        None
    }
}

impl SquareContextMenu {
    /// A closed menu with a fresh editor.
    pub fn new() -> (r: Self)
        ensures
            r.state == SquareMenuState::Closed,
            r.program_editor.state() == (EditorState { lines: starting_text(), line: 0, col: 14 }),
            r.editing_program_index is None,
            r.last_key_repeat is None,
            r.key_repeat_delay == 500,
            r.key_repeat_rate == 50,
    {
        SquareContextMenu {
            state: SquareMenuState::Closed,
            program_editor: ProgramEditor::new(),
            editing_program_index: None,
            last_key_repeat: None,
            key_repeat_delay: 500,
            key_repeat_rate: 50,
        }
    }

    /// Opens the menu of a square, its first option selected.
    pub fn open_square_menu(&mut self, square_x: usize, square_y: usize)
        ensures
            *final(self) == (SquareContextMenu {
                state: SquareMenuState::SquareMenu { square_x, square_y, selected_option: 0 },
                ..*old(self)
            }),
    {
        self.state = SquareMenuState::SquareMenu { square_x, square_y, selected_option: 0 };
    }

    /// The condition a program's `if` is written back as.
    fn condition_to_source(&self, _condition: &crate::square::Expression) -> (r: Option<String>)
        ensures
            r matches Some(s) && s@ == "c_red hits self 1 times"@,
    {
        Some(owned("c_red hits self 1 times"))
    }

    /// Closes the menu; nothing else of it changes.
    pub fn close(&mut self)
        ensures
            *final(self) == (SquareContextMenu { state: SquareMenuState::Closed, ..*old(self) }),
    {
        self.state = SquareMenuState::Closed;
    }

    pub fn is_open(&self) -> (r: bool)
        ensures
            r == !(self.state is Closed),
    {
        match self.state {
            SquareMenuState::Closed => false,
            _ => true,
        }
    }

    /// Whether a key is handled this frame (see `key_repeat`).
    pub fn should_handle_key_repeat(&mut self, key_held: bool, key_pressed: bool, now: u64) -> (r: bool)
        ensures
            r == key_repeat_fires(old(self).last_key_repeat, old(self).key_repeat_rate, key_held, key_pressed, now),
            final(self).last_key_repeat == key_repeat_last(old(self).last_key_repeat, key_held, r, now),
            final(self).state == old(self).state,
            final(self).program_editor == old(self).program_editor,
            final(self).editing_program_index == old(self).editing_program_index,
            final(self).key_repeat_delay == old(self).key_repeat_delay,
            final(self).key_repeat_rate == old(self).key_repeat_rate,
    {
        key_repeat(&mut self.last_key_repeat, self.key_repeat_rate, key_held, key_pressed, now)
    }

    /// A key pressed while the menu of a square is shown. Escape closes the
    /// menu; Up and Down move the selection round the options; Space on
    /// "Edit Program" opens the editor on the square's program to edit (see
    /// `program_to_edit`): empty for the untouched program of a new square,
    /// else with the program's own text, or, where it has none,
    /// `generated_source`, which the caller writes from its instructions.
    /// Space on "Clear Programs" asks for the square's programs to be cleared;
    /// on any other option it does nothing.
    pub fn handle_menu_key(
        &mut self,
        key: MenuKey,
        cells: &[[Cell; GRID_WIDTH]; GRID_HEIGHT],
        generated_source: Vec<String>,
    ) -> (r: Option<SquareMenuAction>)
        requires
            old(self).state is SquareMenu,
        ensures
            ({
                let (x, y, sel) = match old(self).state {
                    SquareMenuState::SquareMenu { square_x, square_y, selected_option } => (square_x, square_y, selected_option),
                    _ => (0usize, 0usize, 0usize),
                };
                match key {
                    MenuKey::Escape => r is None && *final(self) == (SquareContextMenu {
                        state: SquareMenuState::Closed,
                        ..*old(self)
                    }),
                    MenuKey::Up => r is None && *final(self) == (SquareContextMenu {
                        state: SquareMenuState::SquareMenu {
                            square_x: x,
                            square_y: y,
                            selected_option: if sel == 0 { 1usize } else { (sel - 1) as usize },
                        },
                        ..*old(self)
                    }),
                    MenuKey::Down => r is None && *final(self) == (SquareContextMenu {
                        state: SquareMenuState::SquareMenu {
                            square_x: x,
                            square_y: y,
                            selected_option: ((sel + 1) % 2) as usize,
                        },
                        ..*old(self)
                    }),
                    MenuKey::Space => if sel == 0 {
                        &&& r is None
                        &&& final(self).last_key_repeat == old(self).last_key_repeat
                        &&& final(self).key_repeat_delay == old(self).key_repeat_delay
                        &&& final(self).key_repeat_rate == old(self).key_repeat_rate
                        &&& final(self).state == (SquareMenuState::ProgramEditor {
                            square_x: x,
                            square_y: y,
                            cursor_line: 0,
                            cursor_col: 0,
                        })
                        &&& final(self).editing_program_index == program_to_edit(*cells, x, y)
                        &&& match program_to_edit(*cells, x, y) {
                            Some(i) => {
                                let p = cells@[y as int]@[x as int].program.programs@[i as int];
                                if is_untouched_default(p@) {
                                    final(self).program_editor.state() == (EditorState {
                                        lines: starting_text(),
                                        line: 0,
                                        col: 14,
                                    })
                                } else {
                                    final(self).program_editor.state().lines == match p.source_text {
                                        Some(t) => texts_view(t@),
                                        None => texts_view(generated_source@),
                                    }
                                }
                            },
                            None => final(self).program_editor.state() == (EditorState {
                                lines: starting_text(),
                                line: 0,
                                col: 14,
                            }),
                        }
                    } else if sel == 1 {
                        &&& r matches Some(SquareMenuAction::ClearPrograms { square_x, square_y }) && square_x == x
                            && square_y == y
                        &&& *final(self) == *old(self)
                    } else {
                        r is None && *final(self) == *old(self)
                    },
                }
            }),
    {
        let (square_x, square_y, selected_option) = match self.state {
            SquareMenuState::SquareMenu { square_x, square_y, selected_option } => (square_x, square_y, selected_option),
            _ => (0, 0, 0),
        };
        match key {
            MenuKey::Escape => {
                self.close();
                None
            },
            MenuKey::Up => {
                let new_option = if selected_option == 0 { 1 } else { selected_option - 1 };
                self.state = SquareMenuState::SquareMenu { square_x, square_y, selected_option: new_option };
                None
            },
            MenuKey::Down => {
                let new_option = 1 - selected_option % 2;
                self.state = SquareMenuState::SquareMenu { square_x, square_y, selected_option: new_option };
                None
            },
            MenuKey::Space => {
                if selected_option == 0 {
                    if square_x < GRID_WIDTH && square_y < GRID_HEIGHT {
                        let cell = &cells[square_y][square_x];
                        let active_index = match cell.program.active_program {
                            Some(a) => a,
                            None => 0,
                        };
                        match cell.program.get_program(active_index) {
                            Some(program) => {
                                let is_default = str_eq(program.name.as_str(), "Default")
                                    && program.instructions.len() == 1 && match &program.instructions[0] {
                                    Instruction::Bounce => true,
                                    _ => false,
                                };
                                proof {
                                    assert(program@.instructions.len() == program.instructions@.len());
                                    if program.instructions@.len() == 1 {
                                        assert(program@.instructions[0] == program.instructions@[0]@);
                                    }
                                }
                                if is_default {
                                    self.program_editor = ProgramEditor::new_empty();
                                } else {
                                    let source_lines = match &program.source_text {
                                        Some(text) => copy_lines(text),
                                        None => generated_source,
                                    };
                                    self.program_editor = ProgramEditor::new_with_text(source_lines);
                                }
                                self.editing_program_index = Some(active_index);
                            },
                            None => {
                                self.program_editor = ProgramEditor::new_empty();
                                self.editing_program_index = None;
                            },
                        }
                    } else {
                        self.program_editor = ProgramEditor::new_empty();
                        self.editing_program_index = None;
                    }
                    self.state = SquareMenuState::ProgramEditor { square_x, square_y, cursor_line: 0, cursor_col: 0 };
                    None
                } else if selected_option == 1 {
                    Some(SquareMenuAction::ClearPrograms { square_x, square_y })
                } else {
                    None
                }
            },
        }
    }
    /// What the editor asked for, while it is open on a square: saving
    /// returns to the square's menu and hands over the program(s) with the
    /// index they replace; closing returns to the menu; anything else keeps
    /// the editor open.
    pub fn finish_editing(&mut self, action: ProgramEditorAction) -> (r: Option<SquareMenuAction>)
        requires
            old(self).state is ProgramEditor,
            action is SaveAndCompile ==> !(spec_programs(join_lines(old(self).program_editor.state().lines)) is Panic),
        ensures
            ({
                let (x, y) = match old(self).state {
                    SquareMenuState::ProgramEditor { square_x, square_y, .. } => (square_x, square_y),
                    _ => (0usize, 0usize),
                };
                let menu = SquareMenuState::SquareMenu { square_x: x, square_y: y, selected_option: 0 };
                match action {
                    ProgramEditorAction::SaveProgram(p) => {
                        &&& final(self).state == menu
                        &&& final(self).editing_program_index is None
                        &&& r matches Some(SquareMenuAction::SaveProgram { square_x, square_y, program, program_index })
                            && square_x == x && square_y == y && program == p
                            && program_index == old(self).editing_program_index
                    },
                    ProgramEditorAction::SaveAndCompile => {
                        &&& final(self).state == menu
                        &&& final(self).editing_program_index is None
                        &&& r matches Some(SquareMenuAction::SaveMultiplePrograms { square_x, square_y, programs, program_index })
                            && square_x == x && square_y == y
                            && programs_view(programs@) == editor_programs(old(self).program_editor.state().lines)
                            && program_index == old(self).editing_program_index
                    },
                    ProgramEditorAction::CloseWithoutSaving => {
                        &&& r is None
                        &&& final(self).state == menu
                        &&& final(self).editing_program_index == old(self).editing_program_index
                    },
                    _ => {
                        &&& r is None
                        &&& final(self).state == old(self).state
                        &&& final(self).editing_program_index == old(self).editing_program_index
                    },
                }
            }),
            final(self).program_editor == old(self).program_editor,
    {
        let (square_x, square_y) = match self.state {
            SquareMenuState::ProgramEditor { square_x, square_y, .. } => (square_x, square_y),
            _ => (0, 0),
        };
        match action {
            ProgramEditorAction::SaveProgram(program) => {
                self.state = SquareMenuState::SquareMenu { square_x, square_y, selected_option: 0 };
                let program_index = self.editing_program_index;
                self.editing_program_index = None;
                Some(SquareMenuAction::SaveProgram { square_x, square_y, program, program_index })
            },
            ProgramEditorAction::SaveAndCompile => {
                let programs = self.program_editor.get_all_programs();
                self.state = SquareMenuState::SquareMenu { square_x, square_y, selected_option: 0 };
                let program_index = self.editing_program_index;
                self.editing_program_index = None;
                Some(SquareMenuAction::SaveMultiplePrograms { square_x, square_y, programs, program_index })
            },
            ProgramEditorAction::CloseWithoutSaving => {
                self.state = SquareMenuState::SquareMenu { square_x, square_y, selected_option: 0 };
                None
            },
            _ => None,
        }
    }
}

/// Where the square menu stands: down and right of its square, kept on
/// screen.
pub open spec fn menu_origin(square_x: usize, square_y: usize) -> (int, int) {
    (
        if square_x * 40 + 50 < 600 { square_x * 40 + 50 } else { 600 },
        if square_y * 40 + 50 < 400 { square_y * 40 + 50 } else { 400 },
    )
}

/// The square menu's background and grey outline, 200 by 60 pixels from
/// `(mx, my)`.
pub open spec fn paint_square_menu(f: Seq<u8>, mx: int, my: int) -> Seq<u8> {
    paint_pixels(
        paint(f, 640, 480, mx, my, mx + 200, my + 60, seq![40u8, 40, 40, 220]),
        |p: int| outline_pixel(p, 640, 480, mx, my, 200, 60),
        seq![100u8, 100, 100],
    )
}

/// The square menu's texts: its title, then its options with the selected
/// one inverted.
pub open spec fn square_menu_runs(mx: int, my: int, selected: usize) -> Seq<(Seq<char>, usize, usize, [u8; 3], bool)> {
    seq![
        ("Square Programming"@, (mx + 10) as usize, (my + 5) as usize, [255u8, 255, 255], false),
        ("Edit Program"@, (mx + 10) as usize, (my + 25) as usize, [255u8, 255, 255], selected == 0),
        ("Clear Programs"@, (mx + 10) as usize, (my + 45) as usize, [255u8, 255, 255], selected == 1),
    ]
}

/// The program editor's title for a square.
pub open spec fn editor_title(x: usize, y: usize) -> Seq<char> {
    "Programming Square ("@ + nat_digits(x as nat) + ", "@ + nat_digits(y as nat) + ")"@
}

pub open spec fn editor_instructions() -> Seq<char> {
    "Arrow keys: Navigate | Backspace/Delete: Edit | ESC: Save & Exit"@
}

/// What the program editor needs of its text and cursor to draw itself.
pub open spec fn editor_drawable(e: ProgramEditor) -> bool {
    &&& e.program_text.len() * 18 + 1000 <= usize::MAX
    &&& forall|i: int|
        0 <= i < e.program_text.len() ==> 16 * byte_len(#[trigger] e.program_text@[i]@) + 1000 <= usize::MAX
    &&& e.cursor_line < usize::MAX
    &&& e.cursor_col < usize::MAX
    &&& e.cursor_line < e.program_text.len() && e.cursor_col <= byte_len(e.program_text@[e.cursor_line as int]@)
        ==> is_char_boundary(encode_utf8(e.program_text@[e.cursor_line as int]@), e.cursor_col as int)
}

impl SquareContextMenu {
    /// Draws the menu: the square menu's panel, whose texts it hands back to
    /// be drawn with the font, or the program editor, which draws its own.
    pub fn render(&self, frame: &mut [u8], _cells: &[[Cell; GRID_WIDTH]; GRID_HEIGHT]) -> (runs: Vec<TextRun>)
        requires
            self.state matches SquareMenuState::SquareMenu { square_x, square_y, .. } ==> square_x * 40 + 50
                <= usize::MAX && square_y * 40 + 50 <= usize::MAX,
            self.state is ProgramEditor ==> editor_drawable(self.program_editor),
        ensures
            match self.state {
                SquareMenuState::Closed => final(frame)@ == old(frame)@ && runs@.len() == 0,
                SquareMenuState::SquareMenu { square_x, square_y, selected_option } => {
                    let o = menu_origin(square_x, square_y);
                    &&& final(frame)@ == paint_square_menu(old(frame)@, o.0, o.1)
                    &&& runs_view(runs@) == square_menu_runs(o.0, o.1, selected_option)
                },
                SquareMenuState::ProgramEditor { square_x, square_y, .. } => {
                    &&& final(frame)@ == paint_editor(
                        old(frame)@,
                        editor_title(square_x, square_y),
                        editor_instructions(),
                        texts_view(self.program_editor.program_text@),
                        self.program_editor.cursor_line as int,
                        self.program_editor.cursor_col as int,
                    )
                    &&& runs@.len() == 0
                },
            },
    {
        let mut runs: Vec<TextRun> = Vec::new();
        match self.state {
            SquareMenuState::SquareMenu { square_x, square_y, selected_option } => {
                let mx = if square_x * 40 + 50 < 600 { square_x * 40 + 50 } else { 600 };
                let my = if square_y * 40 + 50 < 400 { square_y * 40 + 50 } else { 400 };
                draw_menu_background(frame, mx, my, 200, 60);
                let grey: [u8; 4] = [100, 100, 100, 0];
                assert(grey@.take(3) =~= seq![100u8, 100, 100]);
                draw_outline(frame, mx, my, 200, 60, grey, 3);
                runs.push(TextRun { text: owned("Square Programming"), x: mx + 10, y: my + 5, color: [255, 255, 255], selected: false });
                runs.push(TextRun { text: owned("Edit Program"), x: mx + 10, y: my + 25, color: [255, 255, 255], selected: selected_option == 0 });
                runs.push(TextRun { text: owned("Clear Programs"), x: mx + 10, y: my + 45, color: [255, 255, 255], selected: selected_option == 1 });
                assert(runs_view(runs@) =~= square_menu_runs(mx as int, my as int, selected_option));
            },
            SquareMenuState::ProgramEditor { square_x, square_y, .. } => {
                let title = joined4(
                    "Programming Square (",
                    uint_to_text(square_x as u64).as_str(),
                    ", ",
                    joined(uint_to_text(square_y as u64).as_str(), ")").as_str(),
                );
                assert(title@ =~= editor_title(square_x, square_y));
                self.program_editor.draw_program_editor(
                    frame,
                    title.as_str(),
                    "Arrow keys: Navigate | Backspace/Delete: Edit | ESC: Save & Exit",
                );
            },
            SquareMenuState::Closed => {},
        }
        runs
    }
}

} // verus!
