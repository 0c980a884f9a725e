//! The library window: its state (which column, library and item are
//! selected, and what is being edited) and the moves between its states.
use vstd::prelude::*;
use vstd::utf8::encode_utf8;
use crate::frame::{brighten, brighten_rect, runs_view, TextRun};
use crate::library::LibraryManager;
use crate::renderer::run;
use crate::program_editor::{copy_lines, editor_program, join_lines, EditorState, ProgramEditor, ProgramEditorAction};
use crate::programmer::spec_programs;
use crate::sequencer::{GRID_HEIGHT, GRID_WIDTH};
use crate::square::{copy_program, texts_view, Cell, CellContent, Instruction, Program, SInstr, SProgram};
use crate::text::{ends_with, ends_with_exec, find, find_exec, joined4, nat_digits, owned, slice, str_eq, uint_to_text};
use crate::timing::{key_repeat, key_repeat_fires, key_repeat_last};

verus! {

/// Where a program in the library window comes from.
#[derive(Debug, Clone, PartialEq, Eq)]
pub enum ProgramSource {
    Library { library_name: String },
    Square { x: usize, y: usize, program_index: usize },
}

/// Where a sample in the library window comes from.
#[derive(Debug, Clone, PartialEq, Eq)]
pub enum SampleSource {
    Auto,
    Library { library_name: String },
}

#[derive(Debug, Clone)]
pub struct SampleEntry {
    pub name: String,
    pub source: SampleSource,
}

/// A program listed in the library window.
pub struct ProgramEntry {
    pub name: String,
    pub program: Program,
    pub source: ProgramSource,
}

#[derive(Debug, Clone, Copy, PartialEq, Eq, Structural)]
pub enum LibraryColumn {
    Samples,
    Programs,
}

/// What is being edited in the library window.
#[derive(Debug, Clone)]
pub enum EditingMode {
    RenameItem { original_name: String, new_name: String },
    CreateProgram { name: String, editor: ProgramEditor },
    EditProgram { name: String, source: ProgramSource, editor: ProgramEditor },
}

#[derive(Debug, Clone)]
pub enum LibraryGuiState {
    Hidden,
    Visible {
        selected_column: LibraryColumn,
        selected_library: String,
        selected_item: usize,
        scroll_offset: usize,
        editing_mode: Option<EditingMode>,
        /// The square a program is being chosen for, when opened from a square.
        target_square: Option<(usize, usize)>,
    },
}

pub struct LibraryGui {
    pub state: LibraryGuiState,
    /// When a key was last handled, for key repeat.
    pub last_key_repeat: Option<u64>,
    /// In milliseconds.
    pub key_repeat_delay: u64,
    /// In milliseconds.
    pub key_repeat_rate: u64,
}

/// The window as it opens: column `column` of library `lib`, its first item
/// selected, nothing edited, for square `target` if a program is chosen for one.
pub open spec fn opened_state(s: LibraryGuiState, column: LibraryColumn, target: Option<(usize, usize)>) -> bool {
    match s {
        LibraryGuiState::Visible {
            selected_column,
            selected_library,
            selected_item,
            scroll_offset,
            editing_mode,
            target_square,
        } => {
            &&& selected_column == column
            &&& selected_library@ == "lib"@
            &&& selected_item == 0
            &&& scroll_offset == 0
            &&& editing_mode is None
            &&& target_square == target
        },
        LibraryGuiState::Hidden => false,
    }
}

pub open spec fn state_is_editing(s: LibraryGuiState) -> bool {
    match s {
        LibraryGuiState::Visible { editing_mode, .. } => editing_mode is Some,
        LibraryGuiState::Hidden => false,
    }
}

/// The editor of the program being created or edited, if any.
pub open spec fn current_editor(s: LibraryGuiState) -> Option<ProgramEditor> {
    match s {
        LibraryGuiState::Visible { editing_mode: Some(EditingMode::CreateProgram { editor, .. }), .. } => Some(editor),
        LibraryGuiState::Visible { editing_mode: Some(EditingMode::EditProgram { editor, .. }), .. } => Some(editor),
        _ => None,
    }
}

/// The library functions the window does not list.
pub open spec fn is_predefined(name: Seq<char>) -> bool {
    name == "ballcreator"@ || name == "bounce"@ || name == "speed_boost"@ || name == "direction_cycle"@
        || name == "multi_creator"@
}

impl LibraryGui {
    /// A hidden library window.
    pub fn new() -> (r: Self)
        ensures
            r.state is Hidden,
            r.last_key_repeat is None,
            r.key_repeat_delay == 500,
            r.key_repeat_rate == 100,
    {
        LibraryGui {
            state: LibraryGuiState::Hidden,
            last_key_repeat: None,
            key_repeat_delay: 500,
            key_repeat_rate: 100,
        }
    }

    /// Shows a hidden window (as it opens, see `opened_state`) or hides a shown one.
    pub fn toggle(&mut self)
        ensures
            old(self).state is Hidden ==> opened_state(final(self).state, LibraryColumn::Samples, None),
            old(self).state is Visible ==> final(self).state is Hidden,
    {
        proof { reveal_strlit("lib"); }
        self.state = match self.state {
            LibraryGuiState::Hidden => LibraryGuiState::Visible {
                selected_column: LibraryColumn::Samples,
                selected_library: owned("lib"),
                selected_item: 0,
                scroll_offset: 0,
                editing_mode: None,
                target_square: None,
            },
            LibraryGuiState::Visible { .. } => LibraryGuiState::Hidden,
        };
    }

    /// Shows the window on the programs column to choose a program for a square.
    pub fn open_for_program_selection(&mut self, square_x: usize, square_y: usize)
        ensures
            opened_state(final(self).state, LibraryColumn::Programs, Some((square_x, square_y))),
    {
        self.state = LibraryGuiState::Visible {
            selected_column: LibraryColumn::Programs,
            selected_library: owned("lib"),
            selected_item: 0,
            scroll_offset: 0,
            editing_mode: None,
            target_square: Some((square_x, square_y)),
        };
    }

    pub fn is_visible(&self) -> (r: bool)
        ensures
            r == (self.state is Visible),
    {
        match self.state {
            LibraryGuiState::Visible { .. } => true,
            LibraryGuiState::Hidden => false,
        }
    }

    pub fn is_editing(&self) -> (r: bool)
        ensures
            r == state_is_editing(self.state),
    {
        match &self.state {
            LibraryGuiState::Visible { editing_mode, .. } => editing_mode.is_some(),
            LibraryGuiState::Hidden => false,
        }
    }

    /// The editor of the program being created or edited, if any, to change.
    pub fn get_current_editor_mut(&mut self) -> (r: Option<&mut ProgramEditor>)
        ensures
            r is Some == current_editor(old(self).state) is Some,
            r matches Some(e) ==> {
                &&& *e == current_editor(old(self).state)->0
                &&& current_editor(final(self).state) == Some(*final(e))
            },
    {
        match &mut self.state {
            LibraryGuiState::Visible { editing_mode: Some(edit_mode), .. } => match edit_mode {
                EditingMode::CreateProgram { editor, .. } => Some(editor),
                EditingMode::EditProgram { editor, .. } => Some(editor),
                EditingMode::RenameItem { .. } => None,
            },
            _ => None,
        }
    }

    /// Whether a library function is one the window does not list.
    fn is_predefined_function(&self, program_name: &str) -> (r: bool)
        ensures
            r == is_predefined(program_name@),
    {
        str_eq(program_name, "ballcreator") || str_eq(program_name, "bounce") || str_eq(program_name, "speed_boost")
            || str_eq(program_name, "direction_cycle") || str_eq(program_name, "multi_creator")
    }

    /// Whether a key is handled this frame (see `key_repeat`).
    pub fn should_handle_key_repeat(&mut self, key_held: bool, key_pressed: bool, now: u64) -> (r: bool)
        ensures
            r == key_repeat_fires(old(self).last_key_repeat, old(self).key_repeat_rate, key_held, key_pressed, now),
            final(self).last_key_repeat == key_repeat_last(old(self).last_key_repeat, key_held, r, now),
            final(self).state == old(self).state,
            final(self).key_repeat_delay == old(self).key_repeat_delay,
            final(self).key_repeat_rate == old(self).key_repeat_rate,
    {
        key_repeat(&mut self.last_key_repeat, self.key_repeat_rate, key_held, key_pressed, now)
    }
}

// ---------------------------------------------------------------------------
// What the window lists

/// The most items a column shows at once.
pub const MAX_VISIBLE_ITEMS: usize = 16;

/// Where a listed program comes from, as the contracts see it.
pub enum PSource {
    Library(Seq<char>),
    Square(usize, usize, usize),
}

/// A listed program as the contracts see it.
pub struct PEntry {
    pub name: Seq<char>,
    pub program: SProgram,
    pub source: PSource,
}

/// A listed sample as the contracts see it: its label and the sample library
/// it is from (`None` for the automatic one).
pub struct SEntry {
    pub name: Seq<char>,
    pub library: Option<Seq<char>>,
}

pub open spec fn psource(s: ProgramSource) -> PSource {
    match s {
        ProgramSource::Library { library_name } => PSource::Library(library_name@),
        ProgramSource::Square { x, y, program_index } => PSource::Square(x, y, program_index),
    }
}

pub open spec fn pentry(e: ProgramEntry) -> PEntry {
    PEntry { name: e.name@, program: e.program@, source: psource(e.source) }
}

pub open spec fn pentries(v: Seq<ProgramEntry>) -> Seq<PEntry> {
    v.map_values(|e: ProgramEntry| pentry(e))
}

pub open spec fn sentry(e: SampleEntry) -> SEntry {
    SEntry {
        name: e.name@,
        library: match e.source {
            SampleSource::Auto => None,
            SampleSource::Library { library_name } => Some(library_name@),
        },
    }
}

pub open spec fn sentries(v: Seq<SampleEntry>) -> Seq<SEntry> {
    v.map_values(|e: SampleEntry| sentry(e))
}

/// The names of a sample library, each labelled `name (tag)`.
pub open spec fn tagged_samples(names: Seq<String>, tag: Seq<char>, library: Option<Seq<char>>) -> Seq<SEntry> {
    names.map_values(|n: String| SEntry { name: n@ + " ("@ + tag + ")"@, library })
}

/// The samples column for library `lib`: the automatic samples, then, unless
/// `lib` is the automatic library, those of `lib`.
pub open spec fn listed_samples(lm: LibraryManager, lib: Seq<char>) -> Seq<SEntry> {
    let auto = if lm.sample_libraries@.contains_key("auto"@) {
        tagged_samples(lm.sample_libraries@["auto"@].samples.names@, "auto"@, None)
    } else {
        Seq::empty()
    };
    let own = if lib != "auto"@ && lm.sample_libraries@.contains_key(lib) {
        tagged_samples(lm.sample_libraries@[lib].samples.names@, lib, Some(lib))
    } else {
        Seq::empty()
    };
    auto + own
}

/// A square program the window lists: any but the one every new square has.
pub open spec fn is_listed_square_program(p: SProgram) -> bool {
    !(p.name == "Default"@ && p.instructions.len() == 1 && p.instructions[0] is Bounce)
}

/// The listable programs among the first `n` of square `(x, y)`.
pub open spec fn cell_candidates(programs: Seq<Program>, x: int, y: int, n: int) -> Seq<PEntry>
    decreases n,
{
    if n <= 0 {
        Seq::empty()
    } else {
        let p = programs[n - 1]@;
        cell_candidates(programs, x, y, n - 1) + if is_listed_square_program(p) {
            seq![PEntry { name: p.name, program: p, source: PSource::Square(x as usize, y as usize, (n - 1) as usize) }]
        } else {
            Seq::empty()
        }
    }
}

/// The listable programs of the squares among the first `n` cells of row `y`.
pub open spec fn row_candidates(row: Seq<Cell>, y: int, n: int) -> Seq<PEntry>
    decreases n,
{
    if n <= 0 {
        Seq::empty()
    } else {
        let c = row[n - 1];
        row_candidates(row, y, n - 1) + if c.content == CellContent::Square {
            cell_candidates(c.program.programs@, n - 1, y, c.program.programs@.len() as int)
        } else {
            Seq::empty()
        }
    }
}

/// The listable square programs of the first `n` rows, row by row.
pub open spec fn grid_candidates(grid: Seq<[Cell; GRID_WIDTH]>, n: int) -> Seq<PEntry>
    decreases n,
{
    if n <= 0 {
        Seq::empty()
    } else {
        grid_candidates(grid, n - 1) + row_candidates(grid[n - 1]@, n - 1, GRID_WIDTH as int)
    }
}

/// Whether function `f` of library `lib` is left out of the list: the
/// automatic library is, and so are the predefined functions of `lib`.
pub open spec fn is_hidden_function(lib: Seq<char>, f: Seq<char>) -> bool {
    lib == "auto"@ || (lib == "lib"@ && is_predefined(f))
}

/// The listable functions among the first `n` of a library named `lib`.
pub open spec fn function_candidates(lib: Seq<char>, names: Seq<String>, programs: Seq<Program>, n: int) -> Seq<PEntry>
    decreases n,
{
    if n <= 0 {
        Seq::empty()
    } else {
        function_candidates(lib, names, programs, n - 1) + if is_hidden_function(lib, names[n - 1]@) {
            Seq::empty()
        } else {
            seq![PEntry { name: names[n - 1]@, program: programs[n - 1]@, source: PSource::Library(lib) }]
        }
    }
}

/// The listable functions of the first `n` function libraries.
pub open spec fn library_candidates(lm: LibraryManager, n: int) -> Seq<PEntry>
    decreases n,
{
    if n <= 0 {
        Seq::empty()
    } else {
        let lib = lm.function_libraries.values@[n - 1];
        library_candidates(lm, n - 1) + function_candidates(
            lm.function_libraries.names@[n - 1]@,
            lib.functions.names@,
            lib.functions.values@,
            lib.functions.names@.len() as int,
        )
    }
}

pub open spec fn entry_names(s: Seq<PEntry>) -> Seq<Seq<char>> {
    s.map_values(|e: PEntry| e.name)
}

/// `acc` with `e` added unless a program of that name is there already.
pub open spec fn add_entry(acc: Seq<PEntry>, e: PEntry) -> Seq<PEntry> {
    if entry_names(acc).contains(e.name) {
        acc
    } else {
        acc.push(e)
    }
}

/// `acc` with the programs of `s` added in order, each name once.
pub open spec fn add_entries(acc: Seq<PEntry>, s: Seq<PEntry>) -> Seq<PEntry>
    decreases s.len(),
{
    if s.len() == 0 {
        acc
    } else {
        add_entry(add_entries(acc, s.drop_last()), s.last())
    }
}

/// The programs column: the programs of the squares, row by row, then the
/// functions of the libraries; the first of each name only.
pub open spec fn listed_programs(lm: LibraryManager, grid: Seq<[Cell; GRID_WIDTH]>) -> Seq<PEntry> {
    add_entries(
        Seq::empty(),
        grid_candidates(grid, GRID_HEIGHT as int) + library_candidates(lm, lm.function_libraries.names@.len() as int),
    )
}

/// Adding one more program is one step of `add_entries`.
proof fn lemma_add_entries_push(acc: Seq<PEntry>, s: Seq<PEntry>, e: PEntry)
    ensures
        add_entries(acc, s.push(e)) == add_entry(add_entries(acc, s), e),
{
    assert(s.push(e).drop_last() =~= s);
}

/// Whether a program of name `name` is in `v`.
fn has_entry_named(v: &Vec<ProgramEntry>, name: &str) -> (r: bool)
    ensures
        r == entry_names(pentries(v@)).contains(name@),
{
    let mut i: usize = 0;
    while i < v.len()
        invariant
            i <= v.len(),
            forall|j: int| 0 <= j < i ==> #[trigger] v@[j].name@ != name@,
        decreases v.len() - i,
    {
        if str_eq(v[i].name.as_str(), name) {
            assert(entry_names(pentries(v@))[i as int] == name@);
            return true;
        }
        i = i + 1;
    }
    proof {
        if entry_names(pentries(v@)).contains(name@) {
            let j = choose|j: int| 0 <= j < entry_names(pentries(v@)).len() && entry_names(pentries(v@))[j] == name@;
            assert(v@[j].name@ == name@);
        }
    }
    false
}

/// Adds `e` unless a program of its name is there already.
fn add_program_entry(v: &mut Vec<ProgramEntry>, e: ProgramEntry)
    ensures
        pentries(final(v)@) == add_entry(pentries(old(v)@), pentry(e)),
{
    if !has_entry_named(v, e.name.as_str()) {
        v.push(e);
        assert(pentries(v@) =~= pentries(old(v)@).push(pentry(e)));
    }
}

/// Samples with the names of `names`, each labelled `name (tag)`.
fn push_tagged_samples(out: &mut Vec<SampleEntry>, names: &Vec<String>, tag: &str, library: Option<&str>)
    ensures
        sentries(final(out)@) == sentries(old(out)@) + tagged_samples(
            names@,
            tag@,
            match library {
                Some(l) => Some(l@),
                None => None,
            },
        ),
{
    let ghost lib = match library {
        Some(l) => Some(l@),
        None => None::<Seq<char>>,
    };
    let mut i: usize = 0;
    while i < names.len()
        invariant
            i <= names@.len(),
            sentries(out@) == sentries(old(out)@) + tagged_samples(names@, tag@, lib).take(i as int),
            lib == match library {
                Some(l) => Some(l@),
                None => None::<Seq<char>>,
            },
        decreases names.len() - i,
    {
        let source = match library {
            Some(l) => SampleSource::Library { library_name: owned(l) },
            None => SampleSource::Auto,
        };
        let ghost before = out@;
        out.push(SampleEntry { name: joined4(names[i].as_str(), " (", tag, ")"), source });
        assert(sentries(out@) =~= sentries(before).push(tagged_samples(names@, tag@, lib)[i as int]));
        assert(tagged_samples(names@, tag@, lib).take(i + 1) =~= tagged_samples(names@, tag@, lib).take(i as int).push(
            tagged_samples(names@, tag@, lib)[i as int],
        ));
        i = i + 1;
    }
    assert(tagged_samples(names@, tag@, lib).take(i as int) =~= tagged_samples(names@, tag@, lib));
}

impl LibraryGui {
    /// The samples column for library `selected_library` (see `listed_samples`).
    pub fn collect_all_samples(&self, library_manager: &LibraryManager, selected_library: &str) -> (r: Vec<SampleEntry>)
        requires
            library_manager.wf(),
        ensures
            sentries(r@) == listed_samples(*library_manager, selected_library@),
    {
        let mut all_samples: Vec<SampleEntry> = Vec::new();
        assert(sentries(all_samples@) =~= Seq::<SEntry>::empty());
        match library_manager.sample_libraries.get("auto") {
            Some(auto_library) => push_tagged_samples(&mut all_samples, &auto_library.samples.names, "auto", None),
            None => {},
        }
        let ghost auto_part = sentries(all_samples@);
        if !str_eq(selected_library, "auto") {
            match library_manager.sample_libraries.get(selected_library) {
                Some(library) => push_tagged_samples(
                    &mut all_samples,
                    &library.samples.names,
                    selected_library,
                    Some(selected_library),
                ),
                None => {
                    assert(sentries(all_samples@) =~= auto_part + Seq::<SEntry>::empty());
                },
            }
        } else {
            assert(sentries(all_samples@) =~= auto_part + Seq::<SEntry>::empty());
        }
        all_samples
    }
}

/// Whether the window lists a square program: any but the one every new square has.
fn listed_square_program(p: &Program) -> (r: bool)
    ensures
        r == is_listed_square_program(p@),
{
    proof {
        reveal_strlit("Default");
    }
    if str_eq(p.name.as_str(), "Default") && p.instructions.len() == 1 {
        match &p.instructions[0] {
            Instruction::Bounce => false,
            _ => true,
        }
    } else {
        true
    }
}

impl LibraryGui {
    /// Whether function `function_name` of library `library_name` is left
    /// out of the list (see `is_hidden_function`).
    fn is_hidden_function(&self, library_name: &str, function_name: &str) -> (r: bool)
        ensures
            r == is_hidden_function(library_name@, function_name@),
    {
        str_eq(library_name, "auto") || (str_eq(library_name, "lib") && self.is_predefined_function(function_name))
    }

    /// The programs column (see `listed_programs`).
    pub fn collect_all_programs(&self, library_manager: &LibraryManager, grid: &[[Cell; GRID_WIDTH]; GRID_HEIGHT]) -> (r: Vec<
        ProgramEntry,
    >)
        requires
            library_manager.wf(),
        ensures
            pentries(r@) == listed_programs(*library_manager, grid@),
    {
        let mut all_programs: Vec<ProgramEntry> = Vec::new();
        let ghost empty = Seq::<PEntry>::empty();
        assert(pentries(all_programs@) =~= empty);
        let mut y: usize = 0;
        while y < GRID_HEIGHT
            invariant
                y <= GRID_HEIGHT,
                pentries(all_programs@) == add_entries(empty, grid_candidates(grid@, y as int)),
                empty == Seq::<PEntry>::empty(),
            decreases GRID_HEIGHT - y,
        {
            let ghost g = grid_candidates(grid@, y as int);
            let mut x: usize = 0;
            assert(g + row_candidates(grid@[y as int]@, y as int, 0) =~= g);
            while x < GRID_WIDTH
                invariant
                    y < GRID_HEIGHT,
                    x <= GRID_WIDTH,
                    g == grid_candidates(grid@, y as int),
                    pentries(all_programs@) == add_entries(empty, g + row_candidates(grid@[y as int]@, y as int, x as int)),
                    empty == Seq::<PEntry>::empty(),
                decreases GRID_WIDTH - x,
            {
                let ghost r = row_candidates(grid@[y as int]@, y as int, x as int);
                let cell = &grid[y][x];
                assert(*cell == grid@[y as int]@[x as int]);
                if cell.is_square() {
                    let programs = &cell.program.programs;
                    let mut i: usize = 0;
                    assert(g + r + cell_candidates(programs@, x as int, y as int, 0) =~= g + r);
                    while i < programs.len()
                        invariant
                            i <= programs@.len(),
                            pentries(all_programs@) == add_entries(
                                empty,
                                g + r + cell_candidates(programs@, x as int, y as int, i as int),
                            ),
                        decreases programs.len() - i,
                    {
                        let ghost c = cell_candidates(programs@, x as int, y as int, i as int);
                        let program = &programs[i];
                        if listed_square_program(program) {
                            let e = ProgramEntry {
                                name: owned(program.name.as_str()),
                                program: copy_program(program),
                                source: ProgramSource::Square { x, y, program_index: i },
                            };
                            proof {
                                lemma_add_entries_push(empty, g + r + c, pentry(e));
                                assert((g + r + c).push(pentry(e)) =~= g + r + cell_candidates(
                                    programs@,
                                    x as int,
                                    y as int,
                                    i + 1,
                                ));
                            }
                            add_program_entry(&mut all_programs, e);
                        } else {
                            assert(cell_candidates(programs@, x as int, y as int, i + 1) =~= c);
                        }
                        i = i + 1;
                    }
                    assert(g + row_candidates(grid@[y as int]@, y as int, x + 1) =~= g + r + cell_candidates(
                        programs@,
                        x as int,
                        y as int,
                        programs@.len() as int,
                    ));
                } else {
                    assert(g + row_candidates(grid@[y as int]@, y as int, x + 1) =~= g + r);
                }
                x = x + 1;
            }
            assert(grid_candidates(grid@, y + 1) =~= g + row_candidates(grid@[y as int]@, y as int, GRID_WIDTH as int));
            y = y + 1;
        }
        let ghost g = grid_candidates(grid@, GRID_HEIGHT as int);
        let libraries = &library_manager.function_libraries;
        let mut j: usize = 0;
        assert(g + library_candidates(*library_manager, 0) =~= g);
        while j < libraries.names.len()
            invariant
                libraries == library_manager.function_libraries,
                library_manager.wf(),
                j <= libraries.names@.len(),
                g == grid_candidates(grid@, GRID_HEIGHT as int),
                pentries(all_programs@) == add_entries(empty, g + library_candidates(*library_manager, j as int)),
            decreases libraries.names.len() - j,
        {
            let ghost l = library_candidates(*library_manager, j as int);
            proof {
                libraries.lemma_place(j as int);
            }
            let lib_name = libraries.names[j].as_str();
            let functions = &libraries.values[j].functions;
            assert(functions.wf());
            let mut k: usize = 0;
            assert(g + l + function_candidates(lib_name@, functions.names@, functions.values@, 0) =~= g + l);
            while k < functions.names.len()
                invariant
                    functions.wf(),
                    k <= functions.names@.len(),
                    pentries(all_programs@) == add_entries(
                        empty,
                        g + l + function_candidates(lib_name@, functions.names@, functions.values@, k as int),
                    ),
                decreases functions.names.len() - k,
            {
                let ghost f = function_candidates(lib_name@, functions.names@, functions.values@, k as int);
                let prog_name = functions.names[k].as_str();
                if !self.is_hidden_function(lib_name, prog_name) {
                    let e = ProgramEntry {
                        name: owned(prog_name),
                        program: copy_program(&functions.values[k]),
                        source: ProgramSource::Library { library_name: owned(lib_name) },
                    };
                    proof {
                        lemma_add_entries_push(empty, g + l + f, pentry(e));
                        assert((g + l + f).push(pentry(e)) =~= g + l + function_candidates(
                            lib_name@,
                            functions.names@,
                            functions.values@,
                            k + 1,
                        ));
                    }
                    add_program_entry(&mut all_programs, e);
                } else {
                    assert(function_candidates(lib_name@, functions.names@, functions.values@, k + 1) =~= f);
                }
                k = k + 1;
            }
            assert(g + library_candidates(*library_manager, j + 1) =~= g + l + function_candidates(
                lib_name@,
                functions.names@,
                functions.values@,
                functions.names@.len() as int,
            ));
            j = j + 1;
        }
        all_programs
    }
}

// ---------------------------------------------------------------------------
// Keys and actions

/// The keys of one frame that the library window reads.
#[derive(Clone, Copy, Debug)]
pub struct LibraryKeys {
    pub escape: bool,
    pub tab: bool,
    pub left: bool,
    pub right: bool,
    pub up: bool,
    pub down: bool,
    pub f2: bool,
    pub delete: bool,
    /// Shift is held.
    pub shift: bool,
    pub space: bool,
    pub return_key: bool,
}

/// What the window asks of the sequencer.
pub enum LibraryGuiAction {
    RenameItem { library_name: String, old_name: String, new_name: String, is_sample: bool },
    DeleteItem { library_name: String, item_name: String, is_sample: bool },
    CreateProgram { library_name: String, name: String, program: Program },
    EditProgram { source: ProgramSource, name: String, program: Program, raw_text: Vec<String> },
    OpenSquareScript { x: usize, y: usize, program_index: usize },
    LoadSample { library_name: String },
    LoadAutoSample,
    SaveProgramToFile { editor: ProgramEditor },
    LoadProgramFromFile,
    OpenAudioPlayer { library_name: String, sample_name: String },
    LoadProgramToSquare { program: Program, square_x: usize, square_y: usize },
}

/// An action as the contracts see it.
pub enum ActionView {
    RenameItem { library: Seq<char>, old_name: Seq<char>, new_name: Seq<char>, is_sample: bool },
    DeleteItem { library: Seq<char>, item: Seq<char>, is_sample: bool },
    CreateProgram { library: Seq<char>, name: Seq<char>, program: SProgram },
    EditProgram { source: PSource, name: Seq<char>, program: SProgram, raw_text: Seq<Seq<char>> },
    OpenSquareScript { x: usize, y: usize, program_index: usize },
    LoadSample { library: Seq<char> },
    LoadAutoSample,
    SaveProgramToFile { editor: EditorState },
    LoadProgramFromFile,
    OpenAudioPlayer { library: Seq<char>, sample: Seq<char> },
    LoadProgramToSquare { program: SProgram, x: usize, y: usize },
}

pub open spec fn action_view(a: LibraryGuiAction) -> ActionView {
    match a {
        LibraryGuiAction::RenameItem { library_name, old_name, new_name, is_sample } => ActionView::RenameItem {
            library: library_name@,
            old_name: old_name@,
            new_name: new_name@,
            is_sample,
        },
        LibraryGuiAction::DeleteItem { library_name, item_name, is_sample } => ActionView::DeleteItem {
            library: library_name@,
            item: item_name@,
            is_sample,
        },
        LibraryGuiAction::CreateProgram { library_name, name, program } => ActionView::CreateProgram {
            library: library_name@,
            name: name@,
            program: program@,
        },
        LibraryGuiAction::EditProgram { source, name, program, raw_text } => ActionView::EditProgram {
            source: psource(source),
            name: name@,
            program: program@,
            raw_text: texts_view(raw_text@),
        },
        LibraryGuiAction::OpenSquareScript { x, y, program_index } => ActionView::OpenSquareScript { x, y, program_index },
        LibraryGuiAction::LoadSample { library_name } => ActionView::LoadSample { library: library_name@ },
        LibraryGuiAction::LoadAutoSample => ActionView::LoadAutoSample,
        LibraryGuiAction::SaveProgramToFile { editor } => ActionView::SaveProgramToFile { editor: editor.state() },
        LibraryGuiAction::LoadProgramFromFile => ActionView::LoadProgramFromFile,
        LibraryGuiAction::OpenAudioPlayer { library_name, sample_name } => ActionView::OpenAudioPlayer {
            library: library_name@,
            sample: sample_name@,
        },
        LibraryGuiAction::LoadProgramToSquare { program, square_x, square_y } => ActionView::LoadProgramToSquare {
            program: program@,
            x: square_x,
            y: square_y,
        },
    }
}

pub open spec fn opt_action_view(a: Option<LibraryGuiAction>) -> Option<ActionView> {
    match a {
        Some(a) => Some(action_view(a)),
        None => None,
    }
}

// ---------------------------------------------------------------------------
// Item counts and names

/// How many items column `column` lists for library `lib`.
pub open spec fn item_count(lm: LibraryManager, grid: Seq<[Cell; GRID_WIDTH]>, column: LibraryColumn, lib: Seq<char>) -> int {
    match column {
        LibraryColumn::Samples => listed_samples(lm, lib).len() as int,
        LibraryColumn::Programs => listed_programs(lm, grid).len() as int,
    }
}

/// How a listed program is named: `name (library)` or `name @(x,y)`.
pub open spec fn program_label(e: PEntry) -> Seq<char> {
    match e.source {
        PSource::Library(l) => e.name + " ("@ + l + ")"@,
        PSource::Square(x, y, _) => e.name + " @("@ + nat_digits(x as nat) + ","@ + nat_digits(y as nat) + ")"@,
    }
}

/// The name of item `i` of column `column`, if there is one.
pub open spec fn item_name(
    lm: LibraryManager,
    grid: Seq<[Cell; GRID_WIDTH]>,
    column: LibraryColumn,
    lib: Seq<char>,
    i: int,
) -> Option<Seq<char>> {
    match column {
        LibraryColumn::Samples => {
            let s = listed_samples(lm, lib);
            if 0 <= i < s.len() {
                Some(s[i].name)
            } else {
                None
            }
        },
        LibraryColumn::Programs => {
            let p = listed_programs(lm, grid);
            if 0 <= i < p.len() {
                Some(program_label(p[i]))
            } else {
                None
            }
        },
    }
}

impl LibraryGui {
    /// How many items a column lists (see `item_count`).
    pub fn get_item_count(
        &self,
        library_manager: &LibraryManager,
        column: &LibraryColumn,
        library_name: &str,
        grid: &[[Cell; GRID_WIDTH]; GRID_HEIGHT],
    ) -> (r: usize)
        requires
            library_manager.wf(),
        ensures
            r == item_count(*library_manager, grid@, *column, library_name@),
    {
        match column {
            LibraryColumn::Samples => self.collect_all_samples(library_manager, library_name).len(),
            LibraryColumn::Programs => self.collect_all_programs(library_manager, grid).len(),
        }
    }

    /// The name of an item (see `item_name`).
    pub fn get_selected_item_name(
        &self,
        library_manager: &LibraryManager,
        column: &LibraryColumn,
        library_name: &str,
        index: usize,
        grid: &[[Cell; GRID_WIDTH]; GRID_HEIGHT],
    ) -> (r: Option<String>)
        requires
            library_manager.wf(),
        ensures
            match r {
                Some(n) => item_name(*library_manager, grid@, *column, library_name@, index as int) == Some(n@),
                None => item_name(*library_manager, grid@, *column, library_name@, index as int) is None,
            },
    {
        match column {
            LibraryColumn::Samples => {
                let all_samples = self.collect_all_samples(library_manager, library_name);
                if index < all_samples.len() {
                    assert(sentries(all_samples@)[index as int].name == all_samples@[index as int].name@);
                    Some(owned(all_samples[index].name.as_str()))
                } else {
                    None
                }
            },
            LibraryColumn::Programs => {
                let all_programs = self.collect_all_programs(library_manager, grid);
                if index < all_programs.len() {
                    let entry = &all_programs[index];
                    assert(pentries(all_programs@)[index as int] == pentry(*entry));
                    match &entry.source {
                        ProgramSource::Library { library_name } => Some(
                            joined4(entry.name.as_str(), " (", library_name.as_str(), ")"),
                        ),
                        ProgramSource::Square { x, y, program_index: _ } => {
                            let xs = uint_to_text(*x as u64);
                            let ys = uint_to_text(*y as u64);
                            let mut label = joined4(entry.name.as_str(), " @(", xs.as_str(), ",");
                            label.append(ys.as_str());
                            label.append(")");
                            Some(label)
                        },
                    }
                } else {
                    None
                }
            },
        }
    }
}

// ---------------------------------------------------------------------------
// Moving about the window

/// The window's place: column, library, selected item and first item shown.
pub struct Nav {
    pub column: LibraryColumn,
    pub library: Seq<char>,
    pub item: int,
    pub scroll: int,
}

pub open spec fn other_column(c: LibraryColumn) -> LibraryColumn {
    match c {
        LibraryColumn::Samples => LibraryColumn::Programs,
        LibraryColumn::Programs => LibraryColumn::Samples,
    }
}

/// The place of `lib` among the function libraries, or `0` when it is none of them.
pub open spec fn library_place(lm: LibraryManager, lib: Seq<char>) -> int {
    if lm.function_libraries@.contains_key(lib) {
        lm.function_libraries.place(lib)
    } else {
        0
    }
}

/// The function library before (`left`) or after `lib`, going round.
pub open spec fn next_library(lm: LibraryManager, lib: Seq<char>, left: bool) -> Seq<char> {
    let n = lm.function_libraries.names@.len() as int;
    let cur = library_place(lm, lib);
    let i = if left {
        if cur == 0 {
            n - 1
        } else {
            cur - 1
        }
    } else {
        (cur + 1) % n
    };
    lm.function_libraries.names@[i]@
}

/// Where the keys move the window: Tab changes column, Left and Right the
/// library (each from the first item), Up and Down the item, the first item
/// shown following so that the selected one stays among the
/// `MAX_VISIBLE_ITEMS` shown.
pub open spec fn navigated(lm: LibraryManager, grid: Seq<[Cell; GRID_WIDTH]>, n: Nav, k: LibraryKeys) -> Nav {
    let n1 = if k.tab {
        Nav { column: other_column(n.column), library: n.library, item: 0, scroll: 0 }
    } else {
        n
    };
    let n2 = if (k.left || k.right) && lm.function_libraries.names@.len() > 0 {
        Nav { column: n1.column, library: next_library(lm, n1.library, k.left), item: 0, scroll: 0 }
    } else {
        n1
    };
    let n3 = if k.up && n2.item > 0 {
        Nav {
            column: n2.column,
            library: n2.library,
            item: n2.item - 1,
            scroll: if n2.item - 1 < n2.scroll {
                n2.item - 1
            } else {
                n2.scroll
            },
        }
    } else {
        n2
    };
    if k.down && n3.item + 1 < item_count(lm, grid, n3.column, n3.library) {
        Nav {
            column: n3.column,
            library: n3.library,
            item: n3.item + 1,
            scroll: if n3.item + 1 >= n3.scroll + MAX_VISIBLE_ITEMS {
                n3.item + 1 - MAX_VISIBLE_ITEMS + 1
            } else {
                n3.scroll
            },
        }
    } else {
        n3
    }
}

impl LibraryGui {
    /// The place of `library` among the function libraries (see `library_place`).
    fn library_index(&self, library_manager: &LibraryManager, library: &str) -> (r: usize)
        requires
            library_manager.wf(),
        ensures
            r == library_place(*library_manager, library@),
            library_manager.function_libraries.names@.len() > 0 ==> r < library_manager.function_libraries.names@.len(),
    {
        let names = &library_manager.function_libraries.names;
        let mut i: usize = 0;
        while i < names.len()
            invariant
                i <= names@.len(),
                names == library_manager.function_libraries.names,
                library_manager.wf(),
                forall|j: int| 0 <= j < i ==> #[trigger] names@[j]@ != library@,
            decreases names.len() - i,
        {
            if str_eq(names[i].as_str(), library) {
                proof {
                    library_manager.function_libraries.lemma_place(i as int);
                }
                return i;
            }
            i = i + 1;
        }
        0
    }

    /// Moves the window as the keys say (see `navigated`).
    fn navigate(
        &self,
        library_manager: &LibraryManager,
        grid: &[[Cell; GRID_WIDTH]; GRID_HEIGHT],
        column: LibraryColumn,
        library: String,
        item: usize,
        scroll: usize,
        keys: LibraryKeys,
    ) -> (r: (LibraryColumn, String, usize, usize))
        requires
            library_manager.wf(),
        ensures
            navigated(
                *library_manager,
                grid@,
                Nav { column, library: library@, item: item as int, scroll: scroll as int },
                keys,
            ) == (Nav { column: r.0, library: r.1@, item: r.2 as int, scroll: r.3 as int }),
    {
        let mut column = column;
        let mut library = library;
        let mut item = item;
        let mut scroll = scroll;
        if keys.tab {
            column = match column {
                LibraryColumn::Samples => LibraryColumn::Programs,
                LibraryColumn::Programs => LibraryColumn::Samples,
            };
            item = 0;
            scroll = 0;
        }
        let names = &library_manager.function_libraries.names;
        if (keys.left || keys.right) && names.len() > 0 {
            let cur = self.library_index(library_manager, library.as_str());
            let n = names.len();
            let next = if keys.left {
                if cur == 0 {
                    n - 1
                } else {
                    cur - 1
                }
            } else {
                (cur + 1) % n
            };
            library = owned(names[next].as_str());
            item = 0;
            scroll = 0;
        }
        if keys.up && item > 0 {
            item = item - 1;
            if item < scroll {
                scroll = item;
            }
        }
        if keys.down {
            let count = self.get_item_count(library_manager, &column, library.as_str(), grid);
            if count > 0 && item < count - 1 {
                item = item + 1;
                if item >= MAX_VISIBLE_ITEMS && item - MAX_VISIBLE_ITEMS >= scroll {
                    scroll = item - MAX_VISIBLE_ITEMS + 1;
                }
            }
        }
        (column, library, item, scroll)
    }
}

// ---------------------------------------------------------------------------
// Choosing and editing

/// What is being edited, as the contracts see it.
pub enum EditView {
    Rename(Seq<char>, Seq<char>),
    Create(Seq<char>, EditorState),
    Edit(Seq<char>, PSource, EditorState),
}

pub open spec fn edit_view(e: EditingMode) -> EditView {
    match e {
        EditingMode::RenameItem { original_name, new_name } => EditView::Rename(original_name@, new_name@),
        EditingMode::CreateProgram { name, editor } => EditView::Create(name@, editor.state()),
        EditingMode::EditProgram { name, source, editor } => EditView::Edit(name@, psource(source), editor.state()),
    }
}

pub open spec fn opt_edit_view(e: Option<EditingMode>) -> Option<EditView> {
    match e {
        Some(e) => Some(edit_view(e)),
        None => None,
    }
}

/// An editor opened on `lines` (see `ProgramEditor::new_with_text`).
pub open spec fn opened_editor(lines: Seq<Seq<char>>) -> EditorState {
    EditorState {
        lines,
        line: 0,
        col: (if lines.len() > 0 {
            encode_utf8(lines[0]).len() as usize
        } else {
            14usize
        }) as int,
    }
}

/// The text a new program starts with.
pub open spec fn new_program_text() -> Seq<Seq<char>> {
    seq!["def new_program"@, ""@]
}

pub open spec fn scripts_view(g: Seq<Vec<String>>) -> Seq<Seq<Seq<char>>> {
    g.map_values(|v: Vec<String>| texts_view(v@))
}

/// The text a listed program is edited in: the text it keeps, or else the
/// text `generated` gives for item `i`, written back from its instructions.
pub open spec fn entry_script(e: PEntry, generated: Seq<Seq<Seq<char>>>, i: int) -> Seq<Seq<char>> {
    match e.program.source_text {
        Some(t) => t,
        None => if 0 <= i < generated.len() {
            generated[i]
        } else {
            Seq::empty()
        },
    }
}

/// A sample's label up to ` (`, where its file name ends.
pub open spec fn base_name(label: Seq<char>) -> Seq<char> {
    match find(label, " ("@) {
        Some(j) => label.take(j),
        None => label,
    }
}

/// What is being edited after the keys of a frame while browsing at `n`:
/// F2 renames the item, Shift+Space on the programs column starts a new
/// program, Return (or Space, with no square waiting for a program) edits
/// the selected program; a later key wins.
pub open spec fn browse_editing(
    lm: LibraryManager,
    grid: Seq<[Cell; GRID_WIDTH]>,
    n: Nav,
    k: LibraryKeys,
    target: Option<(usize, usize)>,
    generated: Seq<Seq<Seq<char>>>,
) -> Option<EditView> {
    let progs = listed_programs(lm, grid);
    let i = n.item;
    let on_program = n.column == LibraryColumn::Programs && 0 <= i < progs.len();
    let edit = if on_program {
        Some(EditView::Edit(progs[i].name, progs[i].source, opened_editor(entry_script(progs[i], generated, i))))
    } else {
        None
    };
    let e1 = if k.f2 && item_name(lm, grid, n.column, n.library, i) is Some {
        let name = item_name(lm, grid, n.column, n.library, i)->0;
        Some(EditView::Rename(name, name))
    } else {
        None
    };
    let e2 = if k.shift && k.space && target is None && n.column == LibraryColumn::Programs {
        Some(EditView::Create("new_program"@, opened_editor(new_program_text())))
    } else {
        e1
    };
    let e3 = if k.return_key && on_program {
        edit
    } else {
        e2
    };
    if k.space && !k.shift && on_program && target is None {
        edit
    } else {
        e3
    }
}

/// What the keys of a frame ask for while browsing at `n`: Delete deletes the
/// item; Shift+Space on a sample loads one into its library; Return on a
/// `.wav` sample opens it in the player; Space loads the selected program
/// into the square waiting for one, or, on the samples column, loads a
/// sample; a later key wins.
pub open spec fn browse_action(
    lm: LibraryManager,
    grid: Seq<[Cell; GRID_WIDTH]>,
    n: Nav,
    k: LibraryKeys,
    target: Option<(usize, usize)>,
) -> Option<ActionView> {
    let progs = listed_programs(lm, grid);
    let samples = listed_samples(lm, n.library);
    let i = n.item;
    let on_sample = n.column == LibraryColumn::Samples && 0 <= i < samples.len();
    let r1 = if k.delete && item_name(lm, grid, n.column, n.library, i) is Some {
        Some(
            ActionView::DeleteItem {
                library: n.library,
                item: item_name(lm, grid, n.column, n.library, i)->0,
                is_sample: n.column == LibraryColumn::Samples,
            },
        )
    } else {
        None
    };
    let r2 = if k.shift && k.space && target is None && on_sample {
        match samples[i].library {
            None => Some(ActionView::LoadAutoSample),
            Some(l) => Some(ActionView::LoadSample { library: l }),
        }
    } else {
        r1
    };
    let r3 = if k.return_key && on_sample && ends_with(base_name(samples[i].name), ".wav"@) {
        Some(
            ActionView::OpenAudioPlayer {
                library: match samples[i].library {
                    None => "auto"@,
                    Some(l) => l,
                },
                sample: base_name(samples[i].name),
            },
        )
    } else {
        r2
    };
    if k.space && !k.shift {
        match n.column {
            LibraryColumn::Programs => match target {
                Some((x, y)) => if 0 <= i < progs.len() {
                    Some(ActionView::LoadProgramToSquare { program: progs[i].program, x, y })
                } else {
                    r3
                },
                None => r3,
            },
            LibraryColumn::Samples => Some(ActionView::LoadSample { library: n.library }),
        }
    } else {
        r3
    }
}

/// What editing `e` asks for after a frame's keys and the editor's own answer
/// `a`: Return renames; saving (or saving and compiling) a new program puts
/// it in library `lib`, and an edited program back where it came from.
pub open spec fn editing_result(e: EditView, k: LibraryKeys, a: ProgramEditorAction, lib: Seq<char>) -> Option<ActionView> {
    match e {
        EditView::Rename(o, n) => if k.return_key {
            Some(ActionView::RenameItem { library: lib, old_name: o, new_name: n, is_sample: true })
        } else {
            None
        },
        EditView::Create(_, ed) => match a {
            ProgramEditorAction::SaveAndCompile => Some(
                ActionView::CreateProgram {
                    library: "lib"@,
                    name: editor_program(ed.lines).name,
                    program: editor_program(ed.lines),
                },
            ),
            ProgramEditorAction::SaveProgram(p) => Some(ActionView::CreateProgram { library: "lib"@, name: p@.name, program: p@ }),
            _ => None,
        },
        EditView::Edit(name, source, ed) => match a {
            ProgramEditorAction::SaveAndCompile => Some(
                ActionView::EditProgram { source, name, program: editor_program(ed.lines), raw_text: ed.lines },
            ),
            ProgramEditorAction::SaveProgram(p) => Some(
                ActionView::EditProgram { source, name, program: p@, raw_text: ed.lines },
            ),
            _ => None,
        },
    }
}

/// Whether editing `e` ends this frame: a rename on Return or Escape, a
/// program when it is saved or closed.
pub open spec fn editing_ends(e: EditView, k: LibraryKeys, a: ProgramEditorAction) -> bool {
    match e {
        EditView::Rename(_, _) => k.return_key || k.escape,
        _ => a is SaveAndCompile || a is SaveProgram || a is CloseWithoutSaving,
    }
}

pub open spec fn nav_of(s: LibraryGuiState) -> Nav {
    match s {
        LibraryGuiState::Visible { selected_column, selected_library, selected_item, scroll_offset, .. } => Nav {
            column: selected_column,
            library: selected_library@,
            item: selected_item as int,
            scroll: scroll_offset as int,
        },
        LibraryGuiState::Hidden => Nav { column: LibraryColumn::Samples, library: Seq::empty(), item: 0, scroll: 0 },
    }
}

pub open spec fn editing_of(s: LibraryGuiState) -> Option<EditView> {
    match s {
        LibraryGuiState::Visible { editing_mode, .. } => opt_edit_view(editing_mode),
        LibraryGuiState::Hidden => None,
    }
}

pub open spec fn target_of(s: LibraryGuiState) -> Option<(usize, usize)> {
    match s {
        LibraryGuiState::Visible { target_square, .. } => target_square,
        LibraryGuiState::Hidden => None,
    }
}

/// Whether `s` shows the window at `n`, editing `e`, for square `target`.
pub open spec fn shows(s: LibraryGuiState, n: Nav, e: Option<EditView>, target: Option<(usize, usize)>) -> bool {
    &&& s is Visible
    &&& nav_of(s) == n
    &&& editing_of(s) == e
    &&& target_of(s) == target
}

/// Whether the text of the program being edited can be read back, as saving
/// and compiling it asks.
pub open spec fn editing_text_reads(s: LibraryGuiState) -> bool {
    match current_editor(s) {
        Some(e) => !(spec_programs(join_lines(e.state().lines)) is Panic),
        None => true,
    }
}

fn copy_source(s: &ProgramSource) -> (r: ProgramSource)
    ensures
        psource(r) == psource(*s),
{
    match s {
        ProgramSource::Library { library_name } => ProgramSource::Library { library_name: owned(library_name.as_str()) },
        ProgramSource::Square { x, y, program_index } => ProgramSource::Square { x: *x, y: *y, program_index: *program_index },
    }
}

/// The text a listed program is edited in (see `entry_script`).
fn script_of(entry: &ProgramEntry, generated: &Vec<Vec<String>>, i: usize) -> (r: Vec<String>)
    ensures
        texts_view(r@) == entry_script(pentry(*entry), scripts_view(generated@), i as int),
{
    match &entry.program.source_text {
        Some(t) => copy_lines(t),
        None => if i < generated.len() {
            copy_lines(&generated[i])
        } else {
            let r: Vec<String> = Vec::new();
            assert(texts_view(r@) =~= Seq::<Seq<char>>::empty());
            r
        },
    }
}

/// An editor opened on `lines`.
fn open_editor(lines: Vec<String>) -> (r: ProgramEditor)
    ensures
        r.state() == opened_editor(texts_view(lines@)),
{
    ProgramEditor::new_with_text(lines)
}

/// A sample's label up to ` (` (see `base_name`).
fn base_name_exec(label: &str) -> (r: &str)
    ensures
        r@ == base_name(label@),
{
    match find_exec(label, " (") {
        Some(j) => slice(label, 0, j),
        None => label,
    }
}

impl LibraryGui {
    /// Chooses what to edit and what to ask for at `n` (see `browse_editing`
    /// and `browse_action`).
    fn browse(
        &self,
        library_manager: &LibraryManager,
        grid: &[[Cell; GRID_WIDTH]; GRID_HEIGHT],
        column: LibraryColumn,
        library: &str,
        item: usize,
        keys: LibraryKeys,
        target: Option<(usize, usize)>,
        generated: &Vec<Vec<String>>,
    ) -> (r: (Option<EditingMode>, Option<LibraryGuiAction>))
        requires
            library_manager.wf(),
        ensures
            opt_edit_view(r.0) == browse_editing(
                *library_manager,
                grid@,
                Nav { column, library: library@, item: item as int, scroll: 0 },
                keys,
                target,
                scripts_view(generated@),
            ),
            opt_action_view(r.1) == browse_action(
                *library_manager,
                grid@,
                Nav { column, library: library@, item: item as int, scroll: 0 },
                keys,
                target,
            ),
    {
        let ghost n = Nav { column, library: library@, item: item as int, scroll: 0 };
        let ghost progs = listed_programs(*library_manager, grid@);
        let ghost samples = listed_samples(*library_manager, library@);
        proof {
            reveal_strlit("new_program");
            reveal_strlit("def new_program");
            reveal_strlit("");
            reveal_strlit("auto");
        }
        let mut editing_mode: Option<EditingMode> = None;
        let mut result: Option<LibraryGuiAction> = None;
        if keys.f2 {
            match self.get_selected_item_name(library_manager, &column, library, item, grid) {
                Some(item_name) => {
                    editing_mode = Some(
                        EditingMode::RenameItem { original_name: owned(item_name.as_str()), new_name: item_name },
                    );
                },
                None => {},
            }
        }
        if keys.delete {
            match self.get_selected_item_name(library_manager, &column, library, item, grid) {
                Some(item_name) => {
                    result = Some(
                        LibraryGuiAction::DeleteItem {
                            library_name: owned(library),
                            item_name,
                            is_sample: column == LibraryColumn::Samples,
                        },
                    );
                },
                None => {},
            }
        }
        if keys.shift && keys.space && target.is_none() {
            match column {
                LibraryColumn::Programs => {
                    let initial_text = vec![owned("def new_program"), owned("")];
                    assert(texts_view(initial_text@) =~= new_program_text());
                    editing_mode = Some(
                        EditingMode::CreateProgram { name: owned("new_program"), editor: open_editor(initial_text) },
                    );
                },
                LibraryColumn::Samples => {
                    let all_samples = self.collect_all_samples(library_manager, library);
                    if item < all_samples.len() {
                        assert(sentries(all_samples@)[item as int] == sentry(all_samples@[item as int]));
                        match &all_samples[item].source {
                            SampleSource::Auto => {
                                result = Some(LibraryGuiAction::LoadAutoSample);
                            },
                            SampleSource::Library { library_name } => {
                                result = Some(LibraryGuiAction::LoadSample { library_name: owned(library_name.as_str()) });
                            },
                        }
                    }
                },
            }
        }
        if keys.return_key {
            match column {
                LibraryColumn::Programs => {
                    let all_programs = self.collect_all_programs(library_manager, grid);
                    if item < all_programs.len() {
                        let entry = &all_programs[item];
                        assert(pentries(all_programs@)[item as int] == pentry(*entry));
                        let script = script_of(entry, generated, item);
                        editing_mode = Some(
                            EditingMode::EditProgram {
                                name: owned(entry.name.as_str()),
                                source: copy_source(&entry.source),
                                editor: open_editor(script),
                            },
                        );
                    }
                },
                LibraryColumn::Samples => {
                    let all_samples = self.collect_all_samples(library_manager, library);
                    if item < all_samples.len() {
                        let entry = &all_samples[item];
                        assert(sentries(all_samples@)[item as int] == sentry(*entry));
                        let original_name = base_name_exec(entry.name.as_str());
                        if ends_with_exec(original_name, ".wav") {
                            let library_name = match &entry.source {
                                SampleSource::Auto => owned("auto"),
                                SampleSource::Library { library_name } => owned(library_name.as_str()),
                            };
                            result = Some(
                                LibraryGuiAction::OpenAudioPlayer { library_name, sample_name: owned(original_name) },
                            );
                        }
                    }
                },
            }
        }
        if keys.space && !keys.shift {
            match column {
                LibraryColumn::Programs => {
                    let all_programs = self.collect_all_programs(library_manager, grid);
                    if item < all_programs.len() {
                        let entry = &all_programs[item];
                        assert(pentries(all_programs@)[item as int] == pentry(*entry));
                        match target {
                            Some((square_x, square_y)) => {
                                result = Some(
                                    LibraryGuiAction::LoadProgramToSquare {
                                        program: copy_program(&entry.program),
                                        square_x,
                                        square_y,
                                    },
                                );
                            },
                            None => {
                                let script = script_of(entry, generated, item);
                                editing_mode = Some(
                                    EditingMode::EditProgram {
                                        name: owned(entry.name.as_str()),
                                        source: copy_source(&entry.source),
                                        editor: open_editor(script),
                                    },
                                );
                            },
                        }
                    }
                },
                LibraryColumn::Samples => {
                    result = Some(LibraryGuiAction::LoadSample { library_name: owned(library) });
                },
            }
        }
        (editing_mode, result)
    }
}

/// Whether the text of the program `e` edits, if any, can be read back, as
/// saving and compiling it asks.
pub open spec fn edit_text_reads(e: EditingMode) -> bool {
    match e {
        EditingMode::CreateProgram { editor, .. } => !(spec_programs(join_lines(editor.state().lines)) is Panic),
        EditingMode::EditProgram { editor, .. } => !(spec_programs(join_lines(editor.state().lines)) is Panic),
        EditingMode::RenameItem { .. } => true,
    }
}

impl LibraryGui {
    /// Goes on with editing `edit_mode` after a frame's keys and the editor's
    /// own answer (see `editing_result` and `editing_ends`).
    fn handle_editing_input(
        &mut self,
        keys: LibraryKeys,
        edit_mode: EditingMode,
        editor_action: ProgramEditorAction,
        column: LibraryColumn,
        library: String,
        item: usize,
        scroll: usize,
    ) -> (r: Option<LibraryGuiAction>)
        requires
            editor_action is SaveAndCompile ==> edit_text_reads(edit_mode),
        ensures
            opt_action_view(r) == editing_result(edit_view(edit_mode), keys, editor_action, library@),
            shows(
                final(self).state,
                Nav { column, library: library@, item: item as int, scroll: scroll as int },
                if editing_ends(edit_view(edit_mode), keys, editor_action) {
                    None
                } else {
                    Some(edit_view(edit_mode))
                },
                None,
            ),
            final(self).last_key_repeat == old(self).last_key_repeat,
            final(self).key_repeat_delay == old(self).key_repeat_delay,
            final(self).key_repeat_rate == old(self).key_repeat_rate,
    {
        proof {
            reveal_strlit("lib");
        }
        let ends: bool;
        let result: Option<LibraryGuiAction>;
        match &edit_mode {
            EditingMode::RenameItem { original_name, new_name } => {
                if keys.return_key {
                    result = Some(
                        LibraryGuiAction::RenameItem {
                            library_name: owned(library.as_str()),
                            old_name: owned(original_name.as_str()),
                            new_name: owned(new_name.as_str()),
                            is_sample: true,
                        },
                    );
                    ends = true;
                } else {
                    result = None;
                    ends = keys.escape;
                }
            },
            EditingMode::CreateProgram { name: _, editor } => match editor_action {
                ProgramEditorAction::SaveAndCompile => {
                    let program = editor.get_program();
                    result = Some(
                        LibraryGuiAction::CreateProgram {
                            library_name: owned("lib"),
                            name: owned(program.name.as_str()),
                            program,
                        },
                    );
                    ends = true;
                },
                ProgramEditorAction::SaveProgram(program) => {
                    result = Some(
                        LibraryGuiAction::CreateProgram {
                            library_name: owned("lib"),
                            name: owned(program.name.as_str()),
                            program,
                        },
                    );
                    ends = true;
                },
                ProgramEditorAction::CloseWithoutSaving => {
                    result = None;
                    ends = true;
                },
                ProgramEditorAction::Continue => {
                    result = None;
                    ends = false;
                },
                ProgramEditorAction::NoAction => {
                    result = None;
                    ends = false;
                },
            },
            EditingMode::EditProgram { name, source, editor } => match editor_action {
                ProgramEditorAction::SaveAndCompile => {
                    let program = editor.get_program();
                    let raw_text = editor.get_program_text();
                    result = Some(
                        LibraryGuiAction::EditProgram {
                            source: copy_source(source),
                            name: owned(name.as_str()),
                            program,
                            raw_text,
                        },
                    );
                    ends = true;
                },
                ProgramEditorAction::SaveProgram(program) => {
                    let raw_text = editor.get_program_text();
                    result = Some(
                        LibraryGuiAction::EditProgram {
                            source: copy_source(source),
                            name: owned(name.as_str()),
                            program,
                            raw_text,
                        },
                    );
                    ends = true;
                },
                ProgramEditorAction::CloseWithoutSaving => {
                    result = None;
                    ends = true;
                },
                ProgramEditorAction::Continue => {
                    result = None;
                    ends = false;
                },
                ProgramEditorAction::NoAction => {
                    result = None;
                    ends = false;
                },
            },
        }
        let editing_mode = if ends {
            None
        } else {
            Some(edit_mode)
        };
        self.state = LibraryGuiState::Visible {
            selected_column: column,
            selected_library: library,
            selected_item: item,
            scroll_offset: scroll,
            editing_mode,
            target_square: None,
        };
        result
    }

    /// Handles a frame's keys. A hidden window does nothing. While a program
    /// or a name is edited (with no square waiting for a program), the keys
    /// and `editor_action`, what the editor made of them, go to the editing
    /// (see `editing_result`). Otherwise Escape hides the window; any other
    /// keys move it (see `navigated`), then choose what to edit
    /// (`browse_editing`) and what to ask for (`browse_action`). `generated`
    /// holds, for each listed program, its text written back from its
    /// instructions, used where it keeps no text of its own.
    pub fn handle_input(
        &mut self,
        keys: LibraryKeys,
        editor_action: ProgramEditorAction,
        library_manager: &LibraryManager,
        grid: &[[Cell; GRID_WIDTH]; GRID_HEIGHT],
        generated: &Vec<Vec<String>>,
    ) -> (r: Option<LibraryGuiAction>)
        requires
            library_manager.wf(),
            editor_action is SaveAndCompile ==> editing_text_reads(old(self).state),
        ensures
            final(self).last_key_repeat == old(self).last_key_repeat,
            final(self).key_repeat_delay == old(self).key_repeat_delay,
            final(self).key_repeat_rate == old(self).key_repeat_rate,
            old(self).state is Hidden ==> r is None && final(self).state is Hidden,
            old(self).state is Visible && target_of(old(self).state) is None && editing_of(old(self).state) is Some ==> {
                let e = editing_of(old(self).state)->0;
                &&& opt_action_view(r) == editing_result(e, keys, editor_action, nav_of(old(self).state).library)
                &&& shows(
                    final(self).state,
                    nav_of(old(self).state),
                    if editing_ends(e, keys, editor_action) {
                        None
                    } else {
                        Some(e)
                    },
                    None,
                )
            },
            old(self).state is Visible && !(target_of(old(self).state) is None && editing_of(old(self).state) is Some)
                ==> if keys.escape {
                r is None && final(self).state is Hidden
            } else {
                let n = navigated(*library_manager, grid@, nav_of(old(self).state), keys);
                let t = target_of(old(self).state);
                &&& opt_action_view(r) == browse_action(*library_manager, grid@, n, keys, t)
                &&& shows(
                    final(self).state,
                    n,
                    browse_editing(*library_manager, grid@, n, keys, t, scripts_view(generated@)),
                    t,
                )
            },
    {
        let mut state = LibraryGuiState::Hidden;
        std::mem::swap(&mut state, &mut self.state);
        match state {
            LibraryGuiState::Hidden => None,
            LibraryGuiState::Visible {
                selected_column,
                selected_library,
                selected_item,
                scroll_offset,
                editing_mode,
                target_square,
            } => {
                if target_square.is_none() && editing_mode.is_some() {
                    let edit_mode = editing_mode.unwrap();
                    return self.handle_editing_input(
                        keys,
                        edit_mode,
                        editor_action,
                        selected_column,
                        selected_library,
                        selected_item,
                        scroll_offset,
                    );
                }
                if keys.escape {
                    return None;
                }
                let (column, library, item, scroll) = self.navigate(
                    library_manager,
                    grid,
                    selected_column,
                    selected_library,
                    selected_item,
                    scroll_offset,
                    keys,
                );
                let (editing, result) = self.browse(
                    library_manager,
                    grid,
                    column,
                    library.as_str(),
                    item,
                    keys,
                    target_square,
                    generated,
                );
                let ghost n = Nav { column, library: library@, item: item as int, scroll: scroll as int };
                let ghost n0 = Nav { column, library: library@, item: item as int, scroll: 0 };
                assert(browse_action(*library_manager, grid@, n, keys, target_square) == browse_action(
                    *library_manager,
                    grid@,
                    n0,
                    keys,
                    target_square,
                ));
                assert(browse_editing(*library_manager, grid@, n, keys, target_square, scripts_view(generated@))
                    == browse_editing(*library_manager, grid@, n0, keys, target_square, scripts_view(generated@)));
                self.state = LibraryGuiState::Visible {
                    selected_column: column,
                    selected_library: library,
                    selected_item: item,
                    scroll_offset: scroll,
                    editing_mode: editing,
                    target_square,
                };
                result
            },
        }
    }
}

// ---------------------------------------------------------------------------
// Laws of moving about the window

/// The keys of a frame in which only the given keys are pressed.
pub open spec fn only_keys(tab: bool, left: bool, right: bool, up: bool, down: bool) -> LibraryKeys {
    LibraryKeys {
        escape: false,
        tab,
        left,
        right,
        up,
        down,
        f2: false,
        delete: false,
        shift: false,
        space: false,
        return_key: false,
    }
}

/// Whether the selected item is among the `MAX_VISIBLE_ITEMS` shown.
pub open spec fn item_shown(n: Nav) -> bool {
    n.scroll <= n.item < n.scroll + MAX_VISIBLE_ITEMS
}

/// Tab pressed twice comes back to the same column and library, at the first item.
pub proof fn lemma_tab_twice(lm: LibraryManager, grid: Seq<[Cell; GRID_WIDTH]>, n: Nav)
    ensures
        navigated(lm, grid, navigated(lm, grid, n, only_keys(true, false, false, false, false)), only_keys(true, false, false, false, false))
            == (Nav { column: n.column, library: n.library, item: 0, scroll: 0 }),
{
}

/// Whatever keys are pressed, a selected item that is shown stays shown.
pub proof fn lemma_navigation_keeps_item_shown(lm: LibraryManager, grid: Seq<[Cell; GRID_WIDTH]>, n: Nav, k: LibraryKeys)
    requires
        item_shown(n),
    ensures
        item_shown(navigated(lm, grid, n, k)),
{
}

/// Whatever keys are pressed, the selected item stays the first one or one
/// the column lists.
pub proof fn lemma_navigation_keeps_item_listed(lm: LibraryManager, grid: Seq<[Cell; GRID_WIDTH]>, n: Nav, k: LibraryKeys)
    requires
        n.item == 0 || 0 <= n.item < item_count(lm, grid, n.column, n.library),
    ensures
        navigated(lm, grid, n, k).item == 0 || 0 <= navigated(lm, grid, n, k).item < item_count(
            lm,
            grid,
            navigated(lm, grid, n, k).column,
            navigated(lm, grid, n, k).library,
        ),
{
}

/// Down after Up comes back to the item, below the first one, that was selected.
pub proof fn lemma_up_then_down(lm: LibraryManager, grid: Seq<[Cell; GRID_WIDTH]>, n: Nav)
    requires
        0 < n.item < item_count(lm, grid, n.column, n.library),
    ensures
        navigated(lm, grid, navigated(lm, grid, n, only_keys(false, false, false, true, false)), only_keys(false, false, false, false, true)).item
            == n.item,
        navigated(lm, grid, navigated(lm, grid, n, only_keys(false, false, false, true, false)), only_keys(false, false, false, false, true)).column
            == n.column,
        navigated(lm, grid, navigated(lm, grid, n, only_keys(false, false, false, true, false)), only_keys(false, false, false, false, true)).library
            == n.library,
{
}

/// Right after Left comes back to the function library that was selected.
pub proof fn lemma_left_then_right(lm: LibraryManager, lib: Seq<char>)
    requires
        lm.wf(),
        lm.function_libraries@.contains_key(lib),
    ensures
        next_library(lm, next_library(lm, lib, true), false) == lib,
{
    let libs = lm.function_libraries;
    let n = libs.names@.len() as int;
    let p = libs.place(lib);
    libs.lemma_place(p);
    let i = if p == 0 {
        n - 1
    } else {
        p - 1
    };
    libs.lemma_place(i);
    assert((i + 1) % n == p) by (nonlinear_arith)
        requires
            0 <= p < n,
            i == if p == 0 {
                n - 1
            } else {
                p - 1
            },
    ;
}

// ---------------------------------------------------------------------------
// Drawing the columns

/// How many items a column shows from item `scroll` on, of `n`.
pub open spec fn shown_count(n: int, scroll: int) -> int {
    if scroll >= n {
        0
    } else if n - scroll < MAX_VISIBLE_ITEMS {
        n - scroll
    } else {
        MAX_VISIBLE_ITEMS as int
    }
}

/// The colour of an item's name, yellow when selected.
pub open spec fn item_text_color(selected: bool) -> [u8; 3] {
    if selected {
        [255u8, 255, 100]
    } else {
        [220u8, 220, 220]
    }
}

/// The colour of a sample's icon: orange for automatic samples, blue for
/// those of a library; brighter when selected.
pub open spec fn sample_icon_color(e: SEntry, selected: bool) -> [u8; 3] {
    match e.library {
        None => if selected {
            [255u8, 150, 100]
        } else {
            [180u8, 120, 80]
        },
        Some(_) => if selected {
            [100u8, 200, 255]
        } else {
            [120u8, 120, 150]
        },
    }
}

/// A program's icon and its colour: books for a library function, a bolt
/// for a square's program; brighter when selected.
pub open spec fn program_icon(e: PEntry, selected: bool) -> (Seq<char>, [u8; 3]) {
    match e.source {
        PSource::Library(_) => (
            "📚"@,
            if selected {
                [100u8, 255, 100]
            } else {
                [100u8, 150, 100]
            },
        ),
        PSource::Square(_, _, _) => (
            "⚡"@,
            if selected {
                [255u8, 200, 100]
            } else {
                [150u8, 120, 80]
            },
        ),
    }
}

/// The texts of the samples column at `(x, y)` showing the samples `s` from
/// item `scroll` on: for each shown row, 22 pixels apart from 45 below the
/// top, its icon and its name, the selected one (`item`, where the column
/// is selected) marked.
pub open spec fn sample_column_runs(s: Seq<SEntry>, x: int, y: int, selected: bool, item: int, scroll: int) -> Seq<
    (Seq<char>, usize, usize, [u8; 3], bool),
> {
    Seq::new(
        (2 * shown_count(s.len() as int, scroll)) as nat,
        |j: int|
            {
                let i = scroll + j / 2;
                let row_y = y + 45 + (j / 2) * 22;
                let sel = selected && i == item;
                if j % 2 == 0 {
                    run("♪"@, x + 15, row_y, sample_icon_color(s[i], sel), false)
                } else {
                    run(s[i].name, x + 30, row_y, item_text_color(sel), sel)
                }
            },
    )
}

/// The texts of the programs column at `(x, y)` showing the programs `p`
/// from item `scroll` on: the row of item `i` lies `22 * i` pixels below
/// the first (counted from the first item, not the first shown), and is
/// marked when `i + scroll` is the selected item.
pub open spec fn program_column_runs(p: Seq<PEntry>, x: int, y: int, selected: bool, item: int, scroll: int) -> Seq<
    (Seq<char>, usize, usize, [u8; 3], bool),
> {
    Seq::new(
        (2 * shown_count(p.len() as int, scroll)) as nat,
        |j: int|
            {
                let i = scroll + j / 2;
                let row_y = y + 45 + i * 22;
                let sel = selected && i + scroll == item;
                if j % 2 == 0 {
                    run(program_icon(p[i], sel).0, x + 15, row_y, program_icon(p[i], sel).1, false)
                } else {
                    run(p[i].name, x + 30, row_y, item_text_color(sel), sel)
                }
            },
    )
}

/// The frame `f`, `window_width` pixels wide, with the selected row of a
/// column lit: `width` pixels from 8 right of `x`, from 2 above the row's
/// top `row_y` for 20 rows.
pub open spec fn lit_row(f: Seq<u8>, window_width: int, x: int, row_y: int, width: int) -> Seq<u8> {
    brighten(f, window_width, (f.len() as int) / (window_width * 4), x + 8, row_y - 2, x + 8 + width, row_y + 18, seq![25u8, 25, 35])
}

proof fn lemma_window_rows(len: int, w: int)
    requires
        w > 0,
        len >= 0,
    ensures
        (len / (w * 4)) * w * 4 <= len,
{
    assert((len / (w * 4)) * (w * 4) <= len) by (nonlinear_arith)
        requires
            w * 4 > 0,
            len >= 0,
    ;
    assert((len / (w * 4)) * w * 4 == (len / (w * 4)) * (w * 4)) by (nonlinear_arith);
}

impl LibraryGui {
    /// Draws the samples column at `(x, y)`: lights the selected row (see
    /// `lit_row`, 270 pixels wide) and hands back the texts to be drawn with
    /// the font (see `sample_column_runs`).
    pub fn draw_sample_column(
        &self,
        frame: &mut [u8],
        x: usize,
        y: usize,
        library_manager: &LibraryManager,
        selected_library: &str,
        selected_column: &LibraryColumn,
        selected_item: usize,
        scroll_offset: usize,
        window_width: usize,
    ) -> (runs: Vec<TextRun>)
        requires
            library_manager.wf(),
            window_width > 0,
            window_width * 4 <= usize::MAX,
            x + 300 <= usize::MAX,
            y + 45 + 16 * 22 + 18 <= usize::MAX,
        ensures
            ({
                let s = listed_samples(*library_manager, selected_library@);
                let sel = *selected_column == LibraryColumn::Samples;
                let lit = sel && scroll_offset <= selected_item < scroll_offset + shown_count(s.len() as int, scroll_offset as int);
                &&& final(frame)@ == if lit {
                    lit_row(old(frame)@, window_width as int, x as int, y + 45 + (selected_item - scroll_offset) * 22, 270)
                } else {
                    old(frame)@
                }
                &&& runs_view(runs@) == sample_column_runs(s, x as int, y as int, sel, selected_item as int, scroll_offset as int)
            }),
    {
        proof {
            reveal_strlit("♪");
        }
        let all_samples = self.collect_all_samples(library_manager, selected_library);
        let ghost s = listed_samples(*library_manager, selected_library@);
        let is_column_selected = *selected_column == LibraryColumn::Samples;
        let n = all_samples.len();
        let count: usize = if scroll_offset >= n {
            0
        } else if n - scroll_offset < MAX_VISIBLE_ITEMS {
            n - scroll_offset
        } else {
            MAX_VISIBLE_ITEMS
        };
        if is_column_selected && scroll_offset <= selected_item && selected_item - scroll_offset < count {
            let height = frame.len() / (window_width * 4);
            proof {
                lemma_window_rows(frame@.len() as int, window_width as int);
            }
            let row_y = y + 45 + (selected_item - scroll_offset) * 22;
            brighten_rect(frame, window_width, height, x + 8, row_y - 2, x + 278, row_y + 18, [25, 25, 35]);
        }
        let ghost want = sample_column_runs(s, x as int, y as int, is_column_selected, selected_item as int, scroll_offset as int);
        let mut runs: Vec<TextRun> = Vec::new();
        let mut k: usize = 0;
        while k < count
            invariant
                k <= count,
                count == shown_count(s.len() as int, scroll_offset as int),
                count <= MAX_VISIBLE_ITEMS,
                count > 0 ==> scroll_offset + count <= all_samples@.len(),
                n == all_samples@.len(),
                sentries(all_samples@) == s,
                y + 45 + 16 * 22 + 18 <= usize::MAX,
                x + 300 <= usize::MAX,
                want == sample_column_runs(s, x as int, y as int, is_column_selected, selected_item as int, scroll_offset as int),
                runs_view(runs@) == want.take(2 * k),
            decreases count - k,
        {
            let i = scroll_offset + k;
            let entry = &all_samples[i];
            assert(sentries(all_samples@)[i as int] == sentry(*entry));
            let row_y = y + 45 + k * 22;
            let sel = is_column_selected && i == selected_item;
            let icon_color: [u8; 3] = match &entry.source {
                SampleSource::Auto => if sel {
                    [255, 150, 100]
                } else {
                    [180, 120, 80]
                },
                SampleSource::Library { .. } => if sel {
                    [100, 200, 255]
                } else {
                    [120, 120, 150]
                },
            };
            let text_color: [u8; 3] = if sel {
                [255, 255, 100]
            } else {
                [220, 220, 220]
            };
            let ghost before = runs@;
            runs.push(TextRun { text: owned("♪"), x: x + 15, y: row_y, color: icon_color, selected: false });
            runs.push(TextRun { text: owned(entry.name.as_str()), x: x + 30, y: row_y, color: text_color, selected: sel });
            assert(want[2 * k as int] == run("♪"@, x + 15, row_y as int, icon_color, false));
            assert(want[2 * k + 1] == run(entry.name@, x + 30, row_y as int, text_color, sel));
            assert(runs_view(runs@) =~= runs_view(before).push(want[2 * k as int]).push(want[2 * k + 1]));
            assert(want.take(2 * (k + 1)) =~= want.take(2 * k).push(want[2 * k as int]).push(want[2 * k + 1]));
            k = k + 1;
        }
        assert(want.take(2 * k) =~= want);
        runs
    }

    /// Draws the programs column at `(x, y)`: lights the selected row (see
    /// `lit_row`, 260 pixels wide) and hands back the texts to be drawn with
    /// the font (see `program_column_runs`).
    pub fn draw_program_column(
        &self,
        frame: &mut [u8],
        x: usize,
        y: usize,
        library_manager: &LibraryManager,
        grid: &[[Cell; GRID_WIDTH]; GRID_HEIGHT],
        selected_column: &LibraryColumn,
        selected_item: usize,
        scroll_offset: usize,
        window_width: usize,
    ) -> (runs: Vec<TextRun>)
        requires
            library_manager.wf(),
            window_width > 0,
            window_width * 4 <= usize::MAX,
            x + 300 <= usize::MAX,
            y + 45 + (scroll_offset + 16) * 22 + 18 <= usize::MAX,
        ensures
            ({
                let p = listed_programs(*library_manager, grid@);
                let sel = *selected_column == LibraryColumn::Programs;
                let lit = sel && 2 * scroll_offset <= selected_item < 2 * scroll_offset + shown_count(
                    p.len() as int,
                    scroll_offset as int,
                );
                &&& final(frame)@ == if lit {
                    lit_row(old(frame)@, window_width as int, x as int, y + 45 + (selected_item - scroll_offset) * 22, 260)
                } else {
                    old(frame)@
                }
                &&& runs_view(runs@) == program_column_runs(p, x as int, y as int, sel, selected_item as int, scroll_offset as int)
            }),
    {
        proof {
            reveal_strlit("📚");
            reveal_strlit("⚡");
        }
        let all_programs = self.collect_all_programs(library_manager, grid);
        let ghost p = listed_programs(*library_manager, grid@);
        let is_column_selected = *selected_column == LibraryColumn::Programs;
        let n = all_programs.len();
        let count: usize = if scroll_offset >= n {
            0
        } else if n - scroll_offset < MAX_VISIBLE_ITEMS {
            n - scroll_offset
        } else {
            MAX_VISIBLE_ITEMS
        };
        if is_column_selected && scroll_offset <= selected_item && selected_item - scroll_offset >= scroll_offset
            && selected_item - scroll_offset - scroll_offset < count {
            let height = frame.len() / (window_width * 4);
            proof {
                lemma_window_rows(frame@.len() as int, window_width as int);
            }
            let row_y = y + 45 + (selected_item - scroll_offset) * 22;
            brighten_rect(frame, window_width, height, x + 8, row_y - 2, x + 268, row_y + 18, [25, 25, 35]);
        }
        let ghost want = program_column_runs(p, x as int, y as int, is_column_selected, selected_item as int, scroll_offset as int);
        let mut runs: Vec<TextRun> = Vec::new();
        let mut k: usize = 0;
        while k < count
            invariant
                k <= count,
                count == shown_count(p.len() as int, scroll_offset as int),
                count <= MAX_VISIBLE_ITEMS,
                count > 0 ==> scroll_offset + count <= all_programs@.len(),
                pentries(all_programs@) == p,
                y + 45 + (scroll_offset + 16) * 22 + 18 <= usize::MAX,
                x + 300 <= usize::MAX,
                want == program_column_runs(p, x as int, y as int, is_column_selected, selected_item as int, scroll_offset as int),
                runs_view(runs@) == want.take(2 * k),
            decreases count - k,
        {
            let i = scroll_offset + k;
            let entry = &all_programs[i];
            assert(pentries(all_programs@)[i as int] == pentry(*entry));
            let row_y = y + 45 + i * 22;
            let sel = is_column_selected && i + scroll_offset == selected_item;
            let (icon, icon_color): (&str, [u8; 3]) = match &entry.source {
                ProgramSource::Library { .. } => ("📚", if sel {
                    [100, 255, 100]
                } else {
                    [100, 150, 100]
                }),
                ProgramSource::Square { .. } => ("⚡", if sel {
                    [255, 200, 100]
                } else {
                    [150, 120, 80]
                }),
            };
            let text_color: [u8; 3] = if sel {
                [255, 255, 100]
            } else {
                [220, 220, 220]
            };
            let ghost before = runs@;
            runs.push(TextRun { text: owned(icon), x: x + 15, y: row_y, color: icon_color, selected: false });
            runs.push(TextRun { text: owned(entry.name.as_str()), x: x + 30, y: row_y, color: text_color, selected: sel });
            assert(want[2 * k as int] == run(icon@, x + 15, row_y as int, icon_color, false));
            assert(want[2 * k + 1] == run(entry.name@, x + 30, row_y as int, text_color, sel));
            assert(runs_view(runs@) =~= runs_view(before).push(want[2 * k as int]).push(want[2 * k + 1]));
            assert(want.take(2 * (k + 1)) =~= want.take(2 * k).push(want[2 * k as int]).push(want[2 * k + 1]));
            k = k + 1;
        }
        assert(want.take(2 * k) =~= want);
        runs
    }
}

// ---------------------------------------------------------------------------
// Laws of the programs column

/// A listed square program: the listable program at place `k` of the square
/// on cell `(x, y)`, under its own name.
pub open spec fn square_entry_ok(e: PEntry, grid: Seq<[Cell; GRID_WIDTH]>) -> bool {
    match e.source {
        PSource::Square(x, y, k) => {
            let c = grid[y as int]@[x as int];
            &&& x < GRID_WIDTH
            &&& y < GRID_HEIGHT
            &&& c.content == CellContent::Square
            &&& k < c.program.programs@.len()
            &&& e.program == c.program.programs@[k as int]@
            &&& e.name == e.program.name
            &&& is_listed_square_program(e.program)
        },
        PSource::Library(_) => false,
    }
}

/// A listed library function: a function of library `l` under its name,
/// not one the window leaves out.
pub open spec fn library_entry_ok(e: PEntry, lm: LibraryManager) -> bool {
    match e.source {
        PSource::Library(l) => {
            &&& !is_hidden_function(l, e.name)
            &&& lm.function_libraries@.contains_key(l)
            &&& lm.function_libraries@[l].functions@.contains_key(e.name)
            &&& lm.function_libraries@[l].functions@[e.name]@ == e.program
        },
        PSource::Square(_, _, _) => false,
    }
}

pub open spec fn all_entries(s: Seq<PEntry>, p: spec_fn(PEntry) -> bool) -> bool {
    forall|i: int| 0 <= i < s.len() ==> #[trigger] p(s[i])
}

pub open spec fn distinct_names(s: Seq<PEntry>) -> bool {
    forall|i: int, j: int| 0 <= i < j < s.len() ==> #[trigger] s[i].name != #[trigger] s[j].name
}

proof fn lemma_all_entries_append(a: Seq<PEntry>, b: Seq<PEntry>, p: spec_fn(PEntry) -> bool)
    requires
        all_entries(a, p),
        all_entries(b, p),
    ensures
        all_entries(a + b, p),
{
    assert forall|i: int| 0 <= i < (a + b).len() implies #[trigger] p((a + b)[i]) by {
        if i < a.len() {
            assert((a + b)[i] == a[i]);
        } else {
            assert((a + b)[i] == b[i - a.len()]);
        }
    }
}

/// Adding programs keeps what was there in front, adds only programs of `s`,
/// and keeps names distinct.
proof fn lemma_add_entries_shape(acc: Seq<PEntry>, s: Seq<PEntry>, p: spec_fn(PEntry) -> bool)
    ensures
        add_entries(acc, s).len() >= acc.len(),
        add_entries(acc, s).take(acc.len() as int) == acc,
        all_entries(s, p) ==> all_entries(add_entries(acc, s).skip(acc.len() as int), p),
        distinct_names(acc) ==> distinct_names(add_entries(acc, s)),
    decreases s.len(),
{
    if s.len() == 0 {
        assert(acc.take(acc.len() as int) =~= acc);
        assert(acc.skip(acc.len() as int) =~= Seq::<PEntry>::empty());
    } else {
        let prev = add_entries(acc, s.drop_last());
        lemma_add_entries_shape(acc, s.drop_last(), p);
        let e = s.last();
        if all_entries(s, p) {
            assert forall|i: int| 0 <= i < s.drop_last().len() implies #[trigger] p(s.drop_last()[i]) by {
                assert(s.drop_last()[i] == s[i]);
            }
        }
        if entry_names(prev).contains(e.name) {
        } else {
            let r = prev.push(e);
            assert(r.take(acc.len() as int) =~= prev.take(acc.len() as int));
            if all_entries(s, p) {
                assert(p(s[s.len() - 1]));
                assert forall|i: int| 0 <= i < r.skip(acc.len() as int).len() implies #[trigger] p(
                    r.skip(acc.len() as int)[i],
                ) by {
                    if acc.len() + i < prev.len() {
                        assert(r.skip(acc.len() as int)[i] == prev.skip(acc.len() as int)[i]);
                    } else {
                        assert(r.skip(acc.len() as int)[i] == e);
                    }
                }
            }
            if distinct_names(acc) {
                assert forall|i: int, j: int| 0 <= i < j < r.len() implies #[trigger] r[i].name != #[trigger] r[j].name by {
                    if j == prev.len() {
                        if r[i].name == e.name {
                            assert(entry_names(prev)[i] == e.name);
                        }
                    } else {
                        assert(r[i] == prev[i]);
                        assert(r[j] == prev[j]);
                    }
                }
            }
        }
    }
}

/// Adding two runs of programs is adding the first, then the second.
proof fn lemma_add_entries_concat(acc: Seq<PEntry>, a: Seq<PEntry>, b: Seq<PEntry>)
    ensures
        add_entries(acc, a + b) == add_entries(add_entries(acc, a), b),
    decreases b.len(),
{
    if b.len() == 0 {
        assert(a + b =~= a);
    } else {
        lemma_add_entries_concat(acc, a, b.drop_last());
        assert((a + b).drop_last() =~= a + b.drop_last());
        assert((a + b).last() == b.last());
    }
}

proof fn lemma_cell_candidates_ok(grid: Seq<[Cell; GRID_WIDTH]>, x: int, y: int, n: int)
    requires
        0 <= x < GRID_WIDTH,
        0 <= y < GRID_HEIGHT,
        grid[y]@[x].content == CellContent::Square,
        n <= grid[y]@[x].program.programs@.len(),
    ensures
        all_entries(
            cell_candidates(grid[y]@[x].program.programs@, x, y, n),
            |e: PEntry| square_entry_ok(e, grid),
        ),
    decreases n,
{
    let programs = grid[y]@[x].program.programs@;
    if n > 0 {
        lemma_cell_candidates_ok(grid, x, y, n - 1);
        let p = programs[n - 1]@;
        let tail = if is_listed_square_program(p) {
            seq![PEntry { name: p.name, program: p, source: PSource::Square(x as usize, y as usize, (n - 1) as usize) }]
        } else {
            Seq::empty()
        };
        assert(all_entries(tail, |e: PEntry| square_entry_ok(e, grid))) by {
            if is_listed_square_program(p) {
                let e = tail[0];
                assert((x as usize) as int == x);
                assert((y as usize) as int == y);
                assert(grid[y]@[x].program.programs.len() == programs.len());
                assert(((n - 1) as usize) as int == n - 1);
                assert(e.source == PSource::Square(x as usize, y as usize, (n - 1) as usize));
                assert(e.program == grid[y]@[x].program.programs@[n - 1]@);
                assert(square_entry_ok(e, grid));
            }
        }
        lemma_all_entries_append(cell_candidates(programs, x, y, n - 1), tail, |e: PEntry| square_entry_ok(e, grid));
    }
}

proof fn lemma_row_candidates_ok(grid: Seq<[Cell; GRID_WIDTH]>, y: int, n: int)
    requires
        0 <= y < GRID_HEIGHT,
        n <= GRID_WIDTH,
    ensures
        all_entries(row_candidates(grid[y]@, y, n), |e: PEntry| square_entry_ok(e, grid)),
    decreases n,
{
    if n > 0 {
        lemma_row_candidates_ok(grid, y, n - 1);
        let c = grid[y]@[n - 1];
        let tail = if c.content == CellContent::Square {
            cell_candidates(c.program.programs@, n - 1, y, c.program.programs@.len() as int)
        } else {
            Seq::empty()
        };
        if c.content == CellContent::Square {
            lemma_cell_candidates_ok(grid, n - 1, y, c.program.programs@.len() as int);
        }
        lemma_all_entries_append(row_candidates(grid[y]@, y, n - 1), tail, |e: PEntry| square_entry_ok(e, grid));
    }
}

proof fn lemma_grid_candidates_ok(grid: Seq<[Cell; GRID_WIDTH]>, n: int)
    requires
        n <= GRID_HEIGHT,
    ensures
        all_entries(grid_candidates(grid, n), |e: PEntry| square_entry_ok(e, grid)),
    decreases n,
{
    if n > 0 {
        lemma_grid_candidates_ok(grid, n - 1);
        lemma_row_candidates_ok(grid, n - 1, GRID_WIDTH as int);
        lemma_all_entries_append(
            grid_candidates(grid, n - 1),
            row_candidates(grid[n - 1]@, n - 1, GRID_WIDTH as int),
            |e: PEntry| square_entry_ok(e, grid),
        );
    }
}

proof fn lemma_function_candidates_ok(lm: LibraryManager, j: int, n: int)
    requires
        lm.wf(),
        0 <= j < lm.function_libraries.names@.len(),
        n <= lm.function_libraries.values@[j].functions.names@.len(),
    ensures
        all_entries(
            function_candidates(
                lm.function_libraries.names@[j]@,
                lm.function_libraries.values@[j].functions.names@,
                lm.function_libraries.values@[j].functions.values@,
                n,
            ),
            |e: PEntry| library_entry_ok(e, lm),
        ),
    decreases n,
{
    let lib = lm.function_libraries.names@[j]@;
    let f = lm.function_libraries.values@[j].functions;
    if n > 0 {
        lemma_function_candidates_ok(lm, j, n - 1);
        lm.function_libraries.lemma_place(j);
        assert(f.wf());
        f.lemma_place(n - 1);
        let tail = if is_hidden_function(lib, f.names@[n - 1]@) {
            Seq::empty()
        } else {
            seq![PEntry { name: f.names@[n - 1]@, program: f.values@[n - 1]@, source: PSource::Library(lib) }]
        };
        assert(all_entries(tail, |e: PEntry| library_entry_ok(e, lm))) by {
            if !is_hidden_function(lib, f.names@[n - 1]@) {
                assert(library_entry_ok(tail[0], lm));
            }
        }
        lemma_all_entries_append(
            function_candidates(lib, f.names@, f.values@, n - 1),
            tail,
            |e: PEntry| library_entry_ok(e, lm),
        );
    }
}

proof fn lemma_library_candidates_ok(lm: LibraryManager, n: int)
    requires
        lm.wf(),
        n <= lm.function_libraries.names@.len(),
    ensures
        all_entries(library_candidates(lm, n), |e: PEntry| library_entry_ok(e, lm)),
    decreases n,
{
    if n > 0 {
        lemma_library_candidates_ok(lm, n - 1);
        let lib = lm.function_libraries.values@[n - 1];
        lm.function_libraries.lemma_place(n - 1);
        assert(lib.wf());
        lemma_function_candidates_ok(lm, n - 1, lib.functions.names@.len() as int);
        lemma_all_entries_append(
            library_candidates(lm, n - 1),
            function_candidates(
                lm.function_libraries.names@[n - 1]@,
                lib.functions.names@,
                lib.functions.values@,
                lib.functions.names@.len() as int,
            ),
            |e: PEntry| library_entry_ok(e, lm),
        );
    }
}

/// The programs column lists each name once; its square programs come
/// first, each the listable program at its place on a square of the grid;
/// then the library functions, each a function of its library that the
/// window does not leave out.
pub proof fn lemma_listed_programs(lm: LibraryManager, grid: Seq<[Cell; GRID_WIDTH]>)
    requires
        lm.wf(),
    ensures
        distinct_names(listed_programs(lm, grid)),
        forall|i: int|
            0 <= i < listed_programs(lm, grid).len() ==> (#[trigger] listed_programs(lm, grid)[i]).source is Square
                ==> square_entry_ok(listed_programs(lm, grid)[i], grid),
        forall|i: int|
            0 <= i < listed_programs(lm, grid).len() ==> (#[trigger] listed_programs(lm, grid)[i]).source is Library
                ==> library_entry_ok(listed_programs(lm, grid)[i], lm),
        forall|i: int, j: int|
            0 <= i < j < listed_programs(lm, grid).len() && (#[trigger] listed_programs(lm, grid)[j]).source is Square
                ==> (#[trigger] listed_programs(lm, grid)[i]).source is Square,
{
    let g = grid_candidates(grid, GRID_HEIGHT as int);
    let l = library_candidates(lm, lm.function_libraries.names@.len() as int);
    let sq = |e: PEntry| square_entry_ok(e, grid);
    let li = |e: PEntry| library_entry_ok(e, lm);
    let empty = Seq::<PEntry>::empty();
    lemma_grid_candidates_ok(grid, GRID_HEIGHT as int);
    lemma_library_candidates_ok(lm, lm.function_libraries.names@.len() as int);
    lemma_add_entries_concat(empty, g, l);
    let a = add_entries(empty, g);
    let r = add_entries(a, l);
    assert(r == listed_programs(lm, grid));
    lemma_add_entries_shape(empty, g, sq);
    lemma_add_entries_shape(a, l, li);
    assert(distinct_names(empty));
    assert(a.skip(0) =~= a);
    assert forall|i: int| 0 <= i < r.len() implies ((#[trigger] r[i]).source is Square ==> square_entry_ok(r[i], grid))
        && ((r[i]).source is Library ==> library_entry_ok(r[i], lm)) by {
        if i < a.len() {
            assert(r[i] == r.take(a.len() as int)[i]);
            assert(sq(a[i]));
        } else {
            assert(r[i] == r.skip(a.len() as int)[i - a.len()]);
            assert(li(r.skip(a.len() as int)[i - a.len()]));
        }
    }
    assert forall|i: int, j: int|
        0 <= i < j < r.len() && (#[trigger] r[j]).source is Square implies (#[trigger] r[i]).source is Square by {
        if j >= a.len() {
            assert(r[j] == r.skip(a.len() as int)[j - a.len()]);
            assert(li(r.skip(a.len() as int)[j - a.len()]));
        } else {
            assert(r[i] == r.take(a.len() as int)[i]);
            assert(sq(a[i]));
        }
    }
}

} // verus!
