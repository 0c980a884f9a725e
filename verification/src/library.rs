//! Libraries of reusable functions and of sample templates: how they are
//! kept, looked up, read from library files, and built in code.
use vstd::prelude::*;
use crate::ball::Direction;
use crate::name_map::NameMap;
use crate::numeral::{all_digits, dot_pos, exp_pos, is_float_text, is_float_text_exec, lower_all, unsigned_part};
use crate::programmer::{number, outcome_block, outcome_instr, program_lines, program_lines_exec, Outcome, Parsed};
use crate::square::{
    instrs_view, lemma_instrs_view_empty, lemma_instrs_view_push, Expression, Instruction, Program, SExpr, SInstr,
    SProgram, SValue, Value,
};
use crate::text::{
    find_char, find_char_exec, joined, owned, slice, split_char, split_char_exec, starts_with, starts_with_exec, str_eq,
    tail, trim, trim_all, trim_each, trim_exec, views, words, words_exec,
};

verus! {

broadcast use vstd::string::group_string_axioms;

/// Functions under their names.
pub struct FunctionLibrary {
    pub name: String,
    pub functions: NameMap<Program>,
    pub description: String,
}

/// A function library as the contracts see it.
pub struct FLib {
    pub name: Seq<char>,
    pub functions: Map<Seq<char>, SProgram>,
    pub description: Seq<char>,
}

pub open spec fn flib_view(l: FunctionLibrary) -> FLib {
    FLib { name: l.name@, functions: l.functions@.map_values(|p: Program| p@), description: l.description@ }
}

/// What a ball made from a template starts with. The speed is kept as the
/// bits of its `f32`.
pub struct SampleTemplate {
    pub name: String,
    pub default_speed: u32,
    pub default_direction: Direction,
    pub color: String,
    /// The library function the ball runs.
    pub behavior_program: Option<String>,
}

/// Sample templates under their names.
pub struct SampleLibrary {
    pub name: String,
    pub samples: NameMap<SampleTemplate>,
    pub description: String,
}

/// The function and sample libraries, each under its name.
pub struct LibraryManager {
    pub function_libraries: NameMap<FunctionLibrary>,
    pub sample_libraries: NameMap<SampleLibrary>,
}

impl FunctionLibrary {
    pub open spec fn wf(&self) -> bool {
        self.functions.wf()
    }
}

impl SampleLibrary {
    pub open spec fn wf(&self) -> bool {
        self.samples.wf()
    }
}

impl LibraryManager {
    /// Every map keeps each name once.
    pub open spec fn wf(&self) -> bool {
        &&& self.function_libraries.wf()
        &&& self.sample_libraries.wf()
        &&& forall|k: Seq<char>| #[trigger] self.function_libraries@.contains_key(k) ==> self.function_libraries@[k].wf()
        &&& forall|k: Seq<char>| #[trigger] self.sample_libraries@.contains_key(k) ==> self.sample_libraries@[k].wf()
    }

    /// The function libraries as the contracts see them.
    pub open spec fn functions_view(&self) -> Map<Seq<char>, FLib> {
        self.function_libraries@.map_values(|l: FunctionLibrary| flib_view(l))
    }

    /// The function `function_name` of library `library_name`, if there is one.
    pub open spec fn spec_function(&self, library_name: Seq<char>, function_name: Seq<char>) -> Option<&Program> {
        if self.function_libraries@.contains_key(library_name)
            && self.function_libraries@[library_name].functions@.contains_key(function_name) {
            Some(&self.function_libraries@[library_name].functions@[function_name])
        } else {
            None
        }
    }

    /// The template `sample_name` of sample library `library_name`, if there is one.
    pub open spec fn spec_sample(&self, library_name: Seq<char>, sample_name: Seq<char>) -> Option<&SampleTemplate> {
        if self.sample_libraries@.contains_key(library_name)
            && self.sample_libraries@[library_name].samples@.contains_key(sample_name) {
            Some(&self.sample_libraries@[library_name].samples@[sample_name])
        } else {
            None
        }
    }

    /// No libraries.
    pub fn new() -> (r: Self)
        ensures
            r.wf(),
            r.function_libraries@ == Map::<Seq<char>, FunctionLibrary>::empty(),
            r.sample_libraries@ == Map::<Seq<char>, SampleLibrary>::empty(),
    {
        LibraryManager { function_libraries: NameMap::new(), sample_libraries: NameMap::new() }
    }

    /// Adds a function library under its name, in place of any of that name.
    pub fn add_function_library(&mut self, library: FunctionLibrary)
        requires
            old(self).wf(),
            library.wf(),
        ensures
            final(self).wf(),
            final(self).function_libraries@ == old(self).function_libraries@.insert(library.name@, library),
            final(self).sample_libraries == old(self).sample_libraries,
    {
        let ghost lib = library;
        let name = owned(library.name.as_str());
        self.function_libraries.insert(name, library);
        proof {
            assert forall|k: Seq<char>| #[trigger] self.function_libraries@.contains_key(k) implies self.function_libraries@[k].wf() by {
                if k != lib.name@ {
                    assert(old(self).function_libraries@.contains_key(k));
                }
            }
        }
    }

    /// Adds a sample library under its name, in place of any of that name.
    pub fn add_sample_library(&mut self, library: SampleLibrary)
        requires
            old(self).wf(),
            library.wf(),
        ensures
            final(self).wf(),
            final(self).sample_libraries@ == old(self).sample_libraries@.insert(library.name@, library),
            final(self).function_libraries == old(self).function_libraries,
    {
        let ghost lib = library;
        let name = owned(library.name.as_str());
        self.sample_libraries.insert(name, library);
        proof {
            assert forall|k: Seq<char>| #[trigger] self.sample_libraries@.contains_key(k) implies self.sample_libraries@[k].wf() by {
                if k != lib.name@ {
                    assert(old(self).sample_libraries@.contains_key(k));
                }
            }
        }
    }

    /// Looks up a function of a library.
    pub fn get_function(&self, library_name: &str, function_name: &str) -> (r: Option<&Program>)
        requires
            self.wf(),
        ensures
            r == self.spec_function(library_name@, function_name@),
    {
        match self.function_libraries.get(library_name) {
            Some(library) => {
                assert(self.function_libraries@.contains_key(library_name@));
                library.functions.get(function_name)
            },
            None => None,
        }
    }

    /// Looks up a sample template of a sample library.
    pub fn get_sample_template(&self, library_name: &str, sample_name: &str) -> (r: Option<&SampleTemplate>)
        requires
            self.wf(),
        ensures
            r == self.spec_sample(library_name@, sample_name@),
    {
        match self.sample_libraries.get(library_name) {
            Some(library) => {
                assert(self.sample_libraries@.contains_key(library_name@));
                library.samples.get(sample_name)
            },
            None => None,
        }
    }

    /// The template a ball is made from.
    pub fn get_ball_sample(&self, library_name: &str, sample_name: &str) -> (r: Option<&SampleTemplate>)
        requires
            self.wf(),
        ensures
            r == self.spec_sample(library_name@, sample_name@),
    {
        self.get_sample_template(library_name, sample_name)
    }

    /// The template a square is made from.
    pub fn get_square_sample(&self, library_name: &str, sample_name: &str) -> (r: Option<&SampleTemplate>)
        requires
            self.wf(),
        ensures
            r == self.spec_sample(library_name@, sample_name@),
    {
        self.get_sample_template(library_name, sample_name)
    }
}

// ---------------------------------------------------------------------------
// Library files

/// Lines that do not start a comment.
pub open spec fn uncommented(ls: Seq<Seq<char>>) -> Seq<Seq<char>>
    decreases ls.len(),
{
    if ls.len() == 0 {
        seq![]
    } else {
        let rest = uncommented(ls.drop_last());
        if starts_with(ls.last(), "//"@) {
            rest
        } else {
            rest.push(ls.last())
        }
    }
}

/// The lines of a library file that count: trimmed, neither blank nor comments.
pub open spec fn library_lines(content: Seq<char>) -> Seq<Seq<char>> {
    uncommented(program_lines(content))
}

/// The two numbers between the first `(` and the first `)` of a line, if
/// they are two, separated by a comma; a `)` before the `(` cuts the line
/// backwards.
pub open spec fn paren_numbers(line: Seq<char>) -> Parsed<Option<(Seq<char>, Seq<char>)>> {
    match (find_char(line, '('), find_char(line, ')')) {
        (Some(s), Some(e)) => if e < s + 1 {
            Parsed::Panic
        } else {
            let parts = trim_all(split_char(line.subrange(s + 1, e), ','));
            if parts.len() == 2 && is_float_text(parts[0]) && is_float_text(parts[1]) {
                Parsed::Done(Some((parts[0], parts[1])))
            } else {
                Parsed::Done(None)
            }
        },
        _ => Parsed::Done(None),
    }
}

pub open spec fn right() -> SExpr {
    SExpr::Literal(SValue::Direction(Direction::Right))
}

/// `create ball(x, y)`: a ball there at speed 2 going right.
pub open spec fn lib_create_ball(line: Seq<char>) -> Parsed<SInstr> {
    match paren_numbers(line) {
        Parsed::Done(Some((x, y))) => Parsed::Done(
            SInstr::CreateBall { x: number(x), y: number(y), speed: number("2.0"@), direction: right() },
        ),
        Parsed::Panic => Parsed::Panic,
        _ => Parsed::Failed("Invalid create ball syntax: "@ + line),
    }
}

/// `create square(x, y)`.
pub open spec fn lib_create_square(line: Seq<char>) -> Parsed<SInstr> {
    match paren_numbers(line) {
        Parsed::Done(Some((x, y))) => Parsed::Done(SInstr::CreateSquare { x: number(x), y: number(y) }),
        Parsed::Panic => Parsed::Panic,
        _ => Parsed::Failed("Invalid create square syntax: "@ + line),
    }
}

/// `set speed X` with a number.
pub open spec fn lib_set_speed(line: Seq<char>) -> Parsed<SInstr> {
    let parts = words(line);
    if parts.len() >= 3 && parts[0] == "set"@ && parts[1] == "speed"@ && is_float_text(parts[2]) {
        Parsed::Done(SInstr::SetSpeed(number(parts[2])))
    } else {
        Parsed::Failed("Invalid set speed syntax: "@ + line)
    }
}

/// The instruction a line of a library function is, if it is one the
/// library reader knows; it passes over other lines.
pub open spec fn lib_instruction(line: Seq<char>) -> Option<Parsed<SInstr>> {
    if starts_with(line, "create ball"@) {
        Some(lib_create_ball(line))
    } else if starts_with(line, "create square"@) {
        Some(lib_create_square(line))
    } else if line == "bounce"@ {
        Some(Parsed::Done(SInstr::Bounce))
    } else if starts_with(line, "set speed"@) {
        Some(lib_set_speed(line))
    } else {
        None
    }
}

/// The body of a library function from line `i` on, up to and past a
/// `return` or `end` line: its instructions after `acc`, and where reading
/// goes on.
pub open spec fn lib_block_from(lines: Seq<Seq<char>>, i: int, acc: Seq<SInstr>) -> Parsed<(Seq<SInstr>, int)>
    decreases lines.len() - i,
{
    if i < 0 || i >= lines.len() {
        Parsed::Done((acc, i))
    } else if lines[i] == "return"@ || lines[i] == "end"@ {
        Parsed::Done((acc, i + 1))
    } else {
        match lib_instruction(lines[i]) {
            Some(Parsed::Done(ins)) => lib_block_from(lines, i + 1, acc.push(ins)),
            Some(Parsed::Failed(e)) => Parsed::Failed(e),
            Some(Parsed::Panic) => Parsed::Panic,
            None => lib_block_from(lines, i + 1, acc),
        }
    }
}

/// A library being read, before it has functions.
pub open spec fn fresh_library(name: Seq<char>, path: Seq<char>) -> FLib {
    FLib { name, functions: Map::empty(), description: "Library loaded from "@ + path }
}

/// The libraries with `cur` added, if it has functions.
pub open spec fn with_library(m: Map<Seq<char>, FLib>, cur: FLib) -> Map<Seq<char>, FLib> {
    if cur.functions == Map::<Seq<char>, SProgram>::empty() {
        m
    } else {
        m.insert(cur.name, cur)
    }
}

/// Reading a library file from line `i` on: `library NAME` lines start a
/// library (the one before is kept if it has functions), `def NAME` lines
/// start a function, other lines are passed over. Gives the libraries and
/// whether reading succeeded; on an error the libraries kept so far stay.
pub open spec fn lib_file_from(
    m: Map<Seq<char>, FLib>,
    lines: Seq<Seq<char>>,
    i: int,
    cur: FLib,
    path: Seq<char>,
) -> (Map<Seq<char>, FLib>, Parsed<()>)
    decreases lines.len() - i,
{
    if i < 0 || i >= lines.len() {
        (with_library(m, cur), Parsed::Done(()))
    } else if starts_with(lines[i], "library "@) {
        lib_file_from(with_library(m, cur), lines, i + 1, fresh_library(trim(lines[i].skip(8)), path), path)
    } else if starts_with(lines[i], "def "@) {
        let name = trim(lines[i].skip(4));
        match lib_block_from(lines, i + 1, seq![]) {
            Parsed::Done((ins, j)) => if i < j <= lines.len() {
                lib_file_from(
                    m,
                    lines,
                    j,
                    FLib {
                        functions: cur.functions.insert(name, SProgram { instructions: ins, name, source_text: None }),
                        ..cur
                    },
                    path,
                )
            } else {
                (m, Parsed::Done(()))
            },
            Parsed::Failed(e) => (m, Parsed::Failed(e)),
            Parsed::Panic => (m, Parsed::Panic),
        }
    } else {
        lib_file_from(m, lines, i + 1, cur, path)
    }
}

/// Reading a whole library file into libraries `m`.
pub open spec fn lib_file(m: Map<Seq<char>, FLib>, content: Seq<char>, path: Seq<char>) -> (Map<Seq<char>, FLib>, Parsed<()>) {
    lib_file_from(m, library_lines(content), 0, fresh_library("default"@, path), path)
}

pub open spec fn result_unit(r: Result<(), String>) -> Parsed<()> {
    match r {
        Ok(()) => Parsed::Done(()),
        Err(e) => Parsed::Failed(e@),
    }
}

pub open spec fn outcome_unit(r: Outcome<()>) -> Parsed<()> {
    match r {
        Outcome::Done(()) => Parsed::Done(()),
        Outcome::Failed(e) => Parsed::Failed(e@),
        Outcome::Panic => Parsed::Panic,
    }
}

pub open spec fn outcome_numbers(r: Outcome<Option<(&str, &str)>>) -> Parsed<Option<(Seq<char>, Seq<char>)>> {
    match r {
        Outcome::Done(Some((x, y))) => Parsed::Done(Some((x@, y@))),
        Outcome::Done(None) => Parsed::Done(None),
        Outcome::Failed(e) => Parsed::Failed(e@),
        Outcome::Panic => Parsed::Panic,
    }
}

/// The lines of a library file that count (see `library_lines`).
fn library_lines_exec(content: &str) -> (r: Vec<&str>)
    ensures
        views(r@) == library_lines(content@),
{
    let ls = program_lines_exec(content);
    let ghost lv = views(ls@);
    let mut r: Vec<&str> = Vec::new();
    let mut i: usize = 0;
    while i < ls.len()
        invariant
            lv == views(ls@),
            i <= ls.len(),
            views(r@) == uncommented(lv.take(i as int)),
        decreases ls.len() - i,
    {
        let ghost before = r@;
        assert(lv.take(i + 1).drop_last() =~= lv.take(i as int));
        assert(lv.take(i + 1).last() == ls@[i as int]@);
        if !starts_with_exec(ls[i], "//") {
            r.push(ls[i]);
            assert(views(r@) =~= views(before).push(ls@[i as int]@));
        }
        i = i + 1;
    }
    assert(lv.take(i as int) =~= lv);
    r
}

/// The two numbers in the parentheses of a line (see `paren_numbers`).
fn paren_numbers_exec(line: &str) -> (r: Outcome<Option<(&str, &str)>>)
    ensures
        outcome_numbers(r) == paren_numbers(line@),
{
    match (find_char_exec(line, '('), find_char_exec(line, ')')) {
        (Some(s), Some(e)) => {
            if e < s + 1 {
                Outcome::Panic
            } else {
                let inside = slice(line, s + 1, e);
                let parts = trim_each(split_char_exec(inside, ','));
                if parts.len() == 2 && is_float_text_exec(parts[0]) && is_float_text_exec(parts[1]) {
                    Outcome::Done(Some((parts[0], parts[1])))
                } else {
                    Outcome::Done(None)
                }
            }
        },
        _ => Outcome::Done(None),
    }
}

fn number_literal(t: &str) -> (e: Expression)
    ensures
        e@ == number(t@),
{
    Expression::Literal(Value::Number(owned(t)))
}

impl LibraryManager {
    fn parse_create_ball_instruction(&self, line: &str) -> (r: Outcome<Instruction>)
        ensures
            outcome_instr(r) == lib_create_ball(line@),
    {
        match paren_numbers_exec(line) {
            Outcome::Done(Some((x, y))) => {
                proof {
                    reveal_strlit("2.0");
                }
                let r = Instruction::CreateBall {
                    x: number_literal(x),
                    y: number_literal(y),
                    speed: number_literal("2.0"),
                    direction: Expression::Literal(Value::Direction(Direction::Right)),
                };
                Outcome::Done(r)
            },
            Outcome::Panic => Outcome::Panic,
            _ => Outcome::Failed(joined("Invalid create ball syntax: ", line)),
        }
    }

    fn parse_create_square_instruction(&self, line: &str) -> (r: Outcome<Instruction>)
        ensures
            outcome_instr(r) == lib_create_square(line@),
    {
        match paren_numbers_exec(line) {
            Outcome::Done(Some((x, y))) => Outcome::Done(
                Instruction::CreateSquare { x: number_literal(x), y: number_literal(y) },
            ),
            Outcome::Panic => Outcome::Panic,
            _ => Outcome::Failed(joined("Invalid create square syntax: ", line)),
        }
    }

    fn parse_set_speed_instruction(&self, line: &str) -> (r: Result<Instruction, String>)
        ensures
            crate::programmer::result_instr(r) == lib_set_speed(line@),
    {
        let parts = words_exec(line);
        if parts.len() >= 3 && str_eq(parts[0], "set") && str_eq(parts[1], "speed") && is_float_text_exec(parts[2]) {
            Ok(Instruction::SetSpeed(number_literal(parts[2])))
        } else {
            Err(joined("Invalid set speed syntax: ", line))
        }
    }
}

/// A function of a library file whose `def` line is line `i`.
pub open spec fn lib_function(lines: Seq<Seq<char>>, i: int) -> Parsed<(SProgram, int)> {
    match lib_block_from(lines, i + 1, seq![]) {
        Parsed::Done((ins, j)) => Parsed::Done((SProgram { instructions: ins, name: trim(lines[i].skip(4)), source_text: None }, j)),
        Parsed::Failed(e) => Parsed::Failed(e),
        Parsed::Panic => Parsed::Panic,
    }
}

proof fn lemma_map_values_empty(m: Map<Seq<char>, Program>)
    ensures
        (m.map_values(|p: Program| p@) == Map::<Seq<char>, SProgram>::empty()) == (m == Map::<Seq<char>, Program>::empty()),
{
    if m == Map::<Seq<char>, Program>::empty() {
        assert(m.map_values(|p: Program| p@) =~= Map::<Seq<char>, SProgram>::empty());
    } else {
        if m.dom() =~= Set::<Seq<char>>::empty() {
            assert(m =~= Map::<Seq<char>, Program>::empty());
        }
        let k = choose|k: Seq<char>| m.dom().contains(k);
        assert(m.map_values(|p: Program| p@).dom().contains(k));
    }
}

impl LibraryManager {
    /// The body of a library function from line `start_index` on (see `lib_block_from`).
    fn parse_block_from_lines(&self, lines: &Vec<&str>, start_index: usize) -> (r: Outcome<(Vec<Instruction>, usize)>)
        requires
            start_index <= lines@.len(),
        ensures
            outcome_block(r) == lib_block_from(views(lines@), start_index as int, seq![]),
            r matches Outcome::Done((_, next)) ==> start_index <= next <= lines@.len(),
    {
        let ghost ls = views(lines@);
        let mut instructions: Vec<Instruction> = Vec::new();
        let mut i = start_index;
        proof {
            lemma_instrs_view_empty();
        }
        while i < lines.len()
            invariant
                ls == views(lines@),
                start_index <= i <= lines@.len(),
                lib_block_from(ls, start_index as int, seq![]) == lib_block_from(ls, i as int, instrs_view(instructions@)),
            decreases lines.len() - i,
        {
            let line = lines[i];
            let ghost before = instructions@;
            assert(ls[i as int] == line@);
            if str_eq(line, "return") || str_eq(line, "end") {
                return Outcome::Done((instructions, i + 1));
            }
            let step: Option<Outcome<Instruction>> = if starts_with_exec(line, "create ball") {
                Some(self.parse_create_ball_instruction(line))
            } else if starts_with_exec(line, "create square") {
                Some(self.parse_create_square_instruction(line))
            } else if str_eq(line, "bounce") {
                Some(Outcome::Done(Instruction::Bounce))
            } else if starts_with_exec(line, "set speed") {
                match self.parse_set_speed_instruction(line) {
                    Ok(ins) => Some(Outcome::Done(ins)),
                    Err(e) => Some(Outcome::Failed(e)),
                }
            } else {
                None
            };
            match step {
                Some(Outcome::Done(ins)) => {
                    instructions.push(ins);
                    proof {
                        lemma_instrs_view_push(before, instructions@.last());
                    }
                },
                Some(Outcome::Failed(e)) => {
                    return Outcome::Failed(e);
                },
                Some(Outcome::Panic) => {
                    return Outcome::Panic;
                },
                None => {},
            }
            i = i + 1;
        }
        Outcome::Done((instructions, i))
    }

    /// The function whose `def` line is line `start_index` (see `lib_function`).
    fn parse_function_from_lines(&self, lines: &Vec<&str>, start_index: usize) -> (r: Outcome<(Program, usize)>)
        requires
            start_index < lines@.len(),
        ensures
            starts_with(lines@[start_index as int]@, "def "@) ==> crate::programmer::outcome_function(r) == lib_function(
                views(lines@),
                start_index as int,
            ),
            !starts_with(lines@[start_index as int]@, "def "@) ==> (r matches Outcome::Failed(e) && e@
                == "Expected function definition"@),
            r matches Outcome::Done((_, next)) ==> start_index < next <= lines@.len(),
    {
        let n = lines.len();
        let line = lines[start_index];
        if !starts_with_exec(line, "def ") {
            return Outcome::Failed(owned("Expected function definition"));
        }
        proof {
            reveal_strlit("def ");
        }
        let function_name = owned(trim_exec(tail(line, 4)));
        match self.parse_block_from_lines(lines, start_index + 1) {
            Outcome::Done((instructions, next)) => Outcome::Done(
                (Program { name: function_name, instructions, source_text: None }, next),
            ),
            Outcome::Failed(e) => Outcome::Failed(e),
            Outcome::Panic => Outcome::Panic,
        }
    }

    /// Reads a library file's text (see `lib_file`): each library with
    /// functions is added in place of any of its name; on an error, those
    /// read before it stay added. `Panic` where a line's parentheses stand
    /// backwards.
    pub fn read_library_file(&mut self, content: &str, file_path: &str) -> (r: Outcome<()>)
        requires
            old(self).wf(),
        ensures
            final(self).wf(),
            final(self).sample_libraries == old(self).sample_libraries,
            !(r is Panic) ==> (final(self).functions_view(), outcome_unit(r)) == lib_file(
                old(self).functions_view(),
                content@,
                file_path@,
            ),
            r is Panic <==> lib_file(old(self).functions_view(), content@, file_path@).1 is Panic,
    {
        let lines = library_lines_exec(content);
        let ghost ls = views(lines@);
        let ghost target = lib_file(old(self).functions_view(), content@, file_path@);
        let mut current = FunctionLibrary {
            name: owned("default"),
            functions: NameMap::new(),
            description: joined("Library loaded from ", file_path),
        };
        proof {
            reveal_strlit("default");
            assert(current.functions@.map_values(|p: Program| p@) =~= Map::<Seq<char>, SProgram>::empty());
            assert(flib_view(current) =~= fresh_library("default"@, file_path@));
        }
        let mut i: usize = 0;
        while i < lines.len()
            invariant
                ls == views(lines@),
                i <= lines@.len(),
                self.wf(),
                current.wf(),
                self.sample_libraries == old(self).sample_libraries,
                target == lib_file(old(self).functions_view(), content@, file_path@),
                target == lib_file_from(self.functions_view(), ls, i as int, flib_view(current), file_path@),
            decreases lines.len() - i,
        {
            let line = lines[i];
            assert(ls[i as int] == line@);
            if starts_with_exec(line, "library ") {
                proof {
                    reveal_strlit("library ");
                }
                let ghost m0 = self.functions_view();
                let ghost cur0 = flib_view(current);
                if !current.functions.is_empty() {
                    proof {
                        lemma_map_values_empty(current.functions@);
                    }
                    let ghost c = current;
                    self.add_function_library(current);
                    proof {
                        assert(self.functions_view() =~= m0.insert(c.name@, flib_view(c)));
                    }
                } else {
                    proof {
                        lemma_map_values_empty(current.functions@);
                    }
                }
                assert(self.functions_view() == with_library(m0, cur0));
                current = FunctionLibrary {
                    name: owned(trim_exec(tail(line, 8))),
                    functions: NameMap::new(),
                    description: joined("Library loaded from ", file_path),
                };
                assert(current.functions@.map_values(|p: Program| p@) =~= Map::<Seq<char>, SProgram>::empty());
                assert(flib_view(current) =~= fresh_library(trim(line@.skip(8)), file_path@));
                i = i + 1;
            } else if starts_with_exec(line, "def ") {
                match self.parse_function_from_lines(&lines, i) {
                    Outcome::Done((program, next)) => {
                        let ghost cur0 = flib_view(current);
                        let ghost p = program;
                        let name = owned(program.name.as_str());
                        current.functions.insert(name, program);
                        proof {
                            assert(flib_view(current).functions =~= cur0.functions.insert(p.name@, p@));
                            assert(flib_view(current) =~= FLib { functions: cur0.functions.insert(p.name@, p@), ..cur0 });
                        }
                        i = next;
                    },
                    Outcome::Failed(e) => {
                        return Outcome::Failed(e);
                    },
                    Outcome::Panic => {
                        return Outcome::Panic;
                    },
                }
            } else {
                i = i + 1;
            }
        }
        let ghost m0 = self.functions_view();
        let ghost cur0 = flib_view(current);
        proof {
            lemma_map_values_empty(current.functions@);
        }
        if !current.functions.is_empty() {
            let ghost c = current;
            self.add_function_library(current);
            proof {
                assert(self.functions_view() =~= m0.insert(c.name@, flib_view(c)));
            }
        }
        Outcome::Done(())
    }

    /// Reads a library file's text (see `read_library_file`), on text whose
    /// parentheses never stand backwards.
    pub fn parse_library_file(&mut self, content: &str, file_path: &str) -> (r: Result<(), String>)
        requires
            old(self).wf(),
            !(lib_file(old(self).functions_view(), content@, file_path@).1 is Panic),
        ensures
            final(self).wf(),
            final(self).sample_libraries == old(self).sample_libraries,
            (final(self).functions_view(), result_unit(r)) == lib_file(old(self).functions_view(), content@, file_path@),
    {
        match self.read_library_file(content, file_path) {
            Outcome::Done(()) => Ok(()),
            Outcome::Failed(e) => Err(e),
            Outcome::Panic => Ok(()),
        }
    }
}

// ---------------------------------------------------------------------------
// Building libraries in code

/// A sample template as the contracts see it.
pub struct STemplate {
    pub name: Seq<char>,
    pub default_speed: u32,
    pub default_direction: Direction,
    pub color: Seq<char>,
    pub behavior_program: Option<Seq<char>>,
}

pub open spec fn template_view(t: SampleTemplate) -> STemplate {
    STemplate {
        name: t.name@,
        default_speed: t.default_speed,
        default_direction: t.default_direction,
        color: t.color@,
        behavior_program: match t.behavior_program {
            Some(b) => Some(b@),
            None => None,
        },
    }
}

/// A sample library as the contracts see it.
pub struct SLib {
    pub name: Seq<char>,
    pub samples: Map<Seq<char>, STemplate>,
    pub description: Seq<char>,
}

pub open spec fn slib_view(l: SampleLibrary) -> SLib {
    SLib { name: l.name@, samples: l.samples@.map_values(|t: SampleTemplate| template_view(t)), description: l.description@ }
}

/// A function of a single instruction list, as a library holds it.
pub open spec fn function(name: Seq<char>, instructions: Seq<SInstr>) -> SProgram {
    SProgram { instructions, name, source_text: None }
}

pub open spec fn direction_literal(d: Direction) -> SExpr {
    SExpr::Literal(SValue::Direction(d))
}

/// Builds a function library step by step.
pub struct LibraryBuilder {
    name: String,
    description: String,
    functions: NameMap<Program>,
}

impl LibraryBuilder {
    /// The library the builder holds so far.
    pub closed spec fn view(&self) -> FLib {
        FLib { name: self.name@, functions: self.functions@.map_values(|p: Program| p@), description: self.description@ }
    }

    pub closed spec fn wf(&self) -> bool {
        self.functions.wf()
    }

    /// A library of this name, described as such, with no functions.
    pub fn new(name: &str) -> (r: Self)
        ensures
            r.wf(),
            r.view() == (FLib { name: name@, functions: Map::empty(), description: "Library: "@ + name@ }),
    {
        let r = LibraryBuilder { name: owned(name), description: joined("Library: ", name), functions: NameMap::new() };
        assert(r.functions@.map_values(|p: Program| p@) =~= Map::<Seq<char>, SProgram>::empty());
        r
    }

    pub fn with_description(self, description: &str) -> (r: Self)
        requires
            self.wf(),
        ensures
            r.wf(),
            r.view() == (FLib { description: description@, ..self.view() }),
    {
        let mut b = self;
        b.description = owned(description);
        b
    }

    /// Adds a function with these instructions, in place of any of its name.
    pub fn add_function(self, name: &str, instructions: Vec<Instruction>) -> (r: Self)
        requires
            self.wf(),
        ensures
            r.wf(),
            r.view() == (FLib {
                functions: self.view().functions.insert(name@, function(name@, instrs_view(instructions@))),
                ..self.view()
            }),
    {
        let mut b = self;
        let ghost old_map = b.functions@;
        let program = Program { name: owned(name), instructions, source_text: None };
        let ghost p = program;
        b.functions.insert(owned(name), program);
        assert(b.functions@.map_values(|q: Program| q@) =~= old_map.map_values(|q: Program| q@).insert(name@, p@));
        b
    }

    /// Adds a function that bounces the ball.
    pub fn add_bounce_function(self, name: &str) -> (r: Self)
        requires
            self.wf(),
        ensures
            r.wf(),
            r.view() == (FLib {
                functions: self.view().functions.insert(name@, function(name@, seq![SInstr::Bounce])),
                ..self.view()
            }),
    {
        let v = vec![Instruction::Bounce];
        assert(instrs_view(v@) =~= seq![SInstr::Bounce]);
        self.add_function(name, v)
    }

    /// Adds a function that sets the ball's speed to a number.
    pub fn add_speed_function(self, name: &str, speed: &str) -> (r: Self)
        requires
            self.wf(),
            is_float_text(speed@),
        ensures
            r.wf(),
            r.view() == (FLib {
                functions: self.view().functions.insert(name@, function(name@, seq![SInstr::SetSpeed(number(speed@))])),
                ..self.view()
            }),
    {
        let v = vec![Instruction::SetSpeed(number_literal(speed))];
        assert(instrs_view(v@) =~= seq![SInstr::SetSpeed(number(speed@))]);
        self.add_function(name, v)
    }

    /// Adds a function that sets the ball's direction.
    pub fn add_direction_function(self, name: &str, direction: Direction) -> (r: Self)
        requires
            self.wf(),
        ensures
            r.wf(),
            r.view() == (FLib {
                functions: self.view().functions.insert(
                    name@,
                    function(name@, seq![SInstr::SetDirection(direction_literal(direction))]),
                ),
                ..self.view()
            }),
    {
        let v = vec![Instruction::SetDirection(Expression::Literal(Value::Direction(direction)))];
        assert(instrs_view(v@) =~= seq![SInstr::SetDirection(direction_literal(direction))]);
        self.add_function(name, v)
    }

    /// Adds a function that creates a ball.
    pub fn add_ball_creator(self, name: &str, x: &str, y: &str, speed: &str, direction: Direction) -> (r: Self)
        requires
            self.wf(),
            is_float_text(x@),
            is_float_text(y@),
            is_float_text(speed@),
        ensures
            r.wf(),
            r.view() == (FLib {
                functions: self.view().functions.insert(
                    name@,
                    function(
                        name@,
                        seq![
                            SInstr::CreateBall {
                                x: number(x@),
                                y: number(y@),
                                speed: number(speed@),
                                direction: direction_literal(direction),
                            },
                        ],
                    ),
                ),
                ..self.view()
            }),
    {
        let v = vec![
            Instruction::CreateBall {
                x: number_literal(x),
                y: number_literal(y),
                speed: number_literal(speed),
                direction: Expression::Literal(Value::Direction(direction)),
            },
        ];
        assert(instrs_view(v@) =~= seq![
            SInstr::CreateBall {
                x: number(x@),
                y: number(y@),
                speed: number(speed@),
                direction: direction_literal(direction),
            },
        ]);
        self.add_function(name, v)
    }

    /// Adds a function that creates a square.
    pub fn add_square_creator(self, name: &str, x: &str, y: &str) -> (r: Self)
        requires
            self.wf(),
            is_float_text(x@),
            is_float_text(y@),
        ensures
            r.wf(),
            r.view() == (FLib {
                functions: self.view().functions.insert(
                    name@,
                    function(name@, seq![SInstr::CreateSquare { x: number(x@), y: number(y@) }]),
                ),
                ..self.view()
            }),
    {
        let v = vec![Instruction::CreateSquare { x: number_literal(x), y: number_literal(y) }];
        assert(instrs_view(v@) =~= seq![SInstr::CreateSquare { x: number(x@), y: number(y@) }]);
        self.add_function(name, v)
    }

    /// The library built.
    pub fn build(self) -> (r: FunctionLibrary)
        requires
            self.wf(),
        ensures
            r.wf(),
            flib_view(r) == self.view(),
    {
        FunctionLibrary { name: self.name, functions: self.functions, description: self.description }
    }
}

/// Builds a sample library step by step.
pub struct SampleLibraryBuilder {
    name: String,
    description: String,
    samples: NameMap<SampleTemplate>,
}

impl SampleLibraryBuilder {
    /// The library the builder holds so far.
    pub closed spec fn view(&self) -> SLib {
        SLib {
            name: self.name@,
            samples: self.samples@.map_values(|t: SampleTemplate| template_view(t)),
            description: self.description@,
        }
    }

    pub closed spec fn wf(&self) -> bool {
        self.samples.wf()
    }

    /// A sample library of this name, described as such, with no samples.
    pub fn new(name: &str) -> (r: Self)
        ensures
            r.wf(),
            r.view() == (SLib { name: name@, samples: Map::empty(), description: "Sample Library: "@ + name@ }),
    {
        let r = SampleLibraryBuilder {
            name: owned(name),
            description: joined("Sample Library: ", name),
            samples: NameMap::new(),
        };
        assert(r.samples@.map_values(|t: SampleTemplate| template_view(t)) =~= Map::<Seq<char>, STemplate>::empty());
        r
    }

    pub fn with_description(self, description: &str) -> (r: Self)
        requires
            self.wf(),
        ensures
            r.wf(),
            r.view() == (SLib { description: description@, ..self.view() }),
    {
        let mut b = self;
        b.description = owned(description);
        b
    }

    /// Adds a template, in place of any of its name; `default_speed` holds
    /// the bits of an `f32`.
    pub fn add_sample(
        self,
        name: &str,
        default_speed: u32,
        default_direction: Direction,
        color: &str,
        behavior_program: Option<&str>,
    ) -> (r: Self)
        requires
            self.wf(),
        ensures
            r.wf(),
            r.view() == (SLib {
                samples: self.view().samples.insert(
                    name@,
                    STemplate {
                        name: name@,
                        default_speed,
                        default_direction,
                        color: color@,
                        behavior_program: match behavior_program {
                            Some(b) => Some(b@),
                            None => None,
                        },
                    },
                ),
                ..self.view()
            }),
    {
        let mut b = self;
        let ghost old_map = b.samples@;
        let behavior = match behavior_program {
            Some(p) => Some(owned(p)),
            None => None,
        };
        let sample = SampleTemplate {
            name: owned(name),
            default_speed,
            default_direction,
            color: owned(color),
            behavior_program: behavior,
        };
        let ghost t = sample;
        b.samples.insert(owned(name), sample);
        assert(b.samples@.map_values(|q: SampleTemplate| template_view(q)) =~= old_map.map_values(
            |q: SampleTemplate| template_view(q),
        ).insert(name@, template_view(t)));
        b
    }

    /// Adds a template whose balls bounce.
    pub fn add_bouncing_ball(self, name: &str, speed: u32, direction: Direction, color: &str) -> (r: Self)
        requires
            self.wf(),
        ensures
            r.wf(),
            r.view() == (SLib {
                samples: self.view().samples.insert(
                    name@,
                    STemplate {
                        name: name@,
                        default_speed: speed,
                        default_direction: direction,
                        color: color@,
                        behavior_program: Some("bounce"@),
                    },
                ),
                ..self.view()
            }),
    {
        self.add_sample(name, speed, direction, color, Some("bounce"))
    }

    /// Adds a template whose balls speed up.
    pub fn add_speed_ball(self, name: &str, speed: u32, direction: Direction, color: &str) -> (r: Self)
        requires
            self.wf(),
        ensures
            r.wf(),
            r.view() == (SLib {
                samples: self.view().samples.insert(
                    name@,
                    STemplate {
                        name: name@,
                        default_speed: speed,
                        default_direction: direction,
                        color: color@,
                        behavior_program: Some("speed_boost"@),
                    },
                ),
                ..self.view()
            }),
    {
        self.add_sample(name, speed, direction, color, Some("speed_boost"))
    }

    /// Adds a template whose balls cycle through the directions.
    pub fn add_cycling_ball(self, name: &str, speed: u32, direction: Direction, color: &str) -> (r: Self)
        requires
            self.wf(),
        ensures
            r.wf(),
            r.view() == (SLib {
                samples: self.view().samples.insert(
                    name@,
                    STemplate {
                        name: name@,
                        default_speed: speed,
                        default_direction: direction,
                        color: color@,
                        behavior_program: Some("direction_cycle"@),
                    },
                ),
                ..self.view()
            }),
    {
        self.add_sample(name, speed, direction, color, Some("direction_cycle"))
    }

    /// The sample library built.
    pub fn build(self) -> (r: SampleLibrary)
        requires
            self.wf(),
        ensures
            r.wf(),
            slib_view(r) == self.view(),
    {
        SampleLibrary { name: self.name, samples: self.samples, description: self.description }
    }
}

/// The bits of the `f32` speeds the built-in templates use.
pub const SPEED_1_5: u32 = 0x3FC0_0000;

pub const SPEED_2: u32 = 0x4000_0000;

pub const SPEED_3: u32 = 0x4040_0000;

pub const SPEED_4: u32 = 0x4080_0000;

pub open spec fn ball_at(x: Seq<char>, y: Seq<char>, speed: Seq<char>, d: Direction) -> SInstr {
    SInstr::CreateBall { x: number(x), y: number(y), speed: number(speed), direction: direction_literal(d) }
}

pub open spec fn template(name: Seq<char>, speed: u32, d: Direction, color: Seq<char>, behavior: Seq<char>) -> STemplate {
    STemplate { name, default_speed: speed, default_direction: d, color, behavior_program: Some(behavior) }
}

/// The function library every sequencer starts with.
pub open spec fn default_function_library() -> FLib {
    FLib {
        name: "lib"@,
        functions: Map::<Seq<char>, SProgram>::empty().insert(
            "ballcreator"@,
            function("ballcreator"@, seq![ball_at("5.0"@, "5.0"@, "2.0"@, Direction::Right)]),
        ).insert("bounce"@, function("bounce"@, seq![SInstr::Bounce])).insert(
            "speed_boost"@,
            function("speed_boost"@, seq![SInstr::SetSpeed(number("3.0"@))]),
        ).insert(
            "direction_cycle"@,
            function("direction_cycle"@, seq![SInstr::SetDirection(direction_literal(Direction::Up))]),
        ).insert(
            "multi_creator"@,
            function(
                "multi_creator"@,
                seq![
                    ball_at("2.0"@, "2.0"@, "1.5"@, Direction::Right),
                    SInstr::CreateSquare { x: number("4.0"@), y: number("4.0"@) },
                ],
            ),
        ),
        description: "Default function library with common behaviors"@,
    }
}

/// The sample library every sequencer starts with.
pub open spec fn default_sample_library() -> SLib {
    SLib {
        name: "default"@,
        samples: Map::<Seq<char>, STemplate>::empty().insert(
            "red_bouncer"@,
            template("red_bouncer"@, SPEED_2, Direction::Right, "Red"@, "bounce"@),
        ).insert("blue_speedster"@, template("blue_speedster"@, SPEED_3, Direction::Up, "Blue"@, "speed_boost"@)).insert(
            "green_cycler"@,
            template("green_cycler"@, SPEED_1_5, Direction::Left, "Green"@, "direction_cycle"@),
        ),
        description: "Default sample library with common ball and square types"@,
    }
}

/// The numbers the built-in libraries are written with are numbers.
proof fn lemma_builtin_numbers()
    ensures
        is_float_text("1.5"@),
        is_float_text("2.0"@),
        is_float_text("3.0"@),
        is_float_text("4.0"@),
        is_float_text("5.0"@),
        is_float_text("1.0"@),
        is_float_text("2.5"@),
{
    reveal_strlit("1.5");
    reveal_strlit("2.0");
    reveal_strlit("3.0");
    reveal_strlit("4.0");
    reveal_strlit("5.0");
    assert("1.5"@ == seq!['1', '.', '5']);
    assert("2.0"@ == seq!['2', '.', '0']);
    assert("3.0"@ == seq!['3', '.', '0']);
    assert("4.0"@ == seq!['4', '.', '0']);
    assert("5.0"@ == seq!['5', '.', '0']);
    reveal_strlit("1.0");
    reveal_strlit("2.5");
    assert("1.0"@ == seq!['1', '.', '0']);
    assert("2.5"@ == seq!['2', '.', '5']);
    lemma_digit_dot_digit('1', '0');
    lemma_digit_dot_digit('2', '5');
    lemma_digit_dot_digit('1', '5');
    lemma_digit_dot_digit('2', '0');
    lemma_digit_dot_digit('3', '0');
    lemma_digit_dot_digit('4', '0');
    lemma_digit_dot_digit('5', '0');
}

/// A digit, a point and a digit make a number.
proof fn lemma_digit_dot_digit(a: char, b: char)
    requires
        '0' <= a <= '9',
        '0' <= b <= '9',
    ensures
        is_float_text(seq![a, '.', b]),
{
    let s = seq![a, '.', b];
    assert(unsigned_part(s) == s);
    assert(lower_all(s)[1] == '.');
    assert(lower_all(s) != seq!['i', 'n', 'f']);
    assert(lower_all(s) != seq!['n', 'a', 'n']);
    assert(s[2] != 'e' && s[2] != 'E' && s[1] != 'e' && s[1] != 'E' && s[0] != 'e' && s[0] != 'E');
    assert(exp_pos(s, 3) == 3);
    assert(exp_pos(s, 2) == 3);
    assert(exp_pos(s, 1) == 3);
    assert(exp_pos(s, 0) == 3);
    assert(s.take(3) =~= s);
    assert(dot_pos(s, 1) == 1);
    assert(dot_pos(s, 0) == 1);
    assert(all_digits(s.take(1)));
    assert(all_digits(s.skip(2)));
}

impl LibraryManager {
    /// The sample libraries as the contracts see them.
    pub open spec fn samples_view(&self) -> Map<Seq<char>, SLib> {
        self.sample_libraries@.map_values(|l: SampleLibrary| slib_view(l))
    }

    /// Adds the built-in function library `lib` and sample library
    /// `default`, in place of any of those names.
    pub fn create_default_programmatic_libraries(&mut self)
        requires
            old(self).wf(),
        ensures
            final(self).wf(),
            final(self).functions_view() == old(self).functions_view().insert("lib"@, default_function_library()),
            final(self).samples_view() == old(self).samples_view().insert("default"@, default_sample_library()),
    {
        let creators = vec![
            Instruction::CreateBall {
                x: number_literal("2.0"),
                y: number_literal("2.0"),
                speed: number_literal("1.5"),
                direction: Expression::Literal(Value::Direction(Direction::Right)),
            },
            Instruction::CreateSquare { x: number_literal("4.0"), y: number_literal("4.0") },
        ];
        assert(instrs_view(creators@) =~= seq![
            ball_at("2.0"@, "2.0"@, "1.5"@, Direction::Right),
            SInstr::CreateSquare { x: number("4.0"@), y: number("4.0"@) },
        ]);
        proof {
            lemma_builtin_numbers();
        }
        let function_lib = LibraryBuilder::new("lib").with_description(
            "Default function library with common behaviors",
        ).add_ball_creator("ballcreator", "5.0", "5.0", "2.0", Direction::Right).add_bounce_function(
            "bounce",
        ).add_speed_function("speed_boost", "3.0").add_direction_function("direction_cycle", Direction::Up).add_function(
            "multi_creator",
            creators,
        ).build();
        assert(flib_view(function_lib).functions =~= default_function_library().functions);
        let ghost m0 = self.functions_view();
        let ghost fl = function_lib;
        self.add_function_library(function_lib);
        assert(self.functions_view() =~= m0.insert("lib"@, default_function_library()));
        let sample_lib = SampleLibraryBuilder::new("default").with_description(
            "Default sample library with common ball and square types",
        ).add_bouncing_ball("red_bouncer", SPEED_2, Direction::Right, "Red").add_speed_ball(
            "blue_speedster",
            SPEED_3,
            Direction::Up,
            "Blue",
        ).add_cycling_ball("green_cycler", SPEED_1_5, Direction::Left, "Green").build();
        assert(slib_view(sample_lib).samples =~= default_sample_library().samples);
        let ghost s0 = self.samples_view();
        self.add_sample_library(sample_lib);
        assert(self.samples_view() =~= s0.insert("default"@, default_sample_library()));
    }

    /// Adds the built-in libraries (see `create_default_programmatic_libraries`).
    pub fn create_default_libraries(&mut self)
        requires
            old(self).wf(),
        ensures
            final(self).wf(),
            final(self).functions_view() == old(self).functions_view().insert("lib"@, default_function_library()),
            final(self).samples_view() == old(self).samples_view().insert("default"@, default_sample_library()),
    {
        self.create_default_programmatic_libraries();
    }

    /// Adds a function library of one's own (see `add_function_library`).
    pub fn add_custom_function_library(&mut self, library: FunctionLibrary)
        requires
            old(self).wf(),
            library.wf(),
        ensures
            final(self).wf(),
            final(self).function_libraries@ == old(self).function_libraries@.insert(library.name@, library),
            final(self).sample_libraries == old(self).sample_libraries,
    {
        self.add_function_library(library);
    }

    /// Adds a sample library of one's own (see `add_sample_library`).
    pub fn add_custom_sample_library(&mut self, library: SampleLibrary)
        requires
            old(self).wf(),
            library.wf(),
        ensures
            final(self).wf(),
            final(self).sample_libraries@ == old(self).sample_libraries@.insert(library.name@, library),
            final(self).function_libraries == old(self).function_libraries,
    {
        self.add_sample_library(library);
    }
}

/// The example function library for rhythm and melody.
pub open spec fn music_library() -> FLib {
    FLib {
        name: "music"@,
        functions: Map::<Seq<char>, SProgram>::empty().insert(
            "kick_pattern"@,
            function(
                "kick_pattern"@,
                seq![ball_at("1.0"@, "1.0"@, "2.0"@, Direction::Down), ball_at("5.0"@, "1.0"@, "2.0"@, Direction::Down)],
            ),
        ).insert("snare_hit"@, function("snare_hit"@, seq![SInstr::SetSpeed(number("4.0"@)), SInstr::Bounce])).insert(
            "tempo_120"@,
            function("tempo_120"@, seq![SInstr::SetSpeed(number("2.0"@))]),
        ).insert("tempo_140"@, function("tempo_140"@, seq![SInstr::SetSpeed(number("2.5"@))])),
        description: "Music-specific functions for rhythm and melody"@,
    }
}

/// The example sample library of a drum kit.
pub open spec fn drum_samples() -> SLib {
    SLib {
        name: "drums"@,
        samples: Map::<Seq<char>, STemplate>::empty().insert(
            "kick"@,
            template("kick"@, SPEED_2, Direction::Down, "Red"@, "kick_pattern"@),
        ).insert("snare"@, template("snare"@, SPEED_3, Direction::Up, "White"@, "snare_hit"@)).insert(
            "hihat"@,
            template("hihat"@, SPEED_1_5, Direction::Right, "Yellow"@, "bounce"@),
        ).insert("crash"@, template("crash"@, SPEED_4, Direction::Left, "Orange"@, "speed_boost"@)),
        description: "Drum kit samples for rhythm programming"@,
    }
}

/// An example function library for rhythm and melody (see `music_library`).
pub fn create_music_library() -> (r: FunctionLibrary)
    ensures
        r.wf(),
        flib_view(r) == music_library(),
{
    proof {
        lemma_builtin_numbers();
    }
    let kicks = vec![
        Instruction::CreateBall {
            x: number_literal("1.0"),
            y: number_literal("1.0"),
            speed: number_literal("2.0"),
            direction: Expression::Literal(Value::Direction(Direction::Down)),
        },
        Instruction::CreateBall {
            x: number_literal("5.0"),
            y: number_literal("1.0"),
            speed: number_literal("2.0"),
            direction: Expression::Literal(Value::Direction(Direction::Down)),
        },
    ];
    assert(instrs_view(kicks@) =~= seq![
        ball_at("1.0"@, "1.0"@, "2.0"@, Direction::Down),
        ball_at("5.0"@, "1.0"@, "2.0"@, Direction::Down),
    ]);
    let snare = vec![Instruction::SetSpeed(number_literal("4.0")), Instruction::Bounce];
    assert(instrs_view(snare@) =~= seq![SInstr::SetSpeed(number("4.0"@)), SInstr::Bounce]);
    let r = LibraryBuilder::new("music").with_description("Music-specific functions for rhythm and melody").add_function(
        "kick_pattern",
        kicks,
    ).add_function("snare_hit", snare).add_speed_function("tempo_120", "2.0").add_speed_function(
        "tempo_140",
        "2.5",
    ).build();
    assert(flib_view(r).functions =~= music_library().functions);
    r
}

/// An example sample library of a drum kit (see `drum_samples`).
pub fn create_drum_samples() -> (r: SampleLibrary)
    ensures
        r.wf(),
        slib_view(r) == drum_samples(),
{
    let r = SampleLibraryBuilder::new("drums").with_description("Drum kit samples for rhythm programming").add_sample(
        "kick",
        SPEED_2,
        Direction::Down,
        "Red",
        Some("kick_pattern"),
    ).add_sample("snare", SPEED_3, Direction::Up, "White", Some("snare_hit")).add_sample(
        "hihat",
        SPEED_1_5,
        Direction::Right,
        "Yellow",
        Some("bounce"),
    ).add_sample("crash", SPEED_4, Direction::Left, "Orange", Some("speed_boost")).build();
    assert(slib_view(r).samples =~= drum_samples().samples);
    r
}

/// Adding a function library and then looking up one of its functions
/// gives that function, whatever libraries were there before.
pub proof fn lemma_get_after_add(m: LibraryManager, m2: LibraryManager, library: FunctionLibrary, f: Seq<char>)
    requires
        m2.function_libraries@ == m.function_libraries@.insert(library.name@, library),
    ensures
        m2.spec_function(library.name@, f) == (if library.functions@.contains_key(f) {
            Some(&library.functions@[f])
        } else {
            None::<&Program>
        }),
{
}

/// Adding a function library leaves the other libraries' functions as they were.
pub proof fn lemma_add_keeps_others(
    m: LibraryManager,
    m2: LibraryManager,
    library: FunctionLibrary,
    other: Seq<char>,
    f: Seq<char>,
)
    requires
        m2.function_libraries@ == m.function_libraries@.insert(library.name@, library),
        other != library.name@,
    ensures
        m2.spec_function(other, f) == m.spec_function(other, f),
{
}

// ---------------------------------------------------------------------------
// The library of what the user made

/// The library that collects what is made on the grid.
pub open spec fn auto_name() -> Seq<char> {
    "auto"@
}

pub open spec fn auto_functions_description() -> Seq<char> {
    "Automatically generated functions from square programs"@
}

pub open spec fn auto_samples_description() -> Seq<char> {
    "Automatically generated samples from loaded files"@
}

/// The template a sample loaded into a ball or a square gets: speed 2 going
/// up, white for a ball and grey otherwise, with no behaviour.
pub open spec fn auto_template(name: Seq<char>, sample_type: Seq<char>) -> STemplate {
    STemplate {
        name,
        default_speed: SPEED_2,
        default_direction: Direction::Up,
        color: if sample_type == "ball"@ { "white"@ } else { "gray"@ },
        behavior_program: None,
    }
}

/// See `auto_template`.
pub fn auto_sample_template(name: &str, sample_type: &str) -> (r: SampleTemplate)
    ensures
        template_view(r) == auto_template(name@, sample_type@),
{
    SampleTemplate {
        name: owned(name),
        default_speed: SPEED_2,
        default_direction: Direction::Up,
        color: if str_eq(sample_type, "ball") { owned("white") } else { owned("gray") },
        behavior_program: None,
    }
}

impl LibraryManager {
    /// Takes the function libraries of this name out.
    pub fn remove_function_library(&mut self, name: &str)
        requires
            old(self).wf(),
        ensures
            final(self).wf(),
            final(self).function_libraries@ == old(self).function_libraries@.remove(name@),
            final(self).sample_libraries == old(self).sample_libraries,
    {
        let _ = self.function_libraries.take(name);
        proof {
            assert forall|k: Seq<char>| #[trigger] self.function_libraries@.contains_key(k) implies self.function_libraries@[k].wf() by {
                assert(old(self).function_libraries@.contains_key(k));
            }
        }
    }

    /// Takes the sample library of this name out.
    pub fn remove_sample_library(&mut self, name: &str)
        requires
            old(self).wf(),
        ensures
            final(self).wf(),
            final(self).sample_libraries@ == old(self).sample_libraries@.remove(name@),
            final(self).function_libraries == old(self).function_libraries,
    {
        let _ = self.sample_libraries.take(name);
        proof {
            assert forall|k: Seq<char>| #[trigger] self.sample_libraries@.contains_key(k) implies self.sample_libraries@[k].wf() by {
                assert(old(self).sample_libraries@.contains_key(k));
            }
        }
    }

    /// Empties out the library of what the user made.
    pub fn clear_auto_library(&mut self)
        requires
            old(self).wf(),
        ensures
            final(self).wf(),
            final(self).function_libraries@ == old(self).function_libraries@.remove(auto_name()),
            final(self).sample_libraries@ == old(self).sample_libraries@.remove(auto_name()),
    {
        self.remove_function_library("auto");
        self.remove_sample_library("auto");
    }

    /// Adds a program made on the grid to the `auto` library (made if
    /// missing), unless one of its name is there already. Gives whether it
    /// was added.
    pub fn add_program_to_auto(&mut self, program: Program) -> (r: bool)
        requires
            old(self).wf(),
        ensures
            final(self).wf(),
            final(self).sample_libraries == old(self).sample_libraries,
            r == (old(self).spec_function(auto_name(), program.name@) is None),
            !r ==> final(self).functions_view() == old(self).functions_view(),
            r ==> final(self).functions_view() == old(self).functions_view().insert(
                auto_name(),
                if old(self).functions_view().contains_key(auto_name()) {
                    FLib {
                        functions: old(self).functions_view()[auto_name()].functions.insert(program.name@, program@),
                        ..old(self).functions_view()[auto_name()]
                    }
                } else {
                    FLib {
                        name: auto_name(),
                        functions: Map::empty().insert(program.name@, program@),
                        description: auto_functions_description(),
                    }
                },
            ),
    {
        if self.get_function("auto", program.name.as_str()).is_some() {
            return false;
        }
        proof {
            reveal_strlit("auto");
        }
        let ghost m0 = self.functions_view();
        let ghost p = program;
        let mut library = match self.function_libraries.take("auto") {
            Some(l) => l,
            None => FunctionLibrary {
                name: owned("auto"),
                functions: NameMap::new(),
                description: owned("Automatically generated functions from square programs"),
            },
        };
        proof {
            if m0.contains_key(auto_name()) {
                assert(old(self).function_libraries@.contains_key(auto_name()));
            } else {
                assert(library.functions@.map_values(|q: Program| q@) =~= Map::<Seq<char>, SProgram>::empty());
            }
            assert forall|k: Seq<char>| #[trigger] self.function_libraries@.contains_key(k) implies self.function_libraries@[k].wf() by {
                assert(old(self).function_libraries@.contains_key(k));
            }
        }
        let ghost l0 = library;
        let name = owned(program.name.as_str());
        library.functions.insert(name, program);
        assert(flib_view(library).functions =~= flib_view(l0).functions.insert(p.name@, p@));
        let ghost m1 = self.functions_view();
        let ghost lib = library;
        let ghost before = self.function_libraries@;
        self.function_libraries.insert(owned("auto"), library);
        proof {
            assert forall|k: Seq<char>| #[trigger] self.function_libraries@.contains_key(k) implies self.function_libraries@[k].wf() by {
                if k != auto_name() {
                    assert(before.contains_key(k));
                }
            }
            assert(self.functions_view() =~= m1.insert(auto_name(), flib_view(lib)));
            assert(m1 =~= m0.remove(auto_name()));
            assert(self.functions_view() =~= m0.insert(auto_name(), flib_view(lib)));
        }
        true
    }

    /// Adds a sample template to the `auto` sample library (made if missing),
    /// unless one of its name is there already. Gives whether it was added.
    pub fn add_sample_to_auto(&mut self, template: SampleTemplate) -> (r: bool)
        requires
            old(self).wf(),
        ensures
            final(self).wf(),
            final(self).function_libraries == old(self).function_libraries,
            r == (old(self).spec_sample(auto_name(), template.name@) is None),
            !r ==> final(self).samples_view() == old(self).samples_view(),
            r ==> final(self).samples_view() == old(self).samples_view().insert(
                auto_name(),
                if old(self).samples_view().contains_key(auto_name()) {
                    SLib {
                        samples: old(self).samples_view()[auto_name()].samples.insert(
                            template.name@,
                            template_view(template),
                        ),
                        ..old(self).samples_view()[auto_name()]
                    }
                } else {
                    SLib {
                        name: auto_name(),
                        samples: Map::empty().insert(template.name@, template_view(template)),
                        description: auto_samples_description(),
                    }
                },
            ),
    {
        if self.get_sample_template("auto", template.name.as_str()).is_some() {
            return false;
        }
        proof {
            reveal_strlit("auto");
        }
        let ghost m0 = self.samples_view();
        let ghost t = template;
        let mut library = match self.sample_libraries.take("auto") {
            Some(l) => l,
            None => SampleLibrary {
                name: owned("auto"),
                samples: NameMap::new(),
                description: owned("Automatically generated samples from loaded files"),
            },
        };
        proof {
            if m0.contains_key(auto_name()) {
                assert(old(self).sample_libraries@.contains_key(auto_name()));
            } else {
                assert(library.samples@.map_values(|q: SampleTemplate| template_view(q)) =~= Map::<
                    Seq<char>,
                    STemplate,
                >::empty());
            }
            assert forall|k: Seq<char>| #[trigger] self.sample_libraries@.contains_key(k) implies self.sample_libraries@[k].wf() by {
                assert(old(self).sample_libraries@.contains_key(k));
            }
        }
        let ghost l0 = library;
        let name = owned(template.name.as_str());
        library.samples.insert(name, template);
        assert(slib_view(library).samples =~= slib_view(l0).samples.insert(t.name@, template_view(t)));
        let ghost m1 = self.samples_view();
        let ghost lib = library;
        let ghost before = self.sample_libraries@;
        self.sample_libraries.insert(owned("auto"), library);
        proof {
            assert forall|k: Seq<char>| #[trigger] self.sample_libraries@.contains_key(k) implies self.sample_libraries@[k].wf() by {
                if k != auto_name() {
                    assert(before.contains_key(k));
                }
            }
            assert(self.samples_view() =~= m1.insert(auto_name(), slib_view(lib)));
            assert(m1 =~= m0.remove(auto_name()));
            assert(self.samples_view() =~= m0.insert(auto_name(), slib_view(lib)));
        }
        true
    }
}

// ---------------------------------------------------------------------------
// Programs the user saves

/// The description of a library the user's saving makes.
pub open spec fn user_library_description(name: Seq<char>) -> Seq<char> {
    "User created library: "@ + name
}

/// The function libraries with `program` put under `name` in library `lib`,
/// which is made, described as the user's, if it is missing.
pub open spec fn with_function(m: Map<Seq<char>, FLib>, lib: Seq<char>, name: Seq<char>, program: SProgram) -> Map<Seq<char>, FLib> {
    m.insert(
        lib,
        if m.contains_key(lib) {
            FLib { functions: m[lib].functions.insert(name, program), ..m[lib] }
        } else {
            FLib { name: lib, functions: Map::empty().insert(name, program), description: user_library_description(lib) }
        },
    )
}

impl LibraryManager {
    /// Puts `program` under `name` in library `library_name`, making the
    /// library if it is missing (see `with_function`). Gives whether the
    /// library was there.
    pub fn store_function(&mut self, library_name: &str, name: String, program: Program) -> (r: bool)
        requires
            old(self).wf(),
        ensures
            final(self).wf(),
            final(self).sample_libraries == old(self).sample_libraries,
            r == old(self).functions_view().contains_key(library_name@),
            final(self).functions_view() == with_function(old(self).functions_view(), library_name@, name@, program@),
    {
        let ghost m0 = self.functions_view();
        let ghost p = program;
        let ghost k0 = name@;
        let (mut library, found) = match self.function_libraries.take(library_name) {
            Some(l) => (l, true),
            None => (
                FunctionLibrary {
                    name: owned(library_name),
                    functions: NameMap::new(),
                    description: joined("User created library: ", library_name),
                },
                false,
            ),
        };
        proof {
            if m0.contains_key(library_name@) {
                assert(old(self).function_libraries@.contains_key(library_name@));
            } else {
                assert(library.functions@.map_values(|q: Program| q@) =~= Map::<Seq<char>, SProgram>::empty());
            }
            assert forall|k: Seq<char>| #[trigger] self.function_libraries@.contains_key(k) implies self.function_libraries@[k].wf() by {
                assert(old(self).function_libraries@.contains_key(k));
            }
        }
        let ghost l0 = library;
        library.functions.insert(name, program);
        assert(flib_view(library).functions =~= flib_view(l0).functions.insert(k0, p@));
        let ghost m1 = self.functions_view();
        let ghost lib = library;
        let ghost before = self.function_libraries@;
        self.function_libraries.insert(owned(library_name), library);
        proof {
            assert forall|k: Seq<char>| #[trigger] self.function_libraries@.contains_key(k) implies self.function_libraries@[k].wf() by {
                if k != library_name@ {
                    assert(before.contains_key(k));
                }
            }
            assert(self.functions_view() =~= m1.insert(library_name@, flib_view(lib)));
            assert(m1 =~= m0.remove(library_name@));
            assert(self.functions_view() =~= with_function(m0, library_name@, k0, p@));
        }
        found
    }

    /// Puts `program` under `name` in library `library_name` if there is
    /// such a library; else changes nothing. Gives whether there was.
    pub fn replace_function(&mut self, library_name: &str, name: String, program: Program) -> (r: bool)
        requires
            old(self).wf(),
        ensures
            final(self).wf(),
            final(self).sample_libraries == old(self).sample_libraries,
            r == old(self).functions_view().contains_key(library_name@),
            r ==> final(self).functions_view() == with_function(old(self).functions_view(), library_name@, name@, program@),
            !r ==> final(self).functions_view() == old(self).functions_view(),
    {
        if self.function_libraries.get(library_name).is_some() {
            self.store_function(library_name, name, program)
        } else {
            false
        }
    }
}

} // verus!
