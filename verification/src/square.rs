//! The square programming language: values, expressions, instructions and
//! programs, with their mathematical views; and the per-square state that
//! holds programs.
use vstd::prelude::*;
use vstd::multiset::Multiset;
use crate::ball::Direction;
use crate::text::{owned, str_eq};

verus! {

/// What a grid cell holds.
#[derive(Clone, Copy, PartialEq, Eq, Debug, Structural)]
pub enum CellContent {
    Empty,
    Square,
}

/// A literal value. Decimal numbers are kept as the text they were written
/// in; that text is always one `str::parse::<f32>` accepts.
#[derive(Clone, Debug)]
pub enum Value {
    Number(String),
    Direction(Direction),
    /// A direction written as a number: Right, Down, Left or Up after the
    /// integer part of that number, taken modulo 4 (other remainders: Right).
    DirectionNumber(String),
    Boolean(bool),
    String(String),
    Coordinate(String, String),
}

#[derive(Clone, Copy, PartialEq, Eq, Debug, Structural)]
pub enum BinaryOperator {
    Add,
    Sub,
    Mul,
    Div,
    Mod,
    Equal,
    NotEqual,
    Less,
    Greater,
    LessEqual,
    GreaterEqual,
    And,
    Or,
}

#[derive(Clone, Copy, PartialEq, Eq, Debug, Structural)]
pub enum BallProperty {
    Speed,
    Direction,
    X,
    Y,
    HitCount,
    Pitch,
    Volume,
}

#[derive(Debug)]
pub enum Expression {
    Literal(Value),
    Variable(String),
    GlobalVariable(String),
    BinaryOp { left: Box<Expression>, op: BinaryOperator, right: Box<Expression> },
    BallProperty(BallProperty),
    Random { min: String, max: String },
}

#[derive(Debug)]
pub enum DestroyTarget {
    Coordinates { x: Expression, y: Expression },
    BallReference(String),
}

#[derive(Debug)]
pub enum Instruction {
    SetSpeed(Expression),
    SetDirection(Expression),
    SetPitch(Expression),
    SetVolume(Expression),
    SetColor(Expression),
    Bounce,
    Stop,
    SetVariable { name: String, value: Expression },
    SetGlobalVariable { name: String, value: Expression },
    If { condition: Expression, then_block: Vec<Instruction>, else_block: Option<Vec<Instruction>> },
    Loop { count: Expression, body: Vec<Instruction> },
    RepeatAnd { count: Expression, body: Vec<Instruction> },
    RepeatThen { count: Expression, body: Vec<Instruction> },
    ExecuteProgram(Program),
    ExecuteLibraryFunction { library_function: String },
    ContinueToNext,
    Return(Option<String>),
    End,
    PlaySample(Expression),
    SetReverse { ball_reference: String, speed: Expression },
    SetSliceArray { markers: Vec<u32> },
    SpawnBall { x: Expression, y: Expression, speed: Expression, direction: Expression },
    CreateBall { x: Expression, y: Expression, speed: Expression, direction: Expression },
    CreateSquare { x: Expression, y: Expression },
    CreateSquareWithProgram { x: Expression, y: Expression, program: Program },
    CreateBallFromSample { x: Expression, y: Expression, library_name: String, sample_name: String },
    CreateSquareFromSample { x: Expression, y: Expression, library_name: String, sample_name: String },
    CreateBallWithLibrary { x: Expression, y: Expression, library_function: String, audio_file: Option<String> },
    CreateSquareWithLibrary { x: Expression, y: Expression, library_function: String, audio_file: Option<String> },
    DestroyBall { target: DestroyTarget },
    DestroySquare { target: DestroyTarget },
    Print(Expression),
}

#[derive(Debug)]
pub struct Program {
    pub instructions: Vec<Instruction>,
    pub name: String,
    /// The text the program was written in, kept for editing.
    pub source_text: Option<Vec<String>>,
}

// ---------------------------------------------------------------------------
// Mathematical views: strings become character sequences, vectors sequences.

pub enum SValue {
    Number(Seq<char>),
    Direction(Direction),
    DirectionNumber(Seq<char>),
    Boolean(bool),
    Text(Seq<char>),
    Coordinate(Seq<char>, Seq<char>),
}

pub enum SExpr {
    Literal(SValue),
    Variable(Seq<char>),
    GlobalVariable(Seq<char>),
    BinaryOp { left: Box<SExpr>, op: BinaryOperator, right: Box<SExpr> },
    BallProperty(BallProperty),
    Random { min: Seq<char>, max: Seq<char> },
}

pub enum STarget {
    Coordinates { x: SExpr, y: SExpr },
    BallReference(Seq<char>),
}

pub enum SInstr {
    SetSpeed(SExpr),
    SetDirection(SExpr),
    SetPitch(SExpr),
    SetVolume(SExpr),
    SetColor(SExpr),
    Bounce,
    Stop,
    SetVariable { name: Seq<char>, value: SExpr },
    SetGlobalVariable { name: Seq<char>, value: SExpr },
    If { condition: SExpr, then_block: Seq<SInstr>, else_block: Option<Seq<SInstr>> },
    Loop { count: SExpr, body: Seq<SInstr> },
    RepeatAnd { count: SExpr, body: Seq<SInstr> },
    RepeatThen { count: SExpr, body: Seq<SInstr> },
    ExecuteProgram(SProgram),
    ExecuteLibraryFunction { library_function: Seq<char> },
    ContinueToNext,
    Return(Option<Seq<char>>),
    End,
    PlaySample(SExpr),
    SetReverse { ball_reference: Seq<char>, speed: SExpr },
    SetSliceArray { markers: Seq<u32> },
    SpawnBall { x: SExpr, y: SExpr, speed: SExpr, direction: SExpr },
    CreateBall { x: SExpr, y: SExpr, speed: SExpr, direction: SExpr },
    CreateSquare { x: SExpr, y: SExpr },
    CreateSquareWithProgram { x: SExpr, y: SExpr, program: SProgram },
    CreateBallFromSample { x: SExpr, y: SExpr, library_name: Seq<char>, sample_name: Seq<char> },
    CreateSquareFromSample { x: SExpr, y: SExpr, library_name: Seq<char>, sample_name: Seq<char> },
    CreateBallWithLibrary { x: SExpr, y: SExpr, library_function: Seq<char>, audio_file: Option<Seq<char>> },
    CreateSquareWithLibrary { x: SExpr, y: SExpr, library_function: Seq<char>, audio_file: Option<Seq<char>> },
    DestroyBall { target: STarget },
    DestroySquare { target: STarget },
    Print(SExpr),
}

pub struct SProgram {
    pub instructions: Seq<SInstr>,
    pub name: Seq<char>,
    pub source_text: Option<Seq<Seq<char>>>,
}

pub open spec fn value_view(v: Value) -> SValue {
    match v {
        Value::Number(t) => SValue::Number(t@),
        Value::Direction(d) => SValue::Direction(d),
        Value::DirectionNumber(t) => SValue::DirectionNumber(t@),
        Value::Boolean(b) => SValue::Boolean(b),
        Value::String(t) => SValue::Text(t@),
        Value::Coordinate(x, y) => SValue::Coordinate(x@, y@),
    }
}

pub open spec fn expr_view(e: Expression) -> SExpr
    decreases e,
{
    match e {
        Expression::Literal(v) => SExpr::Literal(value_view(v)),
        Expression::Variable(n) => SExpr::Variable(n@),
        Expression::GlobalVariable(n) => SExpr::GlobalVariable(n@),
        Expression::BinaryOp { left, op, right } => SExpr::BinaryOp {
            left: Box::new(expr_view(*left)),
            op,
            right: Box::new(expr_view(*right)),
        },
        Expression::BallProperty(p) => SExpr::BallProperty(p),
        Expression::Random { min, max } => SExpr::Random { min: min@, max: max@ },
    }
}

pub open spec fn target_view(t: DestroyTarget) -> STarget {
    match t {
        DestroyTarget::Coordinates { x, y } => STarget::Coordinates { x: expr_view(x), y: expr_view(y) },
        DestroyTarget::BallReference(r) => STarget::BallReference(r@),
    }
}

pub open spec fn opt_text_view(o: Option<String>) -> Option<Seq<char>> {
    match o {
        Some(s) => Some(s@),
        None => None,
    }
}

pub open spec fn texts_view(v: Seq<String>) -> Seq<Seq<char>> {
    v.map_values(|s: String| s@)
}

pub open spec fn instr_view(i: Instruction) -> SInstr
    decreases i,
{
    match i {
        Instruction::SetSpeed(e) => SInstr::SetSpeed(expr_view(e)),
        Instruction::SetDirection(e) => SInstr::SetDirection(expr_view(e)),
        Instruction::SetPitch(e) => SInstr::SetPitch(expr_view(e)),
        Instruction::SetVolume(e) => SInstr::SetVolume(expr_view(e)),
        Instruction::SetColor(e) => SInstr::SetColor(expr_view(e)),
        Instruction::Bounce => SInstr::Bounce,
        Instruction::Stop => SInstr::Stop,
        Instruction::SetVariable { name, value } => SInstr::SetVariable { name: name@, value: expr_view(value) },
        Instruction::SetGlobalVariable { name, value } => SInstr::SetGlobalVariable {
            name: name@,
            value: expr_view(value),
        },
        Instruction::If { condition, then_block, else_block } => SInstr::If {
            condition: expr_view(condition),
            then_block: instrs_view(then_block@),
            else_block: match else_block {
                Some(b) => Some(instrs_view(b@)),
                None => None,
            },
        },
        Instruction::Loop { count, body } => SInstr::Loop { count: expr_view(count), body: instrs_view(body@) },
        Instruction::RepeatAnd { count, body } => SInstr::RepeatAnd {
            count: expr_view(count),
            body: instrs_view(body@),
        },
        Instruction::RepeatThen { count, body } => SInstr::RepeatThen {
            count: expr_view(count),
            body: instrs_view(body@),
        },
        Instruction::ExecuteProgram(p) => SInstr::ExecuteProgram(program_view(p)),
        Instruction::ExecuteLibraryFunction { library_function } => SInstr::ExecuteLibraryFunction {
            library_function: library_function@,
        },
        Instruction::ContinueToNext => SInstr::ContinueToNext,
        Instruction::Return(n) => SInstr::Return(opt_text_view(n)),
        Instruction::End => SInstr::End,
        Instruction::PlaySample(e) => SInstr::PlaySample(expr_view(e)),
        Instruction::SetReverse { ball_reference, speed } => SInstr::SetReverse {
            ball_reference: ball_reference@,
            speed: expr_view(speed),
        },
        Instruction::SetSliceArray { markers } => SInstr::SetSliceArray { markers: markers@ },
        Instruction::SpawnBall { x, y, speed, direction } => SInstr::SpawnBall {
            x: expr_view(x),
            y: expr_view(y),
            speed: expr_view(speed),
            direction: expr_view(direction),
        },
        Instruction::CreateBall { x, y, speed, direction } => SInstr::CreateBall {
            x: expr_view(x),
            y: expr_view(y),
            speed: expr_view(speed),
            direction: expr_view(direction),
        },
        Instruction::CreateSquare { x, y } => SInstr::CreateSquare { x: expr_view(x), y: expr_view(y) },
        Instruction::CreateSquareWithProgram { x, y, program } => SInstr::CreateSquareWithProgram {
            x: expr_view(x),
            y: expr_view(y),
            program: program_view(program),
        },
        Instruction::CreateBallFromSample { x, y, library_name, sample_name } => SInstr::CreateBallFromSample {
            x: expr_view(x),
            y: expr_view(y),
            library_name: library_name@,
            sample_name: sample_name@,
        },
        Instruction::CreateSquareFromSample { x, y, library_name, sample_name } => SInstr::CreateSquareFromSample {
            x: expr_view(x),
            y: expr_view(y),
            library_name: library_name@,
            sample_name: sample_name@,
        },
        Instruction::CreateBallWithLibrary { x, y, library_function, audio_file } => SInstr::CreateBallWithLibrary {
            x: expr_view(x),
            y: expr_view(y),
            library_function: library_function@,
            audio_file: opt_text_view(audio_file),
        },
        Instruction::CreateSquareWithLibrary { x, y, library_function, audio_file } => SInstr::CreateSquareWithLibrary {
            x: expr_view(x),
            y: expr_view(y),
            library_function: library_function@,
            audio_file: opt_text_view(audio_file),
        },
        Instruction::DestroyBall { target } => SInstr::DestroyBall { target: target_view(target) },
        Instruction::DestroySquare { target } => SInstr::DestroySquare { target: target_view(target) },
        Instruction::Print(e) => SInstr::Print(expr_view(e)),
    }
}

pub open spec fn instrs_view(s: Seq<Instruction>) -> Seq<SInstr>
    decreases s,
{
    Seq::new(s.len(), |k: int| if 0 <= k < s.len() { instr_view(s[k]) } else { SInstr::Bounce })
}

pub open spec fn program_view(p: Program) -> SProgram
    decreases p,
{
    SProgram {
        instructions: instrs_view(p.instructions@),
        name: p.name@,
        source_text: match p.source_text {
            Some(t) => Some(texts_view(t@)),
            None => None,
        },
    }
}

impl View for Value {
    type V = SValue;

    open spec fn view(&self) -> SValue {
        value_view(*self)
    }
}

impl View for Expression {
    type V = SExpr;

    open spec fn view(&self) -> SExpr {
        expr_view(*self)
    }
}

impl View for DestroyTarget {
    type V = STarget;

    open spec fn view(&self) -> STarget {
        target_view(*self)
    }
}

impl View for Instruction {
    type V = SInstr;

    open spec fn view(&self) -> SInstr {
        instr_view(*self)
    }
}

impl View for Program {
    type V = SProgram;

    open spec fn view(&self) -> SProgram {
        program_view(*self)
    }
}

/// Appending an instruction appends its view.
pub proof fn lemma_instrs_view_push(s: Seq<Instruction>, i: Instruction)
    ensures
        instrs_view(s.push(i)) == instrs_view(s).push(instr_view(i)),
{
    assert(instrs_view(s.push(i)) =~= instrs_view(s).push(instr_view(i)));
}

pub proof fn lemma_instrs_view_empty()
    ensures
        instrs_view(Seq::<Instruction>::empty()) == Seq::<SInstr>::empty(),
{
    assert(instrs_view(Seq::<Instruction>::empty()) =~= Seq::<SInstr>::empty());
}

pub open spec fn programs_view(v: Seq<Program>) -> Seq<SProgram> {
    v.map_values(|p: Program| p@)
}

// ---------------------------------------------------------------------------
// Squares

/// What a square does to a ball that hits it, in the step-based programs.
#[derive(Clone, Copy, PartialEq, Eq, Debug, Structural)]
pub enum SquareEffect {
    /// The ball passes through.
    PassThrough,
    /// The ball turns around.
    Bounce,
    /// The ball's speed is multiplied by a factor, kept here as the bits of
    /// its `f32` (`f32::to_bits`).
    SpeedBoost(u32),
    DirectionChange(Direction),
    /// The ball stops.
    Stop,
    /// A sample is played (an index into the samples).
    Sample(usize),
    /// A program is run (an index into the square's programs).
    Program(usize),
}

/// An effect and the hit count that triggers it.
#[derive(Clone, Copy, PartialEq, Eq, Debug, Structural)]
pub struct ProgramStep {
    pub trigger_hits: u32,
    pub effect: SquareEffect,
}

/// The programming of one square.
pub struct SquareProgram {
    /// The step-based program, kept in order of trigger counts.
    pub steps: Vec<ProgramStep>,
    pub programs: Vec<Program>,
    pub hit_count: u32,
    /// An index into the samples.
    pub sample_path: Option<usize>,
    /// The index of the program that runs when the square is hit.
    pub active_program: Option<usize>,
}

/// The program every new square starts with: bounce.
pub open spec fn default_program() -> SProgram {
    SProgram { instructions: seq![SInstr::Bounce], name: "Default"@, source_text: None }
}

pub open spec fn default_steps() -> Seq<ProgramStep> {
    seq![ProgramStep { trigger_hits: 1, effect: SquareEffect::Bounce }]
}

/// The state of a new square's programming.
pub open spec fn is_default_square_program(p: SquareProgram) -> bool {
    &&& p.steps@ == default_steps()
    &&& programs_view(p.programs@) == seq![default_program()]
    &&& p.hit_count == 0
    &&& p.sample_path is None
    &&& p.active_program == Some(0usize)
}

/// Where `x` goes among the steps `t`: after every step whose trigger count
/// is at most its own.
pub open spec fn insertion_point(t: Seq<ProgramStep>, key: u32, i: int) -> int
    decreases t.len() - i,
{
    if i < 0 || i >= t.len() {
        t.len() as int
    } else if t[i].trigger_hits > key {
        i
    } else {
        insertion_point(t, key, i + 1)
    }
}

pub open spec fn insert_stable(t: Seq<ProgramStep>, x: ProgramStep) -> Seq<ProgramStep> {
    t.insert(insertion_point(t, x.trigger_hits, 0), x)
}

/// `s` sorted by trigger count, steps with equal counts kept in the order
/// they had (a stable sort).
pub open spec fn sorted_steps(s: Seq<ProgramStep>) -> Seq<ProgramStep>
    decreases s.len(),
{
    if s.len() == 0 {
        s
    } else {
        insert_stable(sorted_steps(s.drop_last()), s.last())
    }
}

pub open spec fn is_sorted_by_trigger(s: Seq<ProgramStep>) -> bool {
    forall|i: int, j: int| 0 <= i <= j < s.len() ==> s[i].trigger_hits <= s[j].trigger_hits
}

/// The effects of the steps triggered by `hits`, in order.
pub open spec fn effects_for(steps: Seq<ProgramStep>, hits: u32) -> Seq<SquareEffect>
    decreases steps.len(),
{
    if steps.len() == 0 {
        seq![]
    } else {
        let rest = effects_for(steps.drop_last(), hits);
        if steps.last().trigger_hits == hits {
            rest.push(steps.last().effect)
        } else {
            rest
        }
    }
}

/// The program a square starts with, or a square's active program, unchanged.
pub open spec fn is_untouched_default(p: SProgram) -> bool {
    p.name == "Default"@ && p.instructions.len() == 1 && p.instructions[0] is Bounce
}

proof fn lemma_insertion_point_bounds(t: Seq<ProgramStep>, key: u32, i: int)
    requires
        0 <= i <= t.len(),
    ensures
        i <= insertion_point(t, key, i) <= t.len(),
        forall|j: int| i <= j < insertion_point(t, key, i) ==> t[j].trigger_hits <= key,
        insertion_point(t, key, i) < t.len() ==> t[insertion_point(t, key, i)].trigger_hits > key,
    decreases t.len() - i,
{
    if i < t.len() && t[i].trigger_hits <= key {
        lemma_insertion_point_bounds(t, key, i + 1);
    }
}

/// Inserting a step where `insert_stable` puts it keeps steps sorted.
proof fn lemma_insert_stable_sorted(t: Seq<ProgramStep>, x: ProgramStep)
    requires
        is_sorted_by_trigger(t),
    ensures
        is_sorted_by_trigger(insert_stable(t, x)),
        insert_stable(t, x).to_multiset() == t.to_multiset().insert(x),
{
    let k = insertion_point(t, x.trigger_hits, 0);
    lemma_insertion_point_bounds(t, x.trigger_hits, 0);
    let r = insert_stable(t, x);
    assert(r =~= t.take(k) + seq![x] + t.skip(k));
    assert forall|i: int, j: int| 0 <= i <= j < r.len() implies r[i].trigger_hits <= r[j].trigger_hits by {
        if j < k {
        } else if j == k {
            if i < k {
                assert(r[i] == t[i]);
            }
        } else {
            assert(r[j] == t[j - 1]);
            if i < k {
                assert(r[i] == t[i]);
            } else if i == k {
                assert(t[k].trigger_hits > x.trigger_hits);
                assert(t[k].trigger_hits <= t[j - 1].trigger_hits);
            } else {
                assert(r[i] == t[i - 1]);
            }
        }
    }
    vstd::seq_lib::lemma_seq_union_to_multiset_commutative(t.take(k), seq![x]);
    assert(t =~= t.take(k) + t.skip(k));
    vstd::seq_lib::lemma_multiset_commutative(t.take(k), t.skip(k));
    vstd::seq_lib::lemma_multiset_commutative(t.take(k) + seq![x], t.skip(k));
    vstd::seq_lib::lemma_multiset_commutative(t.take(k), seq![x]);
    assert(seq![x].to_multiset() =~= Multiset::singleton(x)) by {
        broadcast use vstd::seq_lib::group_to_multiset_ensures;
        assert(seq![x] =~= Seq::<ProgramStep>::empty().push(x));
    }
}

/// The steps come out of `sorted_steps` sorted by trigger count, and the
/// same steps as went in.
pub proof fn lemma_sorted_steps(s: Seq<ProgramStep>)
    ensures
        is_sorted_by_trigger(sorted_steps(s)),
        sorted_steps(s).to_multiset() == s.to_multiset(),
    decreases s.len(),
{
    if s.len() == 0 {
        assert(s.to_multiset() =~= Multiset::empty()) by {
            broadcast use vstd::seq_lib::group_to_multiset_ensures;
        }
    } else {
        lemma_sorted_steps(s.drop_last());
        lemma_insert_stable_sorted(sorted_steps(s.drop_last()), s.last());
        assert(s =~= s.drop_last().push(s.last()));
        broadcast use vstd::seq_lib::group_to_multiset_ensures;
    }
}

/// Adding a step to sorted steps puts it after every step whose trigger
/// count is at most its own and before the others, which keep their order.
pub proof fn lemma_add_step_stable(t: Seq<ProgramStep>, x: ProgramStep)
    requires
        is_sorted_by_trigger(t),
    ensures
        sorted_steps(t.push(x)) == insert_stable(sorted_steps(t), x),
        sorted_steps(t) == t,
    decreases t.len(),
{
    lemma_sorted_steps_identity(t);
    assert(t.push(x).drop_last() =~= t);
}

/// Sorting steps that are sorted leaves them as they are.
pub proof fn lemma_sorted_steps_identity(t: Seq<ProgramStep>)
    requires
        is_sorted_by_trigger(t),
    ensures
        sorted_steps(t) == t,
    decreases t.len(),
{
    if t.len() > 0 {
        let p = t.drop_last();
        assert(is_sorted_by_trigger(p));
        lemma_sorted_steps_identity(p);
        lemma_insertion_point_bounds(p, t.last().trigger_hits, 0);
        let k = insertion_point(p, t.last().trigger_hits, 0);
        if k < p.len() {
            assert(p[k] == t[k]);
            assert(false);
        }
        assert(p.insert(p.len() as int, t.last()) =~= t);
    }
}

/// The steps of `s` whose trigger count is `k`, in the order they have in `s`.
pub open spec fn steps_with_count(s: Seq<ProgramStep>, k: u32) -> Seq<ProgramStep>
    decreases s.len(),
{
    if s.len() == 0 {
        Seq::empty()
    } else {
        let r = steps_with_count(s.drop_last(), k);
        if s.last().trigger_hits == k {
            r.push(s.last())
        } else {
            r
        }
    }
}

proof fn lemma_steps_with_count_append(a: Seq<ProgramStep>, b: Seq<ProgramStep>, k: u32)
    ensures
        steps_with_count(a + b, k) == steps_with_count(a, k) + steps_with_count(b, k),
    decreases b.len(),
{
    if b.len() == 0 {
        assert(a + b =~= a);
        assert(steps_with_count(a, k) + steps_with_count(b, k) =~= steps_with_count(a, k));
    } else {
        lemma_steps_with_count_append(a, b.drop_last(), k);
        assert((a + b).drop_last() =~= a + b.drop_last());
        assert((a + b).last() == b.last());
        if b.last().trigger_hits == k {
            assert(steps_with_count(a, k) + steps_with_count(b.drop_last(), k).push(b.last()) =~= (steps_with_count(
                a,
                k,
            ) + steps_with_count(b.drop_last(), k)).push(b.last()));
        }
    }
}

proof fn lemma_steps_with_count_none(u: Seq<ProgramStep>, k: u32)
    requires
        forall|j: int| 0 <= j < u.len() ==> #[trigger] u[j].trigger_hits != k,
    ensures
        steps_with_count(u, k) == Seq::<ProgramStep>::empty(),
    decreases u.len(),
{
    if u.len() > 0 {
        lemma_steps_with_count_none(u.drop_last(), k);
        assert(u.last() == u[u.len() - 1]);
    }
}

proof fn lemma_insert_stable_keeps_order(t: Seq<ProgramStep>, x: ProgramStep, k: u32)
    requires
        is_sorted_by_trigger(t),
    ensures
        steps_with_count(insert_stable(t, x), k) == if x.trigger_hits == k {
            steps_with_count(t, k).push(x)
        } else {
            steps_with_count(t, k)
        },
{
    let p = insertion_point(t, x.trigger_hits, 0);
    lemma_insertion_point_bounds(t, x.trigger_hits, 0);
    let a = t.take(p);
    let b = t.skip(p);
    assert(insert_stable(t, x) =~= a + seq![x] + b);
    assert(t =~= a + b);
    lemma_steps_with_count_append(a + seq![x], b, k);
    lemma_steps_with_count_append(a, seq![x], k);
    lemma_steps_with_count_append(a, b, k);
    assert(seq![x].drop_last() =~= Seq::<ProgramStep>::empty());
    assert(seq![x].last() == x);
    assert(steps_with_count(Seq::<ProgramStep>::empty(), k) == Seq::<ProgramStep>::empty());
    assert(steps_with_count(seq![x], k) == if x.trigger_hits == k {
        Seq::<ProgramStep>::empty().push(x)
    } else {
        Seq::<ProgramStep>::empty()
    });
    if x.trigger_hits == k {
        assert forall|j: int| 0 <= j < b.len() implies #[trigger] b[j].trigger_hits != k by {
            assert(b[j] == t[p + j]);
            assert(t[p].trigger_hits > x.trigger_hits);
            assert(t[p].trigger_hits <= t[p + j].trigger_hits);
        }
        lemma_steps_with_count_none(b, k);
        assert(steps_with_count(a, k) + steps_with_count(seq![x], k) =~= steps_with_count(a, k).push(x));
        assert(steps_with_count(a, k) + steps_with_count(b, k) =~= steps_with_count(a, k));
        assert(steps_with_count(a, k).push(x) + steps_with_count(b, k) =~= steps_with_count(a, k).push(x));
    } else {
        assert(steps_with_count(a, k) + steps_with_count(seq![x], k) =~= steps_with_count(a, k));
    }
}

/// Sorting steps is stable whatever order they came in: the steps of each
/// trigger count come out in the order they went in.
pub proof fn lemma_sorted_steps_stable(s: Seq<ProgramStep>, k: u32)
    ensures
        steps_with_count(sorted_steps(s), k) == steps_with_count(s, k),
    decreases s.len(),
{
    if s.len() > 0 {
        lemma_sorted_steps_stable(s.drop_last(), k);
        lemma_sorted_steps(s.drop_last());
        lemma_insert_stable_keeps_order(sorted_steps(s.drop_last()), s.last(), k);
    }
}

/// Adding a step to any steps leaves them sorted by trigger count, holding
/// the same steps and the new one, each trigger count's steps in the order
/// they were added: the new step after the others of its count.
pub proof fn lemma_add_step_sorts(t: Seq<ProgramStep>, x: ProgramStep, k: u32)
    ensures
        is_sorted_by_trigger(sorted_steps(t.push(x))),
        sorted_steps(t.push(x)).to_multiset() == t.push(x).to_multiset(),
        steps_with_count(sorted_steps(t.push(x)), k) == if x.trigger_hits == k {
            steps_with_count(t, k).push(x)
        } else {
            steps_with_count(t, k)
        },
{
    lemma_sorted_steps(t.push(x));
    lemma_sorted_steps_stable(t.push(x), k);
    assert(t.push(x).drop_last() =~= t);
}

impl SquareProgram {
    pub open spec fn active(&self) -> Option<usize> {
        self.active_program
    }

    /// A new square's programming (see `is_default_square_program`).
    pub fn new() -> (r: Self)
        ensures
            is_default_square_program(r),
    {
        Self::default()
    }

    /// Adds a step and sorts the steps by trigger count, keeping the order
    /// of steps with the same count.
    pub fn add_step(&mut self, trigger_hits: u32, effect: SquareEffect)
        ensures
            final(self).steps@ == sorted_steps(old(self).steps@.push(ProgramStep { trigger_hits, effect })),
            final(self).programs@ == old(self).programs@,
            final(self).hit_count == old(self).hit_count,
            final(self).sample_path == old(self).sample_path,
            final(self).active_program == old(self).active_program,
    {
        self.steps.push(ProgramStep { trigger_hits, effect });
        let ghost all = self.steps@;
        let mut sorted: Vec<ProgramStep> = Vec::new();
        let mut i: usize = 0;
        while i < self.steps.len()
            invariant
                all == self.steps@,
                i <= self.steps.len(),
                sorted@ == sorted_steps(all.take(i as int)),
            decreases self.steps.len() - i,
        {
            let x = self.steps[i];
            let ghost t = sorted@;
            let mut k: usize = 0;
            while k < sorted.len() && sorted[k].trigger_hits <= x.trigger_hits
                invariant
                    sorted@ == t,
                    k <= sorted.len(),
                    insertion_point(t, x.trigger_hits, 0) == insertion_point(t, x.trigger_hits, k as int),
                decreases sorted.len() - k,
            {
                k = k + 1;
            }
            sorted.insert(k, x);
            assert(all.take(i + 1).drop_last() =~= all.take(i as int));
            i = i + 1;
        }
        assert(all.take(i as int) =~= all);
        self.steps = sorted;
    }

    /// Removes every step.
    pub fn clear_steps(&mut self)
        ensures
            final(self).steps@ == Seq::<ProgramStep>::empty(),
            final(self).programs@ == old(self).programs@,
            final(self).hit_count == old(self).hit_count,
            final(self).sample_path == old(self).sample_path,
            final(self).active_program == old(self).active_program,
    {
        self.steps.clear();
    }

    /// Removes the step at `step_index`, if there is one.
    pub fn delete_step(&mut self, step_index: usize)
        ensures
            final(self).steps@ == if step_index < old(self).steps@.len() {
                old(self).steps@.remove(step_index as int)
            } else {
                old(self).steps@
            },
            final(self).programs@ == old(self).programs@,
            final(self).hit_count == old(self).hit_count,
            final(self).sample_path == old(self).sample_path,
            final(self).active_program == old(self).active_program,
    {
        if step_index < self.steps.len() {
            self.steps.remove(step_index);
        }
    }

    /// The effects of the steps a hit count triggers, in step order.
    pub fn get_effects_for_hit_count(&self, hit_count: u32) -> (r: Vec<SquareEffect>)
        ensures
            r@ == effects_for(self.steps@, hit_count),
    {
        let mut r: Vec<SquareEffect> = Vec::new();
        let mut i: usize = 0;
        while i < self.steps.len()
            invariant
                i <= self.steps.len(),
                r@ == effects_for(self.steps@.take(i as int), hit_count),
            decreases self.steps.len() - i,
        {
            assert(self.steps@.take(i + 1).drop_last() =~= self.steps@.take(i as int));
            if self.steps[i].trigger_hits == hit_count {
                r.push(self.steps[i].effect);
            }
            i = i + 1;
        }
        assert(self.steps@.take(i as int) =~= self.steps@);
        r
    }

    /// Sets the hit count back to zero.
    pub fn reset_hits(&mut self)
        ensures
            final(self).hit_count == 0,
            final(self).steps@ == old(self).steps@,
            final(self).programs@ == old(self).programs@,
            final(self).sample_path == old(self).sample_path,
            final(self).active_program == old(self).active_program,
    {
        self.hit_count = 0;
    }

    /// Adds a program after the others.
    pub fn add_program(&mut self, program: Program)
        ensures
            final(self).programs@ == old(self).programs@.push(program),
            final(self).steps@ == old(self).steps@,
            final(self).hit_count == old(self).hit_count,
            final(self).sample_path == old(self).sample_path,
            final(self).active_program == old(self).active_program,
    {
        self.programs.push(program);
    }

    /// Replaces the program at `index`, if there is one.
    pub fn update_program(&mut self, index: usize, program: Program)
        ensures
            final(self).programs@ == if index < old(self).programs@.len() {
                old(self).programs@.update(index as int, program)
            } else {
                old(self).programs@
            },
            final(self).steps@ == old(self).steps@,
            final(self).hit_count == old(self).hit_count,
            final(self).sample_path == old(self).sample_path,
            final(self).active_program == old(self).active_program,
    {
        if index < self.programs.len() {
            self.programs.set(index, program);
        }
    }

    /// Takes in programs saved from the square's menu. With an index, the
    /// first of them replaces the program there (if there is one) and that
    /// index becomes active, and the others are added after the square's
    /// programs; without one, all are added and the first of them becomes
    /// active. With no program to save nothing changes.
    pub fn save_programs(&mut self, programs: &Vec<Program>, program_index: Option<usize>)
        ensures
            final(self).steps@ == old(self).steps@,
            final(self).hit_count == old(self).hit_count,
            final(self).sample_path == old(self).sample_path,
            programs@.len() == 0 ==> programs_view(final(self).programs@) == programs_view(old(self).programs@)
                && final(self).active_program == old(self).active_program,
            programs@.len() > 0 ==> match program_index {
                Some(i) => {
                    &&& programs_view(final(self).programs@) == (if i < old(self).programs@.len() {
                        programs_view(old(self).programs@).update(i as int, programs@[0]@)
                    } else {
                        programs_view(old(self).programs@)
                    }) + programs_view(programs@.skip(1))
                    &&& final(self).active_program == Some(i)
                },
                None => {
                    &&& programs_view(final(self).programs@) == programs_view(old(self).programs@)
                        + programs_view(programs@)
                    &&& final(self).active_program == Some(old(self).programs@.len() as usize)
                },
            },
    {
        if programs.len() == 0 {
            return;
        }
        let ghost old_view = programs_view(self.programs@);
        let first_new: usize = self.programs.len();
        let start: usize = match program_index {
            Some(i) => {
                self.update_program(i, copy_program(&programs[0]));
                self.set_active_program(Some(i));
                1
            },
            None => 0,
        };
        let ghost base = programs_view(self.programs@);
        proof {
            assert(base == if program_index is Some && (program_index->0) < old(self).programs@.len() {
                old_view.update(program_index->0 as int, programs@[0]@)
            } else {
                old_view
            });
        }
        let mut k: usize = start;
        while k < programs.len()
            invariant
                start <= k <= programs.len(),
                programs_view(self.programs@) == base + programs_view(programs@.subrange(start as int, k as int)),
                self.steps@ == old(self).steps@,
                self.hit_count == old(self).hit_count,
                self.sample_path == old(self).sample_path,
                self.active_program == (match program_index {
                    Some(i) => Some(i),
                    None => old(self).active_program,
                }),
            decreases programs.len() - k,
        {
            let ghost before = programs_view(self.programs@);
            self.add_program(copy_program(&programs[k]));
            proof {
                assert(programs@.subrange(start as int, k + 1) =~= programs@.subrange(start as int, k as int).push(
                    programs@[k as int],
                ));
                assert(programs_view(programs@.subrange(start as int, k + 1)) =~= programs_view(
                    programs@.subrange(start as int, k as int),
                ).push(programs@[k as int]@));
                assert(programs_view(self.programs@) =~= before.push(programs@[k as int]@));
            }
            k = k + 1;
        }
        proof {
            assert(programs@.subrange(start as int, programs@.len() as int) =~= programs@.skip(start as int));
        }
        if program_index.is_none() {
            self.set_active_program(Some(first_new));
        }
    }

    /// A hit that may run the square's program: the hit is counted, and the
    /// index of the active program is returned if the square has a program
    /// there.
    pub fn register_hit(&mut self) -> (r: Option<usize>)
        requires
            old(self).hit_count < u32::MAX,
        ensures
            *final(self) == (SquareProgram { hit_count: (old(self).hit_count + 1) as u32, ..*old(self) }),
            r == match old(self).active_program {
                Some(i) => if i < old(self).programs@.len() { Some(i) } else { None },
                None => None,
            },
    {
        self.hit_count = self.hit_count + 1;
        if self.programs.len() == 0 {
            return None;
        }
        match self.active_program {
            Some(i) => if i < self.programs.len() { Some(i) } else { None },
            None => None,
        }
    }

    /// The program at `index`, if there is one.
    pub fn get_program(&self, index: usize) -> (r: Option<&Program>)
        ensures
            r == if index < self.programs@.len() { Some(&self.programs@[index as int]) } else { None },
    {
        if index < self.programs.len() {
            Some(&self.programs[index])
        } else {
            None
        }
    }

    /// Chooses the program that runs when the square is hit.
    pub fn set_active_program(&mut self, index: Option<usize>)
        ensures
            final(self).active_program == index,
            final(self).steps@ == old(self).steps@,
            final(self).programs@ == old(self).programs@,
            final(self).hit_count == old(self).hit_count,
            final(self).sample_path == old(self).sample_path,
    {
        self.active_program = index;
    }

    /// Puts `program` in place of the active program while that is the
    /// untouched program of a new square; otherwise adds it after the
    /// others. Returns the index it is stored at.
    pub fn replace_or_add_program(&mut self, program: Program) -> (r: usize)
        ensures
            ({
                let replaces = match old(self).active_program {
                    Some(a) => a < old(self).programs@.len() && is_untouched_default(old(self).programs@[a as int]@),
                    None => false,
                };
                if replaces {
                    &&& r == old(self).active_program->0
                    &&& final(self).programs@ == old(self).programs@.update(r as int, program)
                } else {
                    &&& r == old(self).programs@.len()
                    &&& final(self).programs@ == old(self).programs@.push(program)
                }
            }),
            final(self).steps@ == old(self).steps@,
            final(self).hit_count == old(self).hit_count,
            final(self).sample_path == old(self).sample_path,
            final(self).active_program == old(self).active_program,
    {
        if let Some(active_index) = self.active_program {
            if active_index < self.programs.len() {
                let existing = &self.programs[active_index];
                let is_default = str_eq(existing.name.as_str(), "Default") && existing.instructions.len() == 1
                    && match &existing.instructions[0] {
                    Instruction::Bounce => true,
                    _ => false,
                };
                proof {
                    assert(existing@.instructions.len() == existing.instructions@.len());
                    if existing.instructions@.len() == 1 {
                        assert(existing@.instructions[0] == existing.instructions@[0]@);
                    }
                }
                if is_default {
                    self.programs.set(active_index, program);
                    return active_index;
                }
            }
        }
        self.programs.push(program);
        self.programs.len() - 1
    }
}

impl Default for SquareProgram {
    fn default() -> (r: Self)
        ensures
            is_default_square_program(r),
    {
        let r = SquareProgram {
            steps: vec![ProgramStep { trigger_hits: 1, effect: SquareEffect::Bounce }],
            programs: vec![
                Program { name: owned("Default"), instructions: vec![Instruction::Bounce], source_text: None },
            ],
            hit_count: 0,
            sample_path: None,
            active_program: Some(0),
        };
        proof {
            reveal_strlit("Default");
            assert(r.steps@ =~= default_steps());
            assert(r.programs@[0]@.instructions =~= seq![SInstr::Bounce]);
            assert(programs_view(r.programs@) =~= seq![default_program()]);
        }
        r
    }
}

/// A grid cell: empty, or a square with its colour, programming and text.
pub struct Cell {
    pub content: CellContent,
    pub color: [u8; 3],
    pub program: SquareProgram,
    pub display_text: Option<String>,
}

impl Cell {
    /// A square of the given colour with a new square's programming.
    pub fn new_square(color: [u8; 3]) -> (r: Self)
        ensures
            r.content == CellContent::Square,
            r.color == color,
            is_default_square_program(r.program),
            r.display_text is None,
    {
        Cell { content: CellContent::Square, color, program: SquareProgram::default(), display_text: None }
    }

    /// An empty grey cell.
    pub fn new_empty() -> (r: Self)
        ensures
            r.content == CellContent::Empty,
            r.color == [100u8, 100u8, 100u8],
            is_default_square_program(r.program),
            r.display_text is None,
    {
        Self::default()
    }

    pub fn is_square(&self) -> (r: bool)
        ensures
            r == (self.content == CellContent::Square),
    {
        self.content == CellContent::Square
    }

    pub fn is_empty(&self) -> (r: bool)
        ensures
            r == (self.content == CellContent::Empty),
    {
        self.content == CellContent::Empty
    }

    pub fn set_color(&mut self, color: [u8; 3])
        ensures
            final(self).color == color,
            final(self).content == old(self).content,
            final(self).program == old(self).program,
            final(self).display_text == old(self).display_text,
    {
        self.color = color;
    }

    /// Makes the cell an empty grey cell again.
    pub fn clear(&mut self)
        ensures
            final(self).content == CellContent::Empty,
            final(self).color == [100u8, 100u8, 100u8],
            is_default_square_program(final(self).program),
            final(self).display_text is None,
    {
        self.content = CellContent::Empty;
        self.color = [100, 100, 100];
        self.program = SquareProgram::default();
        self.display_text = None;
    }

    /// Puts a square of the given colour (white if none) with a new
    /// square's programming on the cell; its text stays.
    pub fn place_square(&mut self, color: Option<[u8; 3]>)
        ensures
            final(self).content == CellContent::Square,
            final(self).color == match color {
                Some(c) => c,
                None => [255u8, 255u8, 255u8],
            },
            is_default_square_program(final(self).program),
            final(self).display_text == old(self).display_text,
    {
        self.content = CellContent::Square;
        match color {
            Some(c) => {
                self.color = c;
            },
            None => {
                self.color = [255, 255, 255];
            },
        }
        self.program = SquareProgram::default();
    }

    pub fn set_program(&mut self, program: SquareProgram)
        ensures
            final(self).program == program,
            final(self).content == old(self).content,
            final(self).color == old(self).color,
            final(self).display_text == old(self).display_text,
    {
        self.program = program;
    }

    pub fn get_program(&self) -> (r: &SquareProgram)
        ensures
            *r == self.program,
    {
        &self.program
    }
}

impl Default for Cell {
    fn default() -> (r: Self)
        ensures
            r.content == CellContent::Empty,
            r.color == [100u8, 100u8, 100u8],
            is_default_square_program(r.program),
            r.display_text is None,
    {
        Cell { content: CellContent::Empty, color: [100, 100, 100], program: SquareProgram::default(), display_text: None }
    }
}

// ---------------------------------------------------------------------------
// Copies (the recursive types cannot derive `Clone`)

pub fn copy_value(v: &Value) -> (r: Value)
    ensures
        r@ == v@,
{
    match v {
        Value::Number(t) => Value::Number(owned(t.as_str())),
        Value::Direction(d) => Value::Direction(*d),
        Value::DirectionNumber(t) => Value::DirectionNumber(owned(t.as_str())),
        Value::Boolean(b) => Value::Boolean(*b),
        Value::String(t) => Value::String(owned(t.as_str())),
        Value::Coordinate(x, y) => Value::Coordinate(owned(x.as_str()), owned(y.as_str())),
    }
}

pub fn copy_expression(e: &Expression) -> (r: Expression)
    ensures
        r@ == e@,
    decreases e,
{
    match e {
        Expression::Literal(v) => Expression::Literal(copy_value(v)),
        Expression::Variable(n) => Expression::Variable(owned(n.as_str())),
        Expression::GlobalVariable(n) => Expression::GlobalVariable(owned(n.as_str())),
        Expression::BinaryOp { left, op, right } => {
            let l = copy_expression(left);
            let r = copy_expression(right);
            Expression::BinaryOp { left: Box::new(l), op: *op, right: Box::new(r) }
        },
        Expression::BallProperty(p) => Expression::BallProperty(*p),
        Expression::Random { min, max } => Expression::Random { min: owned(min.as_str()), max: owned(max.as_str()) },
    }
}

pub fn copy_text(t: &Option<String>) -> (r: Option<String>)
    ensures
        opt_text_view(r) == opt_text_view(*t),
{
    match t {
        Some(s) => Some(owned(s.as_str())),
        None => None,
    }
}

fn copy_strings(v: &Vec<String>) -> (r: Vec<String>)
    ensures
        texts_view(r@) == texts_view(v@),
{
    let mut r: Vec<String> = Vec::new();
    let mut i: usize = 0;
    while i < v.len()
        invariant
            i <= v.len(),
            texts_view(r@) == texts_view(v@).take(i as int),
        decreases v.len() - i,
    {
        let ghost before = r@;
        let line = owned(v[i].as_str());
        assert(line@ == texts_view(v@)[i as int]);
        r.push(line);
        assert(texts_view(r@) =~= texts_view(before).push(line@));
        assert(texts_view(v@).take(i + 1) =~= texts_view(v@).take(i as int).push(line@));
        i = i + 1;
    }
    assert(texts_view(v@).take(i as int) =~= texts_view(v@));
    r
}

fn copy_target(t: &DestroyTarget) -> (r: DestroyTarget)
    ensures
        r@ == t@,
{
    match t {
        DestroyTarget::Coordinates { x, y } => DestroyTarget::Coordinates { x: copy_expression(x), y: copy_expression(y) },
        DestroyTarget::BallReference(b) => DestroyTarget::BallReference(owned(b.as_str())),
    }
}

pub fn copy_instructions(v: &Vec<Instruction>) -> (r: Vec<Instruction>)
    ensures
        instrs_view(r@) == instrs_view(v@),
    decreases v, 0nat,
{
    let mut r: Vec<Instruction> = Vec::new();
    let mut i: usize = 0;
    proof { lemma_instrs_view_empty(); }
    while i < v.len()
        invariant
            i <= v.len(),
            instrs_view(r@) == instrs_view(v@.take(i as int)),
        decreases v.len() - i,
    {
        let c = copy_instruction(&v[i]);
        let ghost before = r@;
        r.push(c);
        proof {
            lemma_instrs_view_push(before, c);
            assert(v@.take(i + 1) =~= v@.take(i as int).push(v@[i as int]));
            lemma_instrs_view_push(v@.take(i as int), v@[i as int]);
        }
        i = i + 1;
    }
    assert(v@.take(i as int) =~= v@);
    r
}

pub fn copy_program(p: &Program) -> (r: Program)
    ensures
        r@ == p@,
    decreases p, 2nat,
{
    let instructions = copy_instructions(&p.instructions);
    let source_text = match &p.source_text {
        Some(t) => Some(copy_strings(t)),
        None => None,
    };
    Program { instructions, name: owned(p.name.as_str()), source_text }
}

pub fn copy_instruction(i: &Instruction) -> (r: Instruction)
    ensures
        r@ == i@,
    decreases i, 1nat,
{
    match i {
        Instruction::SetSpeed(e) => Instruction::SetSpeed(copy_expression(e)),
        Instruction::SetDirection(e) => Instruction::SetDirection(copy_expression(e)),
        Instruction::SetPitch(e) => Instruction::SetPitch(copy_expression(e)),
        Instruction::SetVolume(e) => Instruction::SetVolume(copy_expression(e)),
        Instruction::SetColor(e) => Instruction::SetColor(copy_expression(e)),
        Instruction::Bounce => Instruction::Bounce,
        Instruction::Stop => Instruction::Stop,
        Instruction::SetVariable { name, value } => Instruction::SetVariable {
            name: owned(name.as_str()),
            value: copy_expression(value),
        },
        Instruction::SetGlobalVariable { name, value } => Instruction::SetGlobalVariable {
            name: owned(name.as_str()),
            value: copy_expression(value),
        },
        Instruction::If { condition, then_block, else_block } => {
            let c = copy_expression(condition);
            let t = copy_instructions(then_block);
            let e = match else_block {
                Some(b) => Some(copy_instructions(b)),
                None => None,
            };
            Instruction::If { condition: c, then_block: t, else_block: e }
        },
        Instruction::Loop { count, body } => Instruction::Loop { count: copy_expression(count), body: copy_instructions(body) },
        Instruction::RepeatAnd { count, body } => Instruction::RepeatAnd {
            count: copy_expression(count),
            body: copy_instructions(body),
        },
        Instruction::RepeatThen { count, body } => Instruction::RepeatThen {
            count: copy_expression(count),
            body: copy_instructions(body),
        },
        Instruction::ExecuteProgram(p) => Instruction::ExecuteProgram(copy_program(p)),
        Instruction::ExecuteLibraryFunction { library_function } => Instruction::ExecuteLibraryFunction {
            library_function: owned(library_function.as_str()),
        },
        Instruction::ContinueToNext => Instruction::ContinueToNext,
        Instruction::Return(n) => Instruction::Return(copy_text(n)),
        Instruction::End => Instruction::End,
        Instruction::PlaySample(e) => Instruction::PlaySample(copy_expression(e)),
        Instruction::SetReverse { ball_reference, speed } => Instruction::SetReverse {
            ball_reference: owned(ball_reference.as_str()),
            speed: copy_expression(speed),
        },
        Instruction::SetSliceArray { markers } => {
            let mut m: Vec<u32> = Vec::new();
            let mut k: usize = 0;
            while k < markers.len()
                invariant
                    k <= markers.len(),
                    m@ == markers@.take(k as int),
                decreases markers.len() - k,
            {
                m.push(markers[k]);
                k = k + 1;
                assert(m@ =~= markers@.take(k as int));
            }
            assert(markers@.take(k as int) =~= markers@);
            Instruction::SetSliceArray { markers: m }
        },
        Instruction::SpawnBall { x, y, speed, direction } => Instruction::SpawnBall {
            x: copy_expression(x),
            y: copy_expression(y),
            speed: copy_expression(speed),
            direction: copy_expression(direction),
        },
        Instruction::CreateBall { x, y, speed, direction } => Instruction::CreateBall {
            x: copy_expression(x),
            y: copy_expression(y),
            speed: copy_expression(speed),
            direction: copy_expression(direction),
        },
        Instruction::CreateSquare { x, y } => Instruction::CreateSquare { x: copy_expression(x), y: copy_expression(y) },
        Instruction::CreateSquareWithProgram { x, y, program } => Instruction::CreateSquareWithProgram {
            x: copy_expression(x),
            y: copy_expression(y),
            program: copy_program(program),
        },
        Instruction::CreateBallFromSample { x, y, library_name, sample_name } => Instruction::CreateBallFromSample {
            x: copy_expression(x),
            y: copy_expression(y),
            library_name: owned(library_name.as_str()),
            sample_name: owned(sample_name.as_str()),
        },
        Instruction::CreateSquareFromSample { x, y, library_name, sample_name } => Instruction::CreateSquareFromSample {
            x: copy_expression(x),
            y: copy_expression(y),
            library_name: owned(library_name.as_str()),
            sample_name: owned(sample_name.as_str()),
        },
        Instruction::CreateBallWithLibrary { x, y, library_function, audio_file } => Instruction::CreateBallWithLibrary {
            x: copy_expression(x),
            y: copy_expression(y),
            library_function: owned(library_function.as_str()),
            audio_file: copy_text(audio_file),
        },
        Instruction::CreateSquareWithLibrary { x, y, library_function, audio_file } => Instruction::CreateSquareWithLibrary {
            x: copy_expression(x),
            y: copy_expression(y),
            library_function: owned(library_function.as_str()),
            audio_file: copy_text(audio_file),
        },
        Instruction::DestroyBall { target } => Instruction::DestroyBall { target: copy_target(target) },
        Instruction::DestroySquare { target } => Instruction::DestroySquare { target: copy_target(target) },
        Instruction::Print(e) => Instruction::Print(copy_expression(e)),
    }
}

/// A copy of a list of programs, each the same.
pub fn copy_programs(v: &Vec<Program>) -> (r: Vec<Program>)
    ensures
        programs_view(r@) == programs_view(v@),
{
    let mut r: Vec<Program> = Vec::new();
    let mut i: usize = 0;
    while i < v.len()
        invariant
            i <= v.len(),
            programs_view(r@) == programs_view(v@.take(i as int)),
        decreases v.len() - i,
    {
        let ghost before = r@;
        r.push(copy_program(&v[i]));
        assert(programs_view(r@) =~= programs_view(before).push(v@[i as int]@));
        i = i + 1;
        assert(programs_view(v@.take(i as int)) =~= programs_view(v@.take(i - 1)).push(v@[i - 1]@));
    }
    assert(v@.take(i as int) =~= v@);
    r
}

/// A copy of a square's programming.
pub fn copy_square_program(p: &SquareProgram) -> (r: SquareProgram)
    ensures
        r.steps@ == p.steps@,
        programs_view(r.programs@) == programs_view(p.programs@),
        r.hit_count == p.hit_count,
        r.sample_path == p.sample_path,
        r.active_program == p.active_program,
{
    SquareProgram {
        steps: p.steps.clone(),
        programs: copy_programs(&p.programs),
        hit_count: p.hit_count,
        sample_path: p.sample_path,
        active_program: p.active_program,
    }
}

/// A copy of a cell, its programs included.
pub fn copy_cell(c: &Cell) -> (r: Cell)
    ensures
        r.content == c.content,
        r.color == c.color,
        r.program.steps@ == c.program.steps@,
        programs_view(r.program.programs@) == programs_view(c.program.programs@),
        r.program.hit_count == c.program.hit_count,
        r.program.sample_path == c.program.sample_path,
        r.program.active_program == c.program.active_program,
        opt_text_view(r.display_text) == opt_text_view(c.display_text),
{
    Cell {
        content: c.content,
        color: c.color,
        program: copy_square_program(&c.program),
        display_text: copy_text(&c.display_text),
    }
}

} // verus!
