//! The parser of the square programming language: from program text to
//! `Program`s. Each parsing step is stated as a spec function over
//! character sequences; its outcome is a value, an error message, or the
//! panic that slicing a string at a bad position raises. The executable
//! steps that can meet such a position report it as `Outcome::Panic`; the
//! public parsing functions leave those inputs out by their `requires`.
use vstd::prelude::*;
use crate::ball::{direction_label, spec_reverse, Direction};
use crate::numeral::{
    all_digits, ascii_lower, i32_of, is_digit, is_float_text, is_float_text_exec, lower_all, parse_i32,
    parse_u32, u32_of,
};
use crate::square::{
    instrs_view, programs_view, lemma_instrs_view_empty, lemma_instrs_view_push, opt_text_view, BallProperty, BinaryOperator, DestroyTarget, Expression, Instruction, SExpr, SInstr, SProgram, STarget,
    SValue, Value, Program,
};
use vstd::string::StrSliceExecFns;
use crate::text::{
    contains, contains_char, contains_char_exec, contains_exec, ends_with, find, find_exec, ends_with_exec, find_char, find_char_exec,
    int_text, int_to_text, joined, joined3, joined4, lemma_trim_len, lemma_trimmed_pieces, owned,
    slice, split, split_char, split_char_exec, split_exec, starts_with, starts_with_exec, str_eq, tail, to_chars, trim,
    trim_all, trim_each, trim_exec, views, words, words_exec,
};

verus! {

broadcast use vstd::string::group_string_axioms;

/// The outcome of a parsing step.
pub enum Parsed<T> {
    Done(T),
    Failed(Seq<char>),
    /// The step would index a string in the middle of a character.
    Panic,
}

/// The parser of the square programming language.
#[derive(Clone, Copy, Debug)]
pub struct SimpleProgramParser;

pub open spec fn is_ascii_char(c: char) -> bool {
    (c as u32) < 128
}

pub open spec fn ascii_upper(c: char) -> char {
    if 'a' <= c && c <= 'z' {
        (((c as u8) - 32) as u8) as char
    } else {
        c
    }
}

/// First letter in upper case, the rest in lower case.
pub open spec fn capitalized(s: Seq<char>) -> Seq<char> {
    seq![ascii_upper(s[0])] + lower_all(s.drop_first())
}

/// The colours programs may name.
pub open spec fn color_names() -> Seq<Seq<char>> {
    seq!["Red"@, "Green"@, "Blue"@, "Yellow"@, "Cyan"@, "Magenta"@, "White"@, "Orange"@]
}

/// The same colours in the `c_` form programs use.
pub open spec fn color_prefixed() -> Seq<Seq<char>> {
    seq!["c_red"@, "c_green"@, "c_blue"@, "c_yellow"@, "c_cyan"@, "c_magenta"@, "c_white"@, "c_orange"@]
}

pub open spec fn color_index_from(n: Seq<char>, i: int) -> Option<int>
    decreases 8 - i,
{
    if i < 0 || i >= 8 {
        None
    } else if color_names()[i] == n {
        Some(i)
    } else {
        color_index_from(n, i + 1)
    }
}

/// Which of the colour names `n` is, if any.
pub open spec fn color_index(n: Seq<char>) -> Option<int> {
    color_index_from(n, 0)
}

pub open spec fn invalid_color_message(color: Seq<char>) -> Seq<char> {
    "Invalid color '"@ + color + "'. Valid colors are: Red, Green, Blue, Yellow, Cyan, Magenta, White, Orange"@
}

/// Checks the capitalised form `n` of `color` against the colour names.
pub open spec fn color_verdict(color: Seq<char>, n: Seq<char>) -> Parsed<Seq<char>> {
    match color_index(n) {
        Some(i) => Parsed::Done(color_prefixed()[i]),
        None => Parsed::Failed(invalid_color_message(color)),
    }
}

/// A colour written as `Red`, `red`, `c_red`, `c_RED`, ... becomes `c_red`.
/// Upper and lower case are taken as in ASCII: for these eight names that
/// agrees with Unicode case mapping, since no character outside ASCII maps
/// onto the letters of the names once the first letter is ASCII.
pub open spec fn spec_validate_color(color: Seq<char>) -> Parsed<Seq<char>> {
    if starts_with(color, "c_"@) {
        let base = color.skip(2);
        if base.len() == 0 {
            Parsed::Failed("Invalid color format '"@ + color + "'. Expected format: c_colorname"@)
        } else if !is_ascii_char(base[0]) {
            Parsed::Panic
        } else {
            color_verdict(color, capitalized(base))
        }
    } else if color.len() == 0 {
        Parsed::Failed("Color name cannot be empty"@)
    } else if !is_ascii_char(color[0]) {
        Parsed::Panic
    } else {
        color_verdict(color, capitalized(color))
    }
}

/// The colour name a colour is written with: what follows `c_`, or the
/// whole of it.
pub open spec fn color_base(color: Seq<char>) -> Seq<char> {
    if starts_with(color, "c_"@) {
        color.skip(2)
    } else {
        color
    }
}

proof fn lemma_color_index_from(n: Seq<char>, i: int)
    requires
        0 <= i <= 8,
    ensures
        color_index_from(n, i) matches Some(k) ==> i <= k < 8 && color_names()[k] == n,
        color_index_from(n, i) is None ==> forall|k: int| i <= k < 8 ==> color_names()[k] != n,
    decreases 8 - i,
{
    if i < 8 && color_names()[i] != n {
        lemma_color_index_from(n, i + 1);
    }
}

proof fn lemma_lower_capitalized(n: Seq<char>)
    requires
        n.len() > 0,
        is_ascii_char(n[0]),
    ensures
        lower_all(capitalized(n)) == lower_all(n),
{
    let c = capitalized(n);
    assert(c.len() == n.len());
    assert forall|i: int| 0 <= i < n.len() implies lower_all(c)[i] == lower_all(n)[i] by {
        if i == 0 {
            let x = n[0];
            if 'a' <= x && x <= 'z' {
                assert(ascii_upper(x) == (((x as u8) - 32) as u8) as char);
                assert(ascii_lower(ascii_upper(x)) == x);
            }
        } else {
            assert(c[i] == ascii_lower(n[i]));
            let y = n[i];
            if 'A' <= y && y <= 'Z' {
                assert(ascii_lower(y) == (((y as u8) + 32) as u8) as char);
            }
        }
    }
    assert(lower_all(c) =~= lower_all(n));
}

proof fn lemma_color_prefixed()
    ensures
        forall|i: int| 0 <= i < 8 ==> #[trigger] color_prefixed()[i] == "c_"@ + lower_all(color_names()[i]),
{
    reveal_strlit("c_");
    reveal_strlit("Red");
    reveal_strlit("Green");
    reveal_strlit("Blue");
    reveal_strlit("Yellow");
    reveal_strlit("Cyan");
    reveal_strlit("Magenta");
    reveal_strlit("White");
    reveal_strlit("Orange");
    reveal_strlit("c_red");
    reveal_strlit("c_green");
    reveal_strlit("c_blue");
    reveal_strlit("c_yellow");
    reveal_strlit("c_cyan");
    reveal_strlit("c_magenta");
    reveal_strlit("c_white");
    reveal_strlit("c_orange");
    assert("c_"@ + lower_all("Red"@) =~= "c_red"@);
    assert("c_"@ + lower_all("Green"@) =~= "c_green"@);
    assert("c_"@ + lower_all("Blue"@) =~= "c_blue"@);
    assert("c_"@ + lower_all("Yellow"@) =~= "c_yellow"@);
    assert("c_"@ + lower_all("Cyan"@) =~= "c_cyan"@);
    assert("c_"@ + lower_all("Magenta"@) =~= "c_magenta"@);
    assert("c_"@ + lower_all("White"@) =~= "c_white"@);
    assert("c_"@ + lower_all("Orange"@) =~= "c_orange"@);
}

/// A colour is accepted exactly when its name (after any `c_`) is not
/// empty and, first letter in upper case and the rest in lower case, is one
/// of the eight colour names; it then becomes `c_` and the name in lower case.
pub proof fn lemma_validate_color(color: Seq<char>)
    requires
        color_base(color).len() > 0 ==> is_ascii_char(color_base(color)[0]),
    ensures
        spec_validate_color(color) is Done <==> (color_base(color).len() > 0 && color_names().contains(
            capitalized(color_base(color)),
        )),
        spec_validate_color(color) matches Parsed::Done(s) ==> s == "c_"@ + lower_all(color_base(color)),
        !(spec_validate_color(color) is Panic),
{
    let n = color_base(color);
    if n.len() > 0 {
        let c = capitalized(n);
        lemma_color_index_from(c, 0);
        match color_index_from(c, 0) {
            Some(k) => {
                lemma_color_prefixed();
                lemma_lower_capitalized(n);
                assert(color_names()[k] == c);
            },
            None => {
                if color_names().contains(c) {
                    let k = choose|k: int| 0 <= k < color_names().len() && color_names()[k] == c;
                    assert(color_names()[k] != c);
                }
            },
        }
    }
}

/// `ball` followed by digits only.
pub open spec fn is_ball_object(s: Seq<char>) -> bool {
    starts_with(s, "ball"@) && all_digits(s.skip(4))
}

pub open spec fn spec_validate_object_reference(r: Seq<char>) -> Parsed<Seq<char>> {
    if is_ball_object(r) {
        Parsed::Done(r)
    } else if starts_with(r, "c_"@) {
        spec_validate_color(r)
    } else if r.len() > 0 && !is_ascii_char(r[0]) {
        Parsed::Panic
    } else if r.len() > 0 && color_index(capitalized(r)) is Some {
        spec_validate_color(r)
    } else {
        Parsed::Failed(
            "Invalid object reference '"@ + r
                + "'. Use ball objects (ball1, ball2, etc.) or colors (c_red, Red, etc.)"@,
        )
    }
}

pub open spec fn result_text(r: Result<String, String>) -> Parsed<Seq<char>> {
    match r {
        Ok(s) => Parsed::Done(s@),
        Err(e) => Parsed::Failed(e@),
    }
}

pub open spec fn result_expr(r: Result<Expression, String>) -> Parsed<SExpr> {
    match r {
        Ok(e) => Parsed::Done(e@),
        Err(m) => Parsed::Failed(m@),
    }
}

pub open spec fn result_instr(r: Result<Instruction, String>) -> Parsed<SInstr> {
    match r {
        Ok(i) => Parsed::Done(i@),
        Err(m) => Parsed::Failed(m@),
    }
}

/// The outcome of a parsing step that can meet a bad slicing position.
pub enum Outcome<T> {
    Done(T),
    Failed(String),
    /// The text would be sliced in the middle of a character, or with its
    /// bounds reversed.
    Panic,
}

pub open spec fn outcome_text(r: Outcome<String>) -> Parsed<Seq<char>> {
    match r {
        Outcome::Done(s) => Parsed::Done(s@),
        Outcome::Failed(m) => Parsed::Failed(m@),
        Outcome::Panic => Parsed::Panic,
    }
}

pub open spec fn outcome_expr(r: Outcome<Expression>) -> Parsed<SExpr> {
    match r {
        Outcome::Done(e) => Parsed::Done(e@),
        Outcome::Failed(m) => Parsed::Failed(m@),
        Outcome::Panic => Parsed::Panic,
    }
}

pub open spec fn outcome_instr(r: Outcome<Instruction>) -> Parsed<SInstr> {
    match r {
        Outcome::Done(i) => Parsed::Done(i@),
        Outcome::Failed(m) => Parsed::Failed(m@),
        Outcome::Panic => Parsed::Panic,
    }
}

fn expr_outcome(r: Result<Expression, String>) -> (o: Outcome<Expression>)
    ensures
        outcome_expr(o) == result_expr(r),
{
    match r {
        Ok(e) => Outcome::Done(e),
        Err(m) => Outcome::Failed(m),
    }
}

fn instr_outcome(r: Result<Instruction, String>) -> (o: Outcome<Instruction>)
    ensures
        outcome_instr(o) == result_instr(r),
{
    match r {
        Ok(i) => Outcome::Done(i),
        Err(m) => Outcome::Failed(m),
    }
}

fn is_ascii_exec(c: char) -> (r: bool)
    ensures
        r == is_ascii_char(c),
{
    (c as u32) < 128
}

fn color_name(i: usize) -> (r: &'static str)
    requires
        i < 8,
    ensures
        r@ == color_names()[i as int],
{
    match i {
        0 => "Red",
        1 => "Green",
        2 => "Blue",
        3 => "Yellow",
        4 => "Cyan",
        5 => "Magenta",
        6 => "White",
        _ => "Orange",
    }
}

fn color_with_prefix(i: usize) -> (r: &'static str)
    requires
        i < 8,
    ensures
        r@ == color_prefixed()[i as int],
{
    match i {
        0 => "c_red",
        1 => "c_green",
        2 => "c_blue",
        3 => "c_yellow",
        4 => "c_cyan",
        5 => "c_magenta",
        6 => "c_white",
        _ => "c_orange",
    }
}

fn upper_exec(c: char) -> (r: char)
    ensures
        r == ascii_upper(c),
{
    if 'a' <= c && c <= 'z' {
        let b = c as u8;
        (b - 32) as char
    } else {
        c
    }
}

fn lower_char(c: char) -> (r: char)
    ensures
        r == ascii_lower(c),
{
    if 'A' <= c && c <= 'Z' {
        let b = c as u8;
        (b + 32) as char
    } else {
        c
    }
}

/// Whether `capitalized(s.skip(from))` spells `name`.
fn capitalized_is(s: &str, from: usize, name: &str) -> (r: bool)
    requires
        from < s@.len(),
    ensures
        r == (capitalized(s@.skip(from as int)) == name@),
{
    let cs = to_chars(s);
    let ns = to_chars(name);
    let ghost t = s@.skip(from as int);
    let ghost c = capitalized(t);
    assert(c.len() == t.len());
    if cs.len() - from != ns.len() {
        return false;
    }
    if upper_exec(cs[from]) != ns[0] {
        assert(c[0] != name@[0]);
        return false;
    }
    let mut k: usize = 1;
    while k < ns.len()
        invariant
            cs@ == s@,
            ns@ == name@,
            t == s@.skip(from as int),
            c == capitalized(t),
            c.len() == t.len(),
            from < cs.len(),
            cs.len() - from == ns.len(),
            1 <= k <= ns.len(),
            forall|j: int| 0 <= j < k ==> c[j] == ns@[j],
        decreases ns.len() - k,
    {
        assert(c[k as int] == ascii_lower(t[k as int]));
        if lower_char(cs[from + k]) != ns[k] {
            return false;
        }
        k = k + 1;
    }
    assert(c =~= name@);
    true
}

/// Which colour name `capitalized(s.skip(from))` is.
fn color_index_exec(s: &str, from: usize) -> (r: Option<usize>)
    requires
        from < s@.len(),
    ensures
        match r {
            Some(i) => color_index(capitalized(s@.skip(from as int))) == Some(i as int) && i < 8,
            None => color_index(capitalized(s@.skip(from as int))) is None,
        },
{
    let ghost n = capitalized(s@.skip(from as int));
    let mut i: usize = 0;
    while i < 8
        invariant
            from < s@.len(),
            n == capitalized(s@.skip(from as int)),
            i <= 8,
            color_index(n) == color_index_from(n, i as int),
        decreases 8 - i,
    {
        if capitalized_is(s, from, color_name(i)) {
            return Some(i);
        }
        i = i + 1;
    }
    None
}

fn verdict_exec(color: &str, from: usize) -> (r: Outcome<String>)
    requires
        from < color@.len(),
    ensures
        outcome_text(r) == color_verdict(color@, capitalized(color@.skip(from as int))),
{
    match color_index_exec(color, from) {
        Some(i) => Outcome::Done(owned(color_with_prefix(i))),
        None => Outcome::Failed(joined3(
            "Invalid color '",
            color,
            "'. Valid colors are: Red, Green, Blue, Yellow, Cyan, Magenta, White, Orange",
        )),
    }
}

impl SimpleProgramParser {
    pub fn new() -> (r: Self) {
        SimpleProgramParser
    }

    /// A colour name becomes its `c_` form.
    fn color_to_prefix(&self, color: &str) -> (r: String)
        requires
            color_index(color@) is Some,
        ensures
            r@ == color_prefixed()[color_index(color@)->0],
    {
        let mut i: usize = 0;
        while i < 8
            invariant
                i <= 8,
                color_index(color@) == color_index_from(color@, i as int),
                color_index(color@) is Some,
            decreases 8 - i,
        {
            if str_eq(color, color_name(i)) {
                return owned(color_with_prefix(i));
            }
            i = i + 1;
        }
        proof { assert(color_index_from(color@, 8) is None); }
        owned("c_orange")
    }

    /// Reads one expression (see `spec_coord_expr`).
    fn parse_coordinate_expression(&self, coord_str: &str) -> (r: Result<Expression, String>)
        ensures
            result_expr(r) == spec_coord_expr(coord_str@),
        decreases coord_str@.len(),
    {
        let s = trim_exec(coord_str);
        proof { lemma_trim_len(coord_str@); }
        let cs = to_chars(s);
        let n = cs.len();
        if n >= 2 && cs[0] == '(' && cs[n - 1] == ')' {
            let inner = slice(s, 1, n - 1);
            let parts = trim_each(split_char_exec(inner, ','));
            if parts.len() == 2 {
                proof {
                    lemma_trimmed_pieces(inner@, ',');
                    assert(views(parts@)[0] == parts@[0]@);
                    assert(views(parts@)[1] == parts@[1]@);
                }
                let x_expr = match self.parse_coordinate_expression(parts[0]) {
                    Ok(e) => e,
                    Err(m) => return Err(m),
                };
                let y_expr = match self.parse_coordinate_expression(parts[1]) {
                    Ok(e) => e,
                    Err(m) => return Err(m),
                };
                match (&x_expr, &y_expr) {
                    (Expression::Literal(Value::Number(a)), Expression::Literal(Value::Number(b))) => {
                        return Ok(Expression::Literal(Value::Coordinate(a.clone(), b.clone())));
                    },
                    _ => {},
                }
            }
        }
        if n >= 2 && ((cs[0] == '"' && cs[n - 1] == '"') || (cs[0] == '\'' && cs[n - 1] == '\'')) {
            return Ok(Expression::Literal(Value::String(owned(slice(s, 1, n - 1)))));
        }
        if str_eq(s, "x") {
            return Ok(Expression::BallProperty(BallProperty::X));
        }
        if str_eq(s, "y") {
            return Ok(Expression::BallProperty(BallProperty::Y));
        }
        if str_eq(s, "speed") {
            return Ok(Expression::BallProperty(BallProperty::Speed));
        }
        match first_op_exec(s) {
            Some((p, op)) => {
                let left_str = trim_exec(slice(s, 0, p));
                let right_str = trim_exec(tail(s, p + 1));
                proof {
                    assert(s@.subrange(0, p as int) =~= s@.take(p as int));
                    lemma_trim_len(s@.take(p as int));
                    lemma_trim_len(s@.skip(p + 1));
                }
                let left_expr = if left_str.unicode_len() == 0 {
                    Expression::BallProperty(BallProperty::Speed)
                } else {
                    match self.parse_coordinate_expression(left_str) {
                        Ok(e) => e,
                        Err(m) => return Err(m),
                    }
                };
                let right_expr = match self.parse_coordinate_expression(right_str) {
                    Ok(e) => e,
                    Err(m) => return Err(m),
                };
                return Ok(binary_expr(left_expr, op, right_expr));
            },
            None => {},
        }
        if is_float_text_exec(s) {
            return Ok(number_expr(s));
        }
        if n > 0 && cs[0] == '$' {
            if n == 1 {
                return Err(owned("Global variable name cannot be empty after $"));
            }
            return Ok(Expression::GlobalVariable(owned(tail(s, 1))));
        }
        Ok(Expression::Variable(owned(s)))
    }

    /// The speed of a created ball (see `spec_speed_expr`).
    fn parse_speed_expression(&self, speed_str: &str) -> (r: Result<Expression, String>)
        ensures
            result_expr(r) == spec_speed_expr(speed_str@),
    {
        let s = trim_exec(speed_str);
        if str_eq(s, "self") {
            return Ok(Expression::BallProperty(BallProperty::Speed));
        }
        match first_op_exec(s) {
            Some((p, op)) => {
                let left_str = trim_exec(slice(s, 0, p));
                let right_str = trim_exec(tail(s, p + 1));
                proof { assert(s@.subrange(0, p as int) =~= s@.take(p as int)); }
                let left_expr = if str_eq(left_str, "self") {
                    Expression::BallProperty(BallProperty::Speed)
                } else {
                    match self.parse_coordinate_expression(left_str) {
                        Ok(e) => e,
                        Err(m) => return Err(m),
                    }
                };
                let right_expr = if str_eq(right_str, "self") {
                    Expression::BallProperty(BallProperty::Speed)
                } else {
                    match self.parse_coordinate_expression(right_str) {
                        Ok(e) => e,
                        Err(m) => return Err(m),
                    }
                };
                return Ok(binary_expr(left_expr, op, right_expr));
            },
            None => {},
        }
        if is_float_text_exec(s) {
            Ok(number_expr(s))
        } else {
            self.parse_coordinate_expression(s)
        }
    }

    /// The direction of a created ball (see `spec_direction_expr`).
    fn parse_direction_expression(&self, direction_str: &str) -> (r: Result<Expression, String>)
        ensures
            result_expr(r) == spec_direction_expr(direction_str@),
    {
        let d = direction_str;
        if str_eq(d, "self") {
            Ok(Expression::BallProperty(BallProperty::Direction))
        } else if str_eq(d, "up") {
            Ok(Expression::Literal(Value::Direction(Direction::Down)))
        } else if str_eq(d, "down") {
            Ok(Expression::Literal(Value::Direction(Direction::Up)))
        } else if str_eq(d, "left") {
            Ok(Expression::Literal(Value::Direction(Direction::Right)))
        } else if str_eq(d, "right") {
            Ok(Expression::Literal(Value::Direction(Direction::Left)))
        } else if str_eq(d, "+1") || str_eq(d, "-1") {
            Ok(number_expr(d))
        } else if is_float_text_exec(d) {
            Ok(Expression::Literal(Value::DirectionNumber(owned(d))))
        } else {
            Err(joined("Invalid direction value: ", d))
        }
    }

    fn parse_var_statement(&self, line: &str) -> (r: Result<Instruction, String>)
        requires
            starts_with(line@, "var "@),
        ensures
            result_instr(r) == spec_var_statement(line@, false),
    {
        proof { reveal_strlit("var "); }
        self.parse_assignment(line, false)
    }

    fn parse_global_var_statement(&self, line: &str) -> (r: Result<Instruction, String>)
        requires
            starts_with(line@, "$var "@),
        ensures
            result_instr(r) == spec_var_statement(line@, true),
    {
        proof { reveal_strlit("$var "); }
        self.parse_assignment(line, true)
    }

    /// `var` and `$var` statements, which differ only in their keyword and messages.
    fn parse_assignment(&self, line: &str, global: bool) -> (r: Result<Instruction, String>)
        requires
            line@.len() >= if global { 5int } else { 4int },
        ensures
            result_instr(r) == spec_var_statement(line@, global),
    {
        let content = trim_exec(tail(line, if global { 5 } else { 4 }));
        match find_char_exec(content, '=') {
            Some(p) => {
                let var_name = trim_exec(slice(content, 0, p));
                let expr_str = trim_exec(tail(content, p + 1));
                proof { assert(content@.subrange(0, p as int) =~= content@.take(p as int)); }
                if var_name.unicode_len() == 0 {
                    return Err(owned(if global { "Global variable name cannot be empty" } else { "Variable name cannot be empty" }));
                }
                let value = match self.parse_coordinate_expression(expr_str) {
                    Ok(e) => e,
                    Err(m) => return Err(m),
                };
                if global {
                    Ok(Instruction::SetGlobalVariable { name: owned(var_name), value })
                } else {
                    Ok(Instruction::SetVariable { name: owned(var_name), value })
                }
            },
            None => Err(owned(
                if global {
                    "Invalid $var statement format. Expected: $var variable_name = expression"
                } else {
                    "Invalid var statement format. Expected: var variable_name = expression"
                },
            )),
        }
    }

    fn parse_set_statement(&self, line: &str) -> (r: Outcome<Instruction>)
        ensures
            outcome_instr(r) == spec_set_statement(line@),
    {
        let parts = words_exec(line);
        proof {
            if parts@.len() >= 3 {
                assert(views(parts@)[0] == parts@[0]@);
                assert(views(parts@)[1] == parts@[1]@);
                assert(views(parts@)[2] == parts@[2]@);
            }
            if parts@.len() >= 4 {
                assert(views(parts@)[3] == parts@[3]@);
            }
        }
        if !(parts.len() >= 3 && str_eq(parts[0], "set")) {
            return Outcome::Failed(owned("Invalid set statement format"));
        }
        let property = parts[1];
        let arg = parts[2];
        let relative = starts_with_char(arg, '+') || starts_with_char(arg, '-');
        if str_eq(property, "speed") {
            if relative {
                if is_float_text_exec(arg) {
                    return Outcome::Done(Instruction::SetSpeed(
                        binary_expr(Expression::BallProperty(BallProperty::Speed), BinaryOperator::Add, number_expr(arg)),
                    ));
                }
                return Outcome::Failed(owned("Invalid set statement format"));
            }
            match self.parse_coordinate_expression(arg) {
                Ok(e) => Outcome::Done(Instruction::SetSpeed(e)),
                Err(m) => Outcome::Failed(m),
            }
        } else if str_eq(property, "direction") {
            match direction_word_exec(arg) {
                Some(d) => Outcome::Done(Instruction::SetDirection(Expression::Literal(Value::Direction(d)))),
                None => match self.parse_coordinate_expression(arg) {
                    Ok(e) => Outcome::Done(Instruction::SetDirection(e)),
                    Err(m) => Outcome::Failed(m),
                },
            }
        } else if str_eq(property, "color") {
            match self.validate_color(arg) {
                Outcome::Done(c) => Outcome::Done(Instruction::SetColor(Expression::Literal(Value::String(c)))),
                Outcome::Failed(m) => Outcome::Failed(m),
                Outcome::Panic => Outcome::Panic,
            }
        } else if str_eq(property, "reverse") {
            if parts.len() >= 4 {
                match self.parse_coordinate_expression(parts[3]) {
                    Ok(e) => Outcome::Done(Instruction::SetReverse { ball_reference: owned(arg), speed: e }),
                    Err(m) => Outcome::Failed(m),
                }
            } else {
                Outcome::Failed(owned("Invalid reverse statement format. Expected: set reverse ball_reference speed"))
            }
        } else if str_eq(property, "pitch") {
            match note_pitch_exec(arg) {
                Some(v) => Outcome::Done(Instruction::SetPitch(number_expr(v))),
                None => if relative {
                    if is_float_text_exec(arg) {
                        Outcome::Done(Instruction::SetPitch(
                            binary_expr(Expression::BallProperty(BallProperty::Pitch), BinaryOperator::Add, number_expr(arg)),
                        ))
                    } else {
                        Outcome::Failed(joined("Invalid pitch change value: ", arg))
                    }
                } else {
                    match self.parse_coordinate_expression(arg) {
                        Ok(e) => Outcome::Done(Instruction::SetPitch(e)),
                        Err(m) => Outcome::Failed(m),
                    }
                },
            }
        } else if str_eq(property, "volume") {
            if relative {
                if is_float_text_exec(arg) {
                    Outcome::Done(Instruction::SetVolume(
                        binary_expr(Expression::BallProperty(BallProperty::Volume), BinaryOperator::Add, number_expr(arg)),
                    ))
                } else {
                    Outcome::Failed(joined("Invalid volume change value: ", arg))
                }
            } else {
                match self.parse_coordinate_expression(arg) {
                    Ok(e) => Outcome::Done(Instruction::SetVolume(e)),
                    Err(m) => Outcome::Failed(m),
                }
            }
        } else {
            Outcome::Failed(joined("Unknown property: ", property))
        }
    }

    fn parse_slice_statement(&self, line: &str) -> (r: Result<Instruction, String>)
        requires
            starts_with(line@, "slice "@),
        ensures
            result_instr(r) == spec_slice_statement(line@),
    {
        proof { reveal_strlit("slice "); }
        let content = trim_exec(tail(line, 6));
        if content.unicode_len() == 0 {
            return Err(owned("Slice statement cannot be empty. Expected: slice 1 4 2 5"));
        }
        let parts = words_exec(content);
        let ghost ps = views(parts@);
        let mut markers: Vec<u32> = Vec::new();
        let mut i: usize = 0;
        while i < parts.len()
            invariant
                ps == views(parts@),
                ps == words(content@),
                content@ == trim(line@.skip(6)),
                content@.len() != 0,
                i <= parts.len(),
                first_bad_marker(ps, 0) == first_bad_marker(ps, i as int),
                markers@ == marker_values(ps).take(i as int),
            decreases parts.len() - i,
        {
            assert(ps[i as int] == parts@[i as int]@);
            match parse_u32(parts[i]) {
                Some(v) => {
                    markers.push(v);
                },
                None => {
                    assert(first_bad_marker(ps, i as int) == Some(i as int));
                    return Err(joined3("Invalid marker number '", parts[i], "' in slice statement"));
                },
            }
            i = i + 1;
            assert(markers@ =~= marker_values(ps).take(i as int));
        }
        if markers.len() == 0 {
            return Err(owned("Slice statement must contain at least one marker number"));
        }
        assert(marker_values(ps).take(i as int) =~= marker_values(ps));
        Ok(Instruction::SetSliceArray { markers })
    }

    fn parse_print_statement(&self, line: &str) -> (r: Outcome<Instruction>)
        requires
            starts_with(line@, "print "@),
        ensures
            outcome_instr(r) == spec_print_statement(line@),
    {
        proof { reveal_strlit("print "); }
        let content = trim_exec(tail(line, 6));
        if content.unicode_len() == 0 {
            return Outcome::Failed(owned("Print statement requires an expression"));
        }
        match self.parse_print_expression(content) {
            Outcome::Done(e) => Outcome::Done(Instruction::Print(e)),
            Outcome::Failed(m) => Outcome::Failed(m),
            Outcome::Panic => Outcome::Panic,
        }
    }

    fn parse_print_expression(&self, expr_str: &str) -> (r: Outcome<Expression>)
        ensures
            outcome_expr(r) == spec_print_expression(expr_str@),
    {
        proof { reveal_strlit("hits("); reveal_strlit(")"); }
        if starts_with_exec(expr_str, "hits(") && ends_with_exec(expr_str, ")") {
            let n = expr_str.unicode_len();
            proof {
                assert(expr_str@.take(5)[4] == '(');
                assert(expr_str@.skip(n - 1)[0] == ')');
            }
            let target_str = trim_exec(slice(expr_str, 5, n - 1));
            return self.parse_hits_function(target_str);
        }
        expr_outcome(self.parse_coordinate_expression(expr_str))
    }

    fn parse_hits_function(&self, target: &str) -> (r: Outcome<Expression>)
        ensures
            outcome_expr(r) == spec_hits_function(target@),
    {
        proof { reveal_strlit("ball"); reveal_strlit("c_"); reveal_strlit("square("); reveal_strlit(")"); }
        if str_eq(target, "self") {
            return Outcome::Done(Expression::Variable(owned("__square_hits")));
        }
        if starts_with_exec(target, "ball") && digits_only(tail(target, 4)) {
            return Outcome::Done(Expression::Variable(joined("__ball_hits_", target)));
        }
        if starts_with_exec(target, "c_") {
            return match self.validate_color(target) {
                Outcome::Done(_) => Outcome::Done(Expression::Variable(joined("__ball_hits_", target))),
                Outcome::Failed(m) => Outcome::Failed(m),
                Outcome::Panic => Outcome::Panic,
            };
        }
        if starts_with_exec(target, "square(") && ends_with_exec(target, ")") {
            let n = target.unicode_len();
            proof {
                assert(target@.take(7)[6] == '(');
                assert(target@.skip(n - 1)[0] == ')');
            }
            let coords = trim_each(split_char_exec(slice(target, 7, n - 1), ','));
            if coords.len() == 2 {
                assert(views(coords@)[0] == coords@[0]@);
                assert(views(coords@)[1] == coords@[1]@);
                match (parse_i32(coords[0]), parse_i32(coords[1])) {
                    (Some(x), Some(y)) => {
                        let xs = int_to_text(x as i64);
                        let ys = int_to_text(y as i64);
                        return Outcome::Done(
                            Expression::Variable(joined4("__square_hits_", xs.as_str(), "_", ys.as_str())),
                        );
                    },
                    _ => {},
                }
            }
        }
        Outcome::Failed(joined("Invalid hits() target: ", target))
    }

    /// A hit condition; `count` is the text of the count, a `u32`.
    fn create_hit_condition(&self, object_ref: &str, target: &str, count: &str) -> (r: Outcome<Expression>)
        ensures
            outcome_expr(r) == spec_hit_condition(object_ref@, target@, count@),
    {
        proof { reveal_strlit("ball"); reveal_strlit("square("); reveal_strlit(")"); }
        let validated_ref = match self.validate_object_reference(object_ref) {
            Outcome::Done(v) => v,
            Outcome::Failed(m) => return Outcome::Failed(m),
            Outcome::Panic => return Outcome::Panic,
        };
        let is_self = str_eq(target, "self");
        let valid_target = is_self || (starts_with_exec(target, "ball") && digits_only(tail(target, 4)))
            || (starts_with_exec(target, "square(") && ends_with_exec(target, ")"));
        if !valid_target {
            return Outcome::Failed(joined3(
                "Invalid target '",
                target,
                "'. Use 'self', ball objects (ball1, ball2, etc.), or square coordinates square(x, y)",
            ));
        }
        let hit_variable = if is_self {
            joined("__ball_color_square_hits_", validated_ref.as_str())
        } else if starts_with_exec(object_ref, "ball") {
            joined4("__ball_hits_", validated_ref.as_str(), "_", target)
        } else {
            joined("__ball_hits_", validated_ref.as_str())
        };
        Outcome::Done(binary_expr(Expression::Variable(hit_variable), BinaryOperator::Equal, number_expr(count)))
    }

    fn parse_if_condition(&self, line: &str) -> (r: Outcome<Expression>)
        requires
            starts_with(line@, "if "@),
        ensures
            outcome_expr(r) == spec_if_condition(line@),
    {
        proof { reveal_strlit("if "); }
        let condition_part = trim_exec(tail(line, 3));
        let parts = words_exec(condition_part);
        proof {
            if parts@.len() >= 5 {
                assert(views(parts@)[0] == parts@[0]@);
                assert(views(parts@)[1] == parts@[1]@);
                assert(views(parts@)[2] == parts@[2]@);
                assert(views(parts@)[3] == parts@[3]@);
                assert(views(parts@)[4] == parts@[4]@);
            }
        }
        if parts.len() >= 5 && str_eq(parts[1], "hits") && str_eq(parts[4], "times") {
            let count_str = parts[3];
            if contains_char_exec(count_str, '/') {
                let modulo_parts = split_char_exec(count_str, '/');
                if modulo_parts.len() == 2 {
                    assert(views(modulo_parts@)[1] == modulo_parts@[1]@);
                    let divisor = trim_exec(modulo_parts[1]);
                    if is_float_text_exec(divisor) {
                        return match self.validate_object_reference(parts[0]) {
                            Outcome::Done(_) => {
                                let hits_mod = binary_expr(
                                    Expression::BallProperty(BallProperty::HitCount),
                                    BinaryOperator::Mod,
                                    number_expr(divisor),
                                );
                                Outcome::Done(binary_expr(hits_mod, BinaryOperator::Equal, number_expr("0.0")))
                            },
                            Outcome::Failed(m) => Outcome::Failed(m),
                            Outcome::Panic => Outcome::Panic,
                        };
                    }
                }
            } else if parse_u32(count_str).is_some() {
                return self.create_hit_condition(parts[0], parts[2], count_str);
            }
        }
        expr_outcome(self.parse_coordinate_expression(condition_part))
    }

    fn validate_color(&self, color: &str) -> (r: Outcome<String>)
        ensures
            outcome_text(r) == spec_validate_color(color@),
    {
        proof { reveal_strlit("c_"); }
        if starts_with_exec(color, "c_") {
            let base = tail(color, 2);
            if base.unicode_len() == 0 {
                return Outcome::Failed(joined3("Invalid color format '", color, "'. Expected format: c_colorname"));
            }
            if !is_ascii_exec(color.get_char(2)) {
                return Outcome::Panic;
            }
            verdict_exec(color, 2)
        } else {
            if color.unicode_len() == 0 {
                return Outcome::Failed(owned("Color name cannot be empty"));
            }
            if !is_ascii_exec(color.get_char(0)) {
                return Outcome::Panic;
            }
            proof { assert(color@.skip(0) =~= color@); }
            verdict_exec(color, 0)
        }
    }

    fn validate_object_reference(&self, object_ref: &str) -> (r: Outcome<String>)
        ensures
            outcome_text(r) == spec_validate_object_reference(object_ref@),
    {
        proof { reveal_strlit("ball"); reveal_strlit("c_"); }
        if starts_with_exec(object_ref, "ball") && digits_only(tail(object_ref, 4)) {
            return Outcome::Done(owned(object_ref));
        }
        if starts_with_exec(object_ref, "c_") {
            return self.validate_color(object_ref);
        }
        if object_ref.unicode_len() > 0 {
            if !is_ascii_exec(object_ref.get_char(0)) {
                return Outcome::Panic;
            }
            proof { assert(object_ref@.skip(0) =~= object_ref@); }
            if color_index_exec(object_ref, 0).is_some() {
                return self.validate_color(object_ref);
            }
        }
        Outcome::Failed(joined3(
            "Invalid object reference '",
            object_ref,
            "'. Use ball objects (ball1, ball2, etc.) or colors (c_red, Red, etc.)",
        ))
    }
}

// ---------------------------------------------------------------------------
// Expressions

pub open spec fn op_char(k: int) -> char {
    if k == 0 { '+' } else if k == 1 { '-' } else if k == 2 { '*' } else if k == 3 { '/' } else { '%' }
}

pub open spec fn op_of(k: int) -> BinaryOperator {
    if k == 0 {
        BinaryOperator::Add
    } else if k == 1 {
        BinaryOperator::Sub
    } else if k == 2 {
        BinaryOperator::Mul
    } else if k == 3 {
        BinaryOperator::Div
    } else {
        BinaryOperator::Mod
    }
}

/// The first of `+ - * / %`, in that order, that occurs in `s`: where it
/// first stands, and which operator it is.
pub open spec fn first_op_from(s: Seq<char>, k: int) -> Option<(int, BinaryOperator)>
    decreases 5 - k,
{
    if k < 0 || k >= 5 {
        None
    } else {
        match find_char(s, op_char(k)) {
            Some(p) => Some((p, op_of(k))),
            None => first_op_from(s, k + 1),
        }
    }
}

pub open spec fn first_op(s: Seq<char>) -> Option<(int, BinaryOperator)> {
    first_op_from(s, 0)
}

pub open spec fn is_quoted(s: Seq<char>) -> bool {
    s.len() >= 2 && ((s[0] == '"' && s.last() == '"') || (s[0] == '\'' && s.last() == '\''))
}

pub open spec fn is_parenthesized(s: Seq<char>) -> bool {
    s.len() >= 2 && s[0] == '(' && s.last() == ')'
}

pub open spec fn number(t: Seq<char>) -> SExpr {
    SExpr::Literal(SValue::Number(t))
}

pub open spec fn speed() -> SExpr {
    SExpr::BallProperty(BallProperty::Speed)
}

pub open spec fn binary(l: SExpr, op: BinaryOperator, r: SExpr) -> SExpr {
    SExpr::BinaryOp { left: Box::new(l), op, right: Box::new(r) }
}

/// An expression as `parse_coordinate_expression` reads it: a coordinate
/// `(x, y)` of two numbers, a quoted string, `x`, `y` or `speed`, a binary
/// operation split at the first of `+ - * / %` (an empty left side standing
/// for the ball's speed), a number, a `$global`, or else a variable.
pub open spec fn spec_coord_expr(s0: Seq<char>) -> Parsed<SExpr>
    decreases s0.len(),
{
    let s = trim(s0);
    let coordinate: Option<Parsed<SExpr>> = if is_parenthesized(s) {
        let parts = trim_all(split_char(s.subrange(1, s.len() - 1), ','));
        if parts.len() == 2 {
            proof {
                lemma_trim_len(s0);
                lemma_trimmed_pieces(s.subrange(1, s.len() - 1), ',');
            }
            match spec_coord_expr(parts[0]) {
                Parsed::Done(x) => match spec_coord_expr(parts[1]) {
                    Parsed::Done(y) => match (x, y) {
                        (SExpr::Literal(SValue::Number(a)), SExpr::Literal(SValue::Number(b))) => Some(
                            Parsed::Done(SExpr::Literal(SValue::Coordinate(a, b))),
                        ),
                        _ => None,
                    },
                    other => Some(other),
                },
                other => Some(other),
            }
        } else {
            None
        }
    } else {
        None
    };
    match coordinate {
        Some(r) => r,
        None => if is_quoted(s) {
            Parsed::Done(SExpr::Literal(SValue::Text(s.subrange(1, s.len() - 1))))
        } else if s == "x"@ {
            Parsed::Done(SExpr::BallProperty(BallProperty::X))
        } else if s == "y"@ {
            Parsed::Done(SExpr::BallProperty(BallProperty::Y))
        } else if s == "speed"@ {
            Parsed::Done(speed())
        } else {
            match first_op(s) {
                Some((p, op)) => if 0 <= p < s.len() {
                    let left = trim(s.take(p));
                    let right = trim(s.skip(p + 1));
                    proof {
                        lemma_trim_len(s0);
                        lemma_trim_len(s.take(p));
                        lemma_trim_len(s.skip(p + 1));
                    }
                    let l = if left.len() == 0 {
                        Parsed::Done(speed())
                    } else {
                        spec_coord_expr(left)
                    };
                    match l {
                        Parsed::Done(le) => match spec_coord_expr(right) {
                            Parsed::Done(re) => Parsed::Done(binary(le, op, re)),
                            other => other,
                        },
                        other => other,
                    }
                } else {
                    Parsed::Panic
                },
                None => if is_float_text(s) {
                    Parsed::Done(number(s))
                } else if s.len() > 0 && s[0] == '$' {
                    if s.len() == 1 {
                        Parsed::Failed("Global variable name cannot be empty after $"@)
                    } else {
                        Parsed::Done(SExpr::GlobalVariable(s.skip(1)))
                    }
                } else {
                    Parsed::Done(SExpr::Variable(s))
                },
            }
        },
    }
}

proof fn lemma_find_char_range(s: Seq<char>, c: char, i: int)
    ensures
        crate::text::find_char_from(s, c, i) matches Some(j) ==> i <= j < s.len(),
    decreases s.len() - i,
{
    if 0 <= i < s.len() && s[i] != c {
        lemma_find_char_range(s, c, i + 1);
    }
}

proof fn lemma_first_op_from(s: Seq<char>, k: int)
    ensures
        first_op_from(s, k) matches Some((p, _)) ==> 0 <= p < s.len(),
    decreases 5 - k,
{
    if 0 <= k < 5 {
        lemma_find_char_range(s, op_char(k), 0);
        lemma_first_op_from(s, k + 1);
    }
}

/// The first operator of `+ - * / %` in `s`.
fn first_op_exec(s: &str) -> (r: Option<(usize, BinaryOperator)>)
    ensures
        match r {
            Some((p, op)) => first_op(s@) == Some((p as int, op)) && p < s@.len(),
            None => first_op(s@) is None,
        },
        s@.len() <= usize::MAX,
{
    let cs = to_chars(s);
    assert(cs@.len() == cs.len());
    proof { lemma_first_op_from(s@, 0); }
    let ops = ['+', '-', '*', '/', '%'];
    let mut k: usize = 0;
    while k < 5
        invariant
            k <= 5,
            first_op(s@) == first_op_from(s@, k as int),
            ops@ == seq!['+', '-', '*', '/', '%'],
            first_op(s@) matches Some((p, _)) ==> 0 <= p < s@.len(),
        decreases 5 - k,
    {
        assert(ops@[k as int] == op_char(k as int));
        match find_char_exec(s, ops[k]) {
            Some(p) => {
                let op = match k {
                    0 => BinaryOperator::Add,
                    1 => BinaryOperator::Sub,
                    2 => BinaryOperator::Mul,
                    3 => BinaryOperator::Div,
                    _ => BinaryOperator::Mod,
                };
                return Some((p, op));
            },
            None => {},
        }
        k = k + 1;
    }
    None
}

fn binary_expr(l: Expression, op: BinaryOperator, r: Expression) -> (e: Expression)
    ensures
        e@ == binary(l@, op, r@),
{
    Expression::BinaryOp { left: Box::new(l), op, right: Box::new(r) }
}

fn number_expr(t: &str) -> (e: Expression)
    ensures
        e@ == number(t@),
{
    Expression::Literal(Value::Number(owned(t)))
}

/// `self`, or an operation on `self` and expressions, or a number, or else
/// any expression: the speed given to a created ball.
pub open spec fn spec_speed_expr(s0: Seq<char>) -> Parsed<SExpr> {
    let s = trim(s0);
    if s == "self"@ {
        Parsed::Done(speed())
    } else {
        match first_op(s) {
            Some((p, op)) => {
                let left = trim(s.take(p));
                let right = trim(s.skip(p + 1));
                let l = if left == "self"@ { Parsed::Done(speed()) } else { spec_coord_expr(left) };
                match l {
                    Parsed::Done(le) => {
                        let rr = if right == "self"@ { Parsed::Done(speed()) } else { spec_coord_expr(right) };
                        match rr {
                            Parsed::Done(re) => Parsed::Done(binary(le, op, re)),
                            other => other,
                        }
                    },
                    other => other,
                }
            },
            None => if is_float_text(s) {
                Parsed::Done(number(s))
            } else {
                spec_coord_expr(s)
            },
        }
    }
}

pub open spec fn direction_lit(d: Direction) -> SExpr {
    SExpr::Literal(SValue::Direction(d))
}

/// The direction given to a created ball. Note the words name the way the
/// ball is seen to go on screen, the opposite of the grid direction.
pub open spec fn spec_direction_expr(s: Seq<char>) -> Parsed<SExpr> {
    if s == "self"@ {
        Parsed::Done(SExpr::BallProperty(BallProperty::Direction))
    } else if s == "up"@ {
        Parsed::Done(direction_lit(Direction::Down))
    } else if s == "down"@ {
        Parsed::Done(direction_lit(Direction::Up))
    } else if s == "left"@ {
        Parsed::Done(direction_lit(Direction::Right))
    } else if s == "right"@ {
        Parsed::Done(direction_lit(Direction::Left))
    } else if s == "+1"@ || s == "-1"@ {
        Parsed::Done(number(s))
    } else if is_float_text(s) {
        Parsed::Done(SExpr::Literal(SValue::DirectionNumber(s)))
    } else {
        Parsed::Failed("Invalid direction value: "@ + s)
    }
}

/// `var name = expression` (with the `var ` already checked).
pub open spec fn spec_var_statement(line: Seq<char>, global: bool) -> Parsed<SInstr> {
    let content = trim(line.skip(if global { 5 } else { 4 }));
    match find_char(content, '=') {
        Some(p) => {
            let name = trim(content.take(p));
            let expr = trim(content.skip(p + 1));
            if name.len() == 0 {
                Parsed::Failed(
                    if global { "Global variable name cannot be empty"@ } else { "Variable name cannot be empty"@ },
                )
            } else {
                match spec_coord_expr(expr) {
                    Parsed::Done(e) => Parsed::Done(
                        if global {
                            SInstr::SetGlobalVariable { name, value: e }
                        } else {
                            SInstr::SetVariable { name, value: e }
                        },
                    ),
                    Parsed::Failed(m) => Parsed::Failed(m),
                    Parsed::Panic => Parsed::Panic,
                }
            }
        },
        None => Parsed::Failed(
            if global {
                "Invalid $var statement format. Expected: $var variable_name = expression"@
            } else {
                "Invalid var statement format. Expected: var variable_name = expression"@
            },
        ),
    }
}

/// The pitch factor a note name stands for.
pub open spec fn note_pitch(p: Seq<char>) -> Option<Seq<char>> {
    if p == "C"@ {
        Some("0.5"@)
    } else if p == "C#"@ || p == "Db"@ {
        Some("0.53"@)
    } else if p == "D"@ {
        Some("0.56"@)
    } else if p == "D#"@ || p == "Eb"@ {
        Some("0.59"@)
    } else if p == "E"@ {
        Some("0.63"@)
    } else if p == "F"@ {
        Some("0.67"@)
    } else if p == "F#"@ || p == "Gb"@ {
        Some("0.71"@)
    } else if p == "G"@ {
        Some("0.75"@)
    } else if p == "G#"@ || p == "Ab"@ {
        Some("0.79"@)
    } else if p == "A"@ {
        Some("0.84"@)
    } else if p == "A#"@ || p == "Bb"@ {
        Some("0.89"@)
    } else if p == "B"@ {
        Some("0.94"@)
    } else {
        None
    }
}

pub open spec fn is_relative(t: Seq<char>) -> bool {
    t.len() > 0 && (t[0] == '+' || t[0] == '-')
}

pub open spec fn wrap_expr(r: Parsed<SExpr>, f: spec_fn(SExpr) -> SInstr) -> Parsed<SInstr> {
    match r {
        Parsed::Done(e) => Parsed::Done(f(e)),
        Parsed::Failed(m) => Parsed::Failed(m),
        Parsed::Panic => Parsed::Panic,
    }
}

/// The direction words of `set direction`, turned the same way as for created balls.
pub open spec fn direction_word(d: Seq<char>) -> Option<Direction> {
    if d == "up"@ {
        Some(Direction::Down)
    } else if d == "down"@ {
        Some(Direction::Up)
    } else if d == "left"@ {
        Some(Direction::Right)
    } else if d == "right"@ {
        Some(Direction::Left)
    } else if d == "up-left"@ {
        Some(Direction::DownRight)
    } else if d == "up-right"@ {
        Some(Direction::DownLeft)
    } else if d == "down-left"@ {
        Some(Direction::UpRight)
    } else if d == "down-right"@ {
        Some(Direction::UpLeft)
    } else {
        None
    }
}

proof fn lemma_direction_word_names()
    ensures
        lower_all("Up"@) == "up"@,
        lower_all("Down"@) == "down"@,
        lower_all("Left"@) == "left"@,
        lower_all("Right"@) == "right"@,
        lower_all("Up-Left"@) == "up-left"@,
        lower_all("Up-Right"@) == "up-right"@,
        lower_all("Down-Left"@) == "down-left"@,
        lower_all("Down-Right"@) == "down-right"@,
{
    reveal_strlit("Up");
    reveal_strlit("Down");
    reveal_strlit("Left");
    reveal_strlit("Right");
    reveal_strlit("Up-Left");
    reveal_strlit("Up-Right");
    reveal_strlit("Down-Left");
    reveal_strlit("Down-Right");
    reveal_strlit("up");
    reveal_strlit("down");
    reveal_strlit("left");
    reveal_strlit("right");
    reveal_strlit("up-left");
    reveal_strlit("up-right");
    reveal_strlit("down-left");
    reveal_strlit("down-right");
    assert(lower_all("Up"@) =~= "up"@);
    assert(lower_all("Down"@) =~= "down"@);
    assert(lower_all("Left"@) =~= "left"@);
    assert(lower_all("Right"@) =~= "right"@);
    assert(lower_all("Up-Left"@) =~= "up-left"@);
    assert(lower_all("Up-Right"@) =~= "up-right"@);
    assert(lower_all("Down-Left"@) =~= "down-left"@);
    assert(lower_all("Down-Right"@) =~= "down-right"@);
}

/// The direction words of `set direction` are the names of the eight
/// directions in lower case, and each sends the ball the opposite way to
/// the one it names (`up` down, `left` right, `down-left` up and right);
/// no other word is a direction word.
pub proof fn lemma_direction_words_mirror(d: Direction, w: Seq<char>)
    ensures
        direction_word(lower_all(direction_label(d))) == Some(spec_reverse(d)),
        direction_word(w) matches Some(r) ==> w == lower_all(direction_label(spec_reverse(r))),
{
    lemma_direction_word_names();
    reveal_strlit("up");
    reveal_strlit("down");
    reveal_strlit("left");
    reveal_strlit("right");
    reveal_strlit("up-left");
    reveal_strlit("up-right");
    reveal_strlit("down-left");
    reveal_strlit("down-right");
    let words = seq!["up"@, "down"@, "left"@, "right"@, "up-left"@, "up-right"@, "down-left"@, "down-right"@];
    assert(forall|a: int, b: int| 0 <= a < b < 8 ==> #[trigger] words[a] != #[trigger] words[b]) by {
        assert forall|a: int, b: int| 0 <= a < b < 8 implies #[trigger] words[a] != #[trigger] words[b] by {
            if words[a].len() == words[b].len() {
                assert(words[a][0] != words[b][0] || words[a][1] != words[b][1] || words[a][words[a].len() - 1]
                    != words[b][words[b].len() - 1]);
            }
        }
    }
    match d {
        Direction::Up => assert(words[0] == "up"@),
        Direction::Down => assert(words[1] == "down"@ && words[0] != words[1]),
        Direction::Left => assert(words[2] == "left"@ && words[0] != words[2] && words[1] != words[2]),
        Direction::Right => assert(words[3] == "right"@ && words[0] != words[3] && words[1] != words[3] && words[2] != words[3]),
        Direction::UpLeft => assert(words[4] == "up-left"@ && words[0] != words[4] && words[1] != words[4] && words[2] != words[4] && words[3] != words[4]),
        Direction::UpRight => assert(words[5] == "up-right"@ && words[0] != words[5] && words[1] != words[5] && words[2] != words[5] && words[3] != words[5] && words[4] != words[5]),
        Direction::DownLeft => assert(words[6] == "down-left"@ && words[0] != words[6] && words[1] != words[6] && words[2] != words[6] && words[3] != words[6] && words[4] != words[6] && words[5] != words[6]),
        Direction::DownRight => assert(words[7] == "down-right"@ && words[0] != words[7] && words[1] != words[7] && words[2] != words[7] && words[3] != words[7] && words[4] != words[7] && words[5] != words[7] && words[6] != words[7]),
    }
}

pub open spec fn invalid_set() -> Parsed<SInstr> {
    Parsed::Failed("Invalid set statement format"@)
}

/// `set speed|direction|color|reverse|pitch|volume ...`
pub open spec fn spec_set_statement(line: Seq<char>) -> Parsed<SInstr> {
    let parts = words(line);
    if parts.len() >= 3 && parts[0] == "set"@ {
        let property = parts[1];
        let arg = parts[2];
        if property == "speed"@ {
            if is_relative(arg) {
                if is_float_text(arg) {
                    Parsed::Done(SInstr::SetSpeed(binary(speed(), BinaryOperator::Add, number(arg))))
                } else {
                    invalid_set()
                }
            } else {
                wrap_expr(spec_coord_expr(arg), |e: SExpr| SInstr::SetSpeed(e))
            }
        } else if property == "direction"@ {
            match direction_word(arg) {
                Some(d) => Parsed::Done(SInstr::SetDirection(direction_lit(d))),
                None => wrap_expr(spec_coord_expr(arg), |e: SExpr| SInstr::SetDirection(e)),
            }
        } else if property == "color"@ {
            match spec_validate_color(arg) {
                Parsed::Done(c) => Parsed::Done(SInstr::SetColor(SExpr::Literal(SValue::Text(c)))),
                Parsed::Failed(m) => Parsed::Failed(m),
                Parsed::Panic => Parsed::Panic,
            }
        } else if property == "reverse"@ {
            if parts.len() >= 4 {
                wrap_expr(spec_coord_expr(parts[3]), |e: SExpr| SInstr::SetReverse { ball_reference: arg, speed: e })
            } else {
                Parsed::Failed("Invalid reverse statement format. Expected: set reverse ball_reference speed"@)
            }
        } else if property == "pitch"@ {
            match note_pitch(arg) {
                Some(v) => Parsed::Done(SInstr::SetPitch(number(v))),
                None => if is_relative(arg) {
                    if is_float_text(arg) {
                        Parsed::Done(
                            SInstr::SetPitch(binary(SExpr::BallProperty(BallProperty::Pitch), BinaryOperator::Add, number(arg))),
                        )
                    } else {
                        Parsed::Failed("Invalid pitch change value: "@ + arg)
                    }
                } else {
                    wrap_expr(spec_coord_expr(arg), |e: SExpr| SInstr::SetPitch(e))
                },
            }
        } else if property == "volume"@ {
            if is_relative(arg) {
                if is_float_text(arg) {
                    Parsed::Done(
                        SInstr::SetVolume(binary(SExpr::BallProperty(BallProperty::Volume), BinaryOperator::Add, number(arg))),
                    )
                } else {
                    Parsed::Failed("Invalid volume change value: "@ + arg)
                }
            } else {
                wrap_expr(spec_coord_expr(arg), |e: SExpr| SInstr::SetVolume(e))
            }
        } else {
            Parsed::Failed("Unknown property: "@ + property)
        }
    } else {
        invalid_set()
    }
}

/// Position of the first word that is not a `u32`, if any.
pub open spec fn first_bad_marker(parts: Seq<Seq<char>>, i: int) -> Option<int>
    decreases parts.len() - i,
{
    if i < 0 || i >= parts.len() {
        None
    } else if u32_of(parts[i]) is None {
        Some(i)
    } else {
        first_bad_marker(parts, i + 1)
    }
}

pub open spec fn marker_values(parts: Seq<Seq<char>>) -> Seq<u32> {
    parts.map_values(|p: Seq<char>| u32_of(p)->0)
}

/// `slice 1 4 2 5`: the marker numbers a square plays in turn.
pub open spec fn spec_slice_statement(line: Seq<char>) -> Parsed<SInstr> {
    let content = trim(line.skip(6));
    let parts = words(content);
    if content.len() == 0 {
        Parsed::Failed("Slice statement cannot be empty. Expected: slice 1 4 2 5"@)
    } else {
        match first_bad_marker(parts, 0) {
            Some(i) => Parsed::Failed("Invalid marker number '"@ + parts[i] + "' in slice statement"@),
            None => if parts.len() == 0 {
                Parsed::Failed("Slice statement must contain at least one marker number"@)
            } else {
                Parsed::Done(SInstr::SetSliceArray { markers: marker_values(parts) })
            },
        }
    }
}

/// `hits(self)`, `hits(ball1)`, `hits(c_red)`, `hits(square(3, 5))`: the
/// variable that counts those hits.
pub open spec fn spec_hits_function(target: Seq<char>) -> Parsed<SExpr> {
    if target == "self"@ {
        Parsed::Done(SExpr::Variable("__square_hits"@))
    } else if is_ball_object(target) {
        Parsed::Done(SExpr::Variable("__ball_hits_"@ + target))
    } else if starts_with(target, "c_"@) {
        match spec_validate_color(target) {
            Parsed::Done(_) => Parsed::Done(SExpr::Variable("__ball_hits_"@ + target)),
            Parsed::Failed(m) => Parsed::Failed(m),
            Parsed::Panic => Parsed::Panic,
        }
    } else {
        let coords = trim_all(split_char(target.subrange(7, target.len() - 1), ','));
        if starts_with(target, "square("@) && ends_with(target, ")"@) && coords.len() == 2
            && i32_of(coords[0]) is Some && i32_of(coords[1]) is Some {
            Parsed::Done(
                SExpr::Variable(
                    "__square_hits_"@ + int_text(i32_of(coords[0])->0 as int) + "_"@ + int_text(
                        i32_of(coords[1])->0 as int,
                    ),
                ),
            )
        } else {
            Parsed::Failed("Invalid hits() target: "@ + target)
        }
    }
}

/// `hits(target)` or any expression.
pub open spec fn spec_print_expression(e: Seq<char>) -> Parsed<SExpr> {
    if starts_with(e, "hits("@) && ends_with(e, ")"@) {
        spec_hits_function(trim(e.subrange(5, e.len() - 1)))
    } else {
        spec_coord_expr(e)
    }
}

/// `print expression` or `print hits(target)`.
pub open spec fn spec_print_statement(line: Seq<char>) -> Parsed<SInstr> {
    let content = trim(line.skip(6));
    if content.len() == 0 {
        Parsed::Failed("Print statement requires an expression"@)
    } else {
        wrap_expr(spec_print_expression(content), |x: SExpr| SInstr::Print(x))
    }
}

/// The variable a hit condition reads.
pub open spec fn hit_variable(object: Seq<char>, target: Seq<char>, validated: Seq<char>) -> Seq<char> {
    if target == "self"@ {
        "__ball_color_square_hits_"@ + validated
    } else if starts_with(object, "ball"@) {
        "__ball_hits_"@ + validated + "_"@ + target
    } else {
        "__ball_hits_"@ + validated
    }
}

pub open spec fn is_valid_target(t: Seq<char>) -> bool {
    t == "self"@ || is_ball_object(t) || (starts_with(t, "square("@) && ends_with(t, ")"@))
}

/// `object hits target count times` as a condition on a hit counter.
pub open spec fn spec_hit_condition(object: Seq<char>, target: Seq<char>, count: Seq<char>) -> Parsed<SExpr> {
    match spec_validate_object_reference(object) {
        Parsed::Done(v) => if is_valid_target(target) {
            Parsed::Done(binary(SExpr::Variable(hit_variable(object, target, v)), BinaryOperator::Equal, number(count)))
        } else {
            Parsed::Failed(
                "Invalid target '"@ + target
                    + "'. Use 'self', ball objects (ball1, ball2, etc.), or square coordinates square(x, y)"@,
            )
        },
        Parsed::Failed(m) => Parsed::Failed(m),
        Parsed::Panic => Parsed::Panic,
    }
}

/// The condition of an `if` line (with the `if ` already checked).
pub open spec fn spec_if_condition(line: Seq<char>) -> Parsed<SExpr> {
    let cond = trim(line.skip(3));
    let parts = words(cond);
    let general = spec_coord_expr(cond);
    if parts.len() >= 5 && parts[1] == "hits"@ && parts[4] == "times"@ {
        let count = parts[3];
        if contains_char(count, '/') {
            let m = split_char(count, '/');
            if m.len() == 2 && is_float_text(trim(m[1])) {
                match spec_validate_object_reference(parts[0]) {
                    Parsed::Done(_) => Parsed::Done(
                        binary(
                            binary(SExpr::BallProperty(BallProperty::HitCount), BinaryOperator::Mod, number(trim(m[1]))),
                            BinaryOperator::Equal,
                            number("0.0"@),
                        ),
                    ),
                    Parsed::Failed(e) => Parsed::Failed(e),
                    Parsed::Panic => Parsed::Panic,
                }
            } else {
                general
            }
        } else if u32_of(count) is Some {
            spec_hit_condition(parts[0], parts[2], count)
        } else {
            general
        }
    } else {
        general
    }
}

/// Whether `s` begins with `c`.
fn starts_with_char(s: &str, c: char) -> (r: bool)
    ensures
        r == (s@.len() > 0 && s@[0] == c),
{
    s.unicode_len() > 0 && s.get_char(0) == c
}

fn direction_word_exec(d: &str) -> (r: Option<Direction>)
    ensures
        r == direction_word(d@),
{
    if str_eq(d, "up") {
        Some(Direction::Down)
    } else if str_eq(d, "down") {
        Some(Direction::Up)
    } else if str_eq(d, "left") {
        Some(Direction::Right)
    } else if str_eq(d, "right") {
        Some(Direction::Left)
    } else if str_eq(d, "up-left") {
        Some(Direction::DownRight)
    } else if str_eq(d, "up-right") {
        Some(Direction::DownLeft)
    } else if str_eq(d, "down-left") {
        Some(Direction::UpRight)
    } else if str_eq(d, "down-right") {
        Some(Direction::UpLeft)
    } else {
        None
    }
}

fn note_pitch_exec(p: &str) -> (r: Option<&'static str>)
    ensures
        match r {
            Some(v) => note_pitch(p@) == Some(v@),
            None => note_pitch(p@) is None,
        },
{
    if str_eq(p, "C") {
        Some("0.5")
    } else if str_eq(p, "C#") || str_eq(p, "Db") {
        Some("0.53")
    } else if str_eq(p, "D") {
        Some("0.56")
    } else if str_eq(p, "D#") || str_eq(p, "Eb") {
        Some("0.59")
    } else if str_eq(p, "E") {
        Some("0.63")
    } else if str_eq(p, "F") {
        Some("0.67")
    } else if str_eq(p, "F#") || str_eq(p, "Gb") {
        Some("0.71")
    } else if str_eq(p, "G") {
        Some("0.75")
    } else if str_eq(p, "G#") || str_eq(p, "Ab") {
        Some("0.79")
    } else if str_eq(p, "A") {
        Some("0.84")
    } else if str_eq(p, "A#") || str_eq(p, "Bb") {
        Some("0.89")
    } else if str_eq(p, "B") {
        Some("0.94")
    } else {
        None
    }
}

/// Whether every character of `s` is a decimal digit.
pub fn digits_only(s: &str) -> (r: bool)
    ensures
        r == all_digits(s@),
{
    let cs = to_chars(s);
    let mut i: usize = 0;
    while i < cs.len()
        invariant
            cs@ == s@,
            i <= cs.len(),
            forall|k: int| 0 <= k < i ==> is_digit(cs@[k]),
        decreases cs.len() - i,
    {
        if !('0' <= cs[i] && cs[i] <= '9') {
            return false;
        }
        i = i + 1;
    }
    true
}

// ---------------------------------------------------------------------------
// create and destroy

pub open spec fn invalid_create() -> Parsed<SInstr> {
    Parsed::Failed(
        "Invalid create statement format. Expected: create ball(x,y)(speed,direction) or create square(x,y)"@,
    )
}

pub open spec fn invalid_ball_parameters() -> Parsed<SInstr> {
    Parsed::Failed("Invalid ball parameters. Expected: create ball(x,y)(speed,direction)"@)
}

pub open spec fn literal_coordinates_required() -> Parsed<SInstr> {
    Parsed::Failed("Library references require literal coordinate values"@)
}

pub open spec fn invalid_sample_creation() -> Parsed<SInstr> {
    Parsed::Failed(
        "Invalid sample creation format. Expected: create [ball|square] from sample library.sample_name(x,y)"@,
    )
}

pub open spec fn invalid_destroy() -> Parsed<SInstr> {
    Parsed::Failed(
        "Invalid destroy statement format. Expected: destroy ball(x,y), destroy ball(self), or destroy square(x,y)"@,
    )
}

/// A sound file name among the `lib.` references.
pub open spec fn is_audio_name(r: Seq<char>) -> bool {
    ends_with(r, ".wav"@) || ends_with(r, ".mp3"@) || ends_with(r, ".ogg"@)
}

/// The `lib.` references among `parts`: the last function named and the last
/// sound file named.
pub open spec fn library_refs(parts: Seq<Seq<char>>) -> (Option<Seq<char>>, Option<Seq<char>>)
    decreases parts.len(),
{
    if parts.len() == 0 {
        (None, None)
    } else {
        let (f, a) = library_refs(parts.drop_last());
        let p = trim(parts.last());
        if starts_with(p, "lib."@) {
            let r = p.skip(4);
            if is_audio_name(r) {
                (f, Some(r))
            } else {
                (Some(r), a)
            }
        } else {
            (f, a)
        }
    }
}

/// `with lib.function and lib.sound.wav` after a ball or square at `(x, y)`.
pub open spec fn spec_library_reference(object_type: Seq<char>, x: Seq<char>, y: Seq<char>, with_clause: Seq<char>) -> Parsed<SInstr> {
    let refs = library_refs(split(trim(with_clause.skip(4)), " and "@));
    let function = match refs.0 {
        Some(f) => f,
        None => "default"@,
    };
    if object_type == "ball"@ {
        Parsed::Done(
            SInstr::CreateBallWithLibrary { x: number(x), y: number(y), library_function: function, audio_file: refs.1 },
        )
    } else if object_type == "square"@ {
        Parsed::Done(
            SInstr::CreateSquareWithLibrary { x: number(x), y: number(y), library_function: function, audio_file: refs.1 },
        )
    } else {
        Parsed::Failed("Unknown object type: "@ + object_type)
    }
}

/// What follows `ball(x, y)`: `(speed, direction)`, a `with lib.` clause, or nothing.
pub open spec fn spec_create_ball(rest: Seq<char>, x: SExpr, y: SExpr) -> Parsed<SInstr> {
    if rest.len() > 0 && rest[0] == '(' {
        match find_char(rest, ')') {
            Some(q) => {
                let params = trim_all(split_char(trim(rest.subrange(1, q)), ','));
                if params.len() == 2 {
                    match spec_speed_expr(params[0]) {
                        Parsed::Done(sp) => match spec_direction_expr(params[1]) {
                            Parsed::Done(d) => Parsed::Done(SInstr::CreateBall { x, y, speed: sp, direction: d }),
                            Parsed::Failed(m) => Parsed::Failed(m),
                            Parsed::Panic => Parsed::Panic,
                        },
                        Parsed::Failed(m) => Parsed::Failed(m),
                        Parsed::Panic => Parsed::Panic,
                    }
                } else {
                    invalid_ball_parameters()
                }
            },
            None => invalid_ball_parameters(),
        }
    } else if starts_with(trim(rest), "with"@) {
        if contains(rest, "lib."@) {
            match (x, y) {
                (SExpr::Literal(SValue::Number(a)), SExpr::Literal(SValue::Number(b))) => spec_library_reference(
                    "ball"@,
                    a,
                    b,
                    trim(rest),
                ),
                _ => literal_coordinates_required(),
            }
        } else {
            Parsed::Failed("Invalid 'with' syntax for ball creation"@)
        }
    } else {
        Parsed::Done(
            SInstr::CreateBall { x, y, speed: number("1.0"@), direction: direction_lit(Direction::Right) },
        )
    }
}

/// What follows `square(x, y)` (trimmed): a `with lib.` clause or nothing.
pub open spec fn spec_create_square(rest: Seq<char>, x: SExpr, y: SExpr) -> Parsed<SInstr> {
    if starts_with(rest, "with"@) {
        if contains(rest, "lib."@) {
            match (x, y) {
                (SExpr::Literal(SValue::Number(a)), SExpr::Literal(SValue::Number(b))) => spec_library_reference(
                    "square"@,
                    a,
                    b,
                    rest,
                ),
                _ => literal_coordinates_required(),
            }
        } else {
            Parsed::Failed("Square with embedded program detected - needs multi-line parsing"@)
        }
    } else {
        Parsed::Done(SInstr::CreateSquare { x, y })
    }
}

/// `ball(x, y)...` or `square(x, y)...`, the parentheses at `p` and `c`.
pub open spec fn spec_create_object(content: Seq<char>, p: int, c: int) -> Parsed<SInstr> {
    let object_type = trim(content.take(p));
    let coords = trim_all(split_char(trim(content.subrange(p + 1, c)), ','));
    if coords.len() == 2 {
        match spec_coord_expr(coords[0]) {
            Parsed::Done(x) => match spec_coord_expr(coords[1]) {
                Parsed::Done(y) => if object_type == "ball"@ {
                    spec_create_ball(content.skip(c + 1), x, y)
                } else if object_type == "square"@ {
                    spec_create_square(trim(content.skip(c + 1)), x, y)
                } else {
                    Parsed::Failed("Unknown object type: "@ + object_type)
                },
                Parsed::Failed(m) => Parsed::Failed(m),
                Parsed::Panic => Parsed::Panic,
            },
            Parsed::Failed(m) => Parsed::Failed(m),
            Parsed::Panic => Parsed::Panic,
        }
    } else {
        Parsed::Failed("Invalid coordinate format. Expected: (x,y)"@)
    }
}

/// `[ball|square] from sample library.sample(x, y)`.
pub open spec fn spec_create_from_sample(content: Seq<char>) -> Parsed<SInstr> {
    let parts = split(content, " from sample "@);
    if parts.len() != 2 {
        invalid_sample_creation()
    } else {
        let object_type = trim(parts[0]);
        let sc = trim(parts[1]);
        match (find_char(sc, '('), find_char(sc, ')')) {
            (Some(p), Some(c)) => if c < p {
                Parsed::Panic
            } else {
                let sample = split_char(trim(sc.take(p)), '.');
                let coords = trim_all(split_char(trim(sc.subrange(p + 1, c)), ','));
                if sample.len() != 2 {
                    Parsed::Failed("Invalid sample reference format. Expected: library.sample_name"@)
                } else if coords.len() == 2 && i32_of(coords[0]) is Some && i32_of(coords[1]) is Some {
                    let x = number(int_text(i32_of(coords[0])->0 as int));
                    let y = number(int_text(i32_of(coords[1])->0 as int));
                    if object_type == "ball"@ {
                        Parsed::Done(
                            SInstr::CreateBallFromSample {
                                x,
                                y,
                                library_name: trim(sample[0]),
                                sample_name: trim(sample[1]),
                            },
                        )
                    } else if object_type == "square"@ {
                        Parsed::Done(
                            SInstr::CreateSquareFromSample {
                                x,
                                y,
                                library_name: trim(sample[0]),
                                sample_name: trim(sample[1]),
                            },
                        )
                    } else {
                        Parsed::Failed("Unknown object type for sample creation: "@ + object_type)
                    }
                } else {
                    invalid_sample_creation()
                }
            },
            _ => invalid_sample_creation(),
        }
    }
}

/// `create ...` (with the `create ` already checked).
pub open spec fn spec_create_statement(line: Seq<char>) -> Parsed<SInstr> {
    let content = trim(line.skip(7));
    if contains(content, " from sample "@) {
        spec_create_from_sample(content)
    } else {
        match (find_char(content, '('), find_char(content, ')')) {
            (Some(p), Some(c)) => if c < p {
                Parsed::Panic
            } else {
                spec_create_object(content, p, c)
            },
            _ => invalid_create(),
        }
    }
}

pub open spec fn destroy_of(object_type: Seq<char>, target: STarget) -> Parsed<SInstr> {
    if object_type == "ball"@ {
        Parsed::Done(SInstr::DestroyBall { target })
    } else if object_type == "square"@ {
        Parsed::Done(SInstr::DestroySquare { target })
    } else {
        Parsed::Failed("Unknown object type: "@ + object_type)
    }
}

/// `destroy ball(x, y)`, `destroy ball(self)`, `destroy square(last.ball)`, ...
pub open spec fn spec_destroy_statement(line: Seq<char>) -> Parsed<SInstr> {
    let content = trim(line.skip(8));
    match (find_char(content, '('), find_char(content, ')')) {
        (Some(p), Some(c)) => if c < p {
            Parsed::Panic
        } else {
            let object_type = trim(content.take(p));
            let target = trim(content.subrange(p + 1, c));
            if target == "self"@ || (contains(target, "last."@) && !contains_char(target, ',')) {
                destroy_of(object_type, STarget::BallReference(target))
            } else {
                let coords = trim_all(split_char(target, ','));
                if coords.len() == 2 && is_float_text(coords[0]) && is_float_text(coords[1]) {
                    destroy_of(object_type, STarget::Coordinates { x: number(coords[0]), y: number(coords[1]) })
                } else {
                    invalid_destroy()
                }
            }
        },
        _ => invalid_destroy(),
    }
}

impl SimpleProgramParser {
    fn parse_create_with_library_reference(&self, object_type: &str, x: &str, y: &str, with_clause: &str) -> (r: Result<Instruction, String>)
        requires
            starts_with(with_clause@, "with"@),
        ensures
            result_instr(r) == spec_library_reference(object_type@, x@, y@, with_clause@),
    {
        proof { reveal_strlit("with"); reveal_strlit(" and "); reveal_strlit("lib."); }
        let with_content = trim_exec(tail(with_clause, 4));
        let parts = split_exec(with_content, " and ");
        let ghost ps = views(parts@);
        let mut library_function: Option<String> = None;
        let mut audio_file: Option<String> = None;
        let mut i: usize = 0;
        while i < parts.len()
            invariant
                ps == views(parts@),
                i <= parts.len(),
                (opt_text_view(library_function), opt_text_view(audio_file)) == library_refs(ps.take(i as int)),
            decreases parts.len() - i,
        {
            let part = trim_exec(parts[i]);
            proof {
                reveal_strlit("lib.");
                assert(ps.take(i + 1).drop_last() =~= ps.take(i as int));
                assert(ps.take(i + 1).last() == parts@[i as int]@);
            }
            if starts_with_exec(part, "lib.") {
                let reference = tail(part, 4);
                if ends_with_exec(reference, ".wav") || ends_with_exec(reference, ".mp3") || ends_with_exec(
                    reference,
                    ".ogg",
                ) {
                    audio_file = Some(owned(reference));
                } else {
                    library_function = Some(owned(reference));
                }
            }
            i = i + 1;
        }
        assert(ps.take(i as int) =~= ps);
        let lib_func = match library_function {
            Some(f) => f,
            None => owned("default"),
        };
        if str_eq(object_type, "ball") {
            Ok(
                Instruction::CreateBallWithLibrary {
                    x: number_expr(x),
                    y: number_expr(y),
                    library_function: lib_func,
                    audio_file,
                },
            )
        } else if str_eq(object_type, "square") {
            Ok(
                Instruction::CreateSquareWithLibrary {
                    x: number_expr(x),
                    y: number_expr(y),
                    library_function: lib_func,
                    audio_file,
                },
            )
        } else {
            Err(joined("Unknown object type: ", object_type))
        }
    }

    fn parse_create_ball(&self, rest: &str, x: Expression, y: Expression) -> (r: Result<Instruction, String>)
        ensures
            result_instr(r) == spec_create_ball(rest@, x@, y@),
    {
        proof { reveal_strlit("with"); reveal_strlit("lib."); }
        if starts_with_char(rest, '(') {
            match find_char_exec(rest, ')') {
                Some(q) => {
                    let params = trim_each(split_char_exec(trim_exec(slice(rest, 1, q)), ','));
                    if params.len() == 2 {
                        proof {
                            assert(views(params@)[0] == params@[0]@);
                            assert(views(params@)[1] == params@[1]@);
                        }
                        let sp = match self.parse_speed_expression(params[0]) {
                            Ok(e) => e,
                            Err(m) => return Err(m),
                        };
                        let d = match self.parse_direction_expression(params[1]) {
                            Ok(e) => e,
                            Err(m) => return Err(m),
                        };
                        return Ok(Instruction::CreateBall { x, y, speed: sp, direction: d });
                    }
                    Err(owned("Invalid ball parameters. Expected: create ball(x,y)(speed,direction)"))
                },
                None => Err(owned("Invalid ball parameters. Expected: create ball(x,y)(speed,direction)")),
            }
        } else if starts_with_exec(trim_exec(rest), "with") {
            if contains_exec(rest, "lib.") {
                match (&x, &y) {
                    (Expression::Literal(Value::Number(a)), Expression::Literal(Value::Number(b))) => {
                        self.parse_create_with_library_reference("ball", a.as_str(), b.as_str(), trim_exec(rest))
                    },
                    _ => Err(owned("Library references require literal coordinate values")),
                }
            } else {
                Err(owned("Invalid 'with' syntax for ball creation"))
            }
        } else {
            Ok(
                Instruction::CreateBall {
                    x,
                    y,
                    speed: number_expr("1.0"),
                    direction: Expression::Literal(Value::Direction(Direction::Right)),
                },
            )
        }
    }

    fn parse_create_square(&self, rest: &str, x: Expression, y: Expression) -> (r: Result<Instruction, String>)
        ensures
            result_instr(r) == spec_create_square(rest@, x@, y@),
    {
        proof { reveal_strlit("with"); reveal_strlit("lib."); }
        if starts_with_exec(rest, "with") {
            if contains_exec(rest, "lib.") {
                match (&x, &y) {
                    (Expression::Literal(Value::Number(a)), Expression::Literal(Value::Number(b))) => {
                        self.parse_create_with_library_reference("square", a.as_str(), b.as_str(), rest)
                    },
                    _ => Err(owned("Library references require literal coordinate values")),
                }
            } else {
                Err(owned("Square with embedded program detected - needs multi-line parsing"))
            }
        } else {
            Ok(Instruction::CreateSquare { x, y })
        }
    }

    fn parse_create_object(&self, content: &str, p: usize, c: usize) -> (r: Result<Instruction, String>)
        requires
            p < c < content@.len(),
        ensures
            result_instr(r) == spec_create_object(content@, p as int, c as int),
    {
        let _n = content.unicode_len();
        let object_type = trim_exec(slice(content, 0, p));
        proof { assert(content@.subrange(0, p as int) =~= content@.take(p as int)); }
        let coords = trim_each(split_char_exec(trim_exec(slice(content, p + 1, c)), ','));
        if coords.len() != 2 {
            return Err(owned("Invalid coordinate format. Expected: (x,y)"));
        }
        proof {
            assert(views(coords@)[0] == coords@[0]@);
            assert(views(coords@)[1] == coords@[1]@);
        }
        let x = match self.parse_coordinate_expression(coords[0]) {
            Ok(e) => e,
            Err(m) => return Err(m),
        };
        let y = match self.parse_coordinate_expression(coords[1]) {
            Ok(e) => e,
            Err(m) => return Err(m),
        };
        if str_eq(object_type, "ball") {
            self.parse_create_ball(tail(content, c + 1), x, y)
        } else if str_eq(object_type, "square") {
            self.parse_create_square(trim_exec(tail(content, c + 1)), x, y)
        } else {
            Err(joined("Unknown object type: ", object_type))
        }
    }

    fn parse_create_from_sample(&self, content: &str) -> (r: Outcome<Instruction>)
        ensures
            outcome_instr(r) == spec_create_from_sample(content@),
    {
        proof { reveal_strlit(" from sample "); }
        let parts = split_exec(content, " from sample ");
        if parts.len() != 2 {
            return Outcome::Failed(owned(
                "Invalid sample creation format. Expected: create [ball|square] from sample library.sample_name(x,y)",
            ));
        }
        proof {
            assert(views(parts@)[0] == parts@[0]@);
            assert(views(parts@)[1] == parts@[1]@);
        }
        let object_type = trim_exec(parts[0]);
        let sc = trim_exec(parts[1]);
        match (find_char_exec(sc, '('), find_char_exec(sc, ')')) {
            (Some(p), Some(c)) => {
                if c < p {
                    return Outcome::Panic;
                }
                let sample = split_char_exec(trim_exec(slice(sc, 0, p)), '.');
                proof { assert(sc@.subrange(0, p as int) =~= sc@.take(p as int)); }
                let coords = trim_each(split_char_exec(trim_exec(slice(sc, p + 1, c)), ','));
                if sample.len() != 2 {
                    return Outcome::Failed(owned("Invalid sample reference format. Expected: library.sample_name"));
                }
                proof {
                    assert(views(sample@)[0] == sample@[0]@);
                    assert(views(sample@)[1] == sample@[1]@);
                }
                if coords.len() == 2 {
                    proof {
                        assert(views(coords@)[0] == coords@[0]@);
                        assert(views(coords@)[1] == coords@[1]@);
                    }
                    match (parse_i32(coords[0]), parse_i32(coords[1])) {
                        (Some(xv), Some(yv)) => {
                            let xs = int_to_text(xv as i64);
                            let ys = int_to_text(yv as i64);
                            let library_name = owned(trim_exec(sample[0]));
                            let sample_name = owned(trim_exec(sample[1]));
                            if str_eq(object_type, "ball") {
                                return Outcome::Done(
                                    Instruction::CreateBallFromSample {
                                        x: number_expr(xs.as_str()),
                                        y: number_expr(ys.as_str()),
                                        library_name,
                                        sample_name,
                                    },
                                );
                            } else if str_eq(object_type, "square") {
                                return Outcome::Done(
                                    Instruction::CreateSquareFromSample {
                                        x: number_expr(xs.as_str()),
                                        y: number_expr(ys.as_str()),
                                        library_name,
                                        sample_name,
                                    },
                                );
                            } else {
                                return Outcome::Failed(joined("Unknown object type for sample creation: ", object_type));
                            }
                        },
                        _ => {},
                    }
                }
                Outcome::Failed(owned(
                    "Invalid sample creation format. Expected: create [ball|square] from sample library.sample_name(x,y)",
                ))
            },
            _ => Outcome::Failed(owned(
                "Invalid sample creation format. Expected: create [ball|square] from sample library.sample_name(x,y)",
            )),
        }
    }

    fn parse_create_statement(&self, line: &str) -> (r: Outcome<Instruction>)
        requires
            starts_with(line@, "create "@),
        ensures
            outcome_instr(r) == spec_create_statement(line@),
    {
        proof { reveal_strlit("create "); reveal_strlit(" from sample "); }
        let content = trim_exec(tail(line, 7));
        if contains_exec(content, " from sample ") {
            return self.parse_create_from_sample(content);
        }
        match (find_char_exec(content, '('), find_char_exec(content, ')')) {
            (Some(p), Some(c)) => if c < p {
                Outcome::Panic
            } else {
                instr_outcome(self.parse_create_object(content, p, c))
            },
            _ => Outcome::Failed(owned(
                "Invalid create statement format. Expected: create ball(x,y)(speed,direction) or create square(x,y)",
            )),
        }
    }

    fn parse_destroy_statement(&self, line: &str) -> (r: Outcome<Instruction>)
        requires
            starts_with(line@, "destroy "@),
        ensures
            outcome_instr(r) == spec_destroy_statement(line@),
    {
        proof { reveal_strlit("destroy "); reveal_strlit("self"); reveal_strlit("last."); }
        let content = trim_exec(tail(line, 8));
        match (find_char_exec(content, '('), find_char_exec(content, ')')) {
            (Some(p), Some(c)) => {
                if c < p {
                    return Outcome::Panic;
                }
                let object_type = trim_exec(slice(content, 0, p));
                proof { assert(content@.subrange(0, p as int) =~= content@.take(p as int)); }
                let target_str = trim_exec(slice(content, p + 1, c));
                let target = if str_eq(target_str, "self") || (contains_exec(target_str, "last.")
                    && !contains_char_exec(target_str, ',')) {
                    DestroyTarget::BallReference(owned(target_str))
                } else {
                    let coords = trim_each(split_char_exec(target_str, ','));
                    if coords.len() == 2 {
                        proof {
                            assert(views(coords@)[0] == coords@[0]@);
                            assert(views(coords@)[1] == coords@[1]@);
                        }
                        if is_float_text_exec(coords[0]) && is_float_text_exec(coords[1]) {
                            DestroyTarget::Coordinates { x: number_expr(coords[0]), y: number_expr(coords[1]) }
                        } else {
                            return Outcome::Failed(owned(
                                "Invalid destroy statement format. Expected: destroy ball(x,y), destroy ball(self), or destroy square(x,y)",
                            ));
                        }
                    } else {
                        return Outcome::Failed(owned(
                            "Invalid destroy statement format. Expected: destroy ball(x,y), destroy ball(self), or destroy square(x,y)",
                        ));
                    }
                };
                if str_eq(object_type, "ball") {
                    Outcome::Done(Instruction::DestroyBall { target })
                } else if str_eq(object_type, "square") {
                    Outcome::Done(Instruction::DestroySquare { target })
                } else {
                    Outcome::Failed(joined("Unknown object type: ", object_type))
                }
            },
            _ => Outcome::Failed(owned(
                "Invalid destroy statement format. Expected: destroy ball(x,y), destroy ball(self), or destroy square(x,y)",
            )),
        }
    }
}

// ---------------------------------------------------------------------------
// Lines, blocks and programs

/// One program line, trimmed, dispatched on its first word.
pub open spec fn spec_line(line0: Seq<char>) -> Parsed<SInstr> {
    let line = trim(line0);
    if starts_with(line, "$var "@) {
        spec_var_statement(line, true)
    } else if starts_with(line, "var "@) {
        spec_var_statement(line, false)
    } else if starts_with(line, "set "@) {
        spec_set_statement(line)
    } else if starts_with(line, "print "@) {
        spec_print_statement(line)
    } else if starts_with(line, "create "@) {
        spec_create_statement(line)
    } else if starts_with(line, "destroy "@) {
        spec_destroy_statement(line)
    } else if starts_with(line, "slice "@) {
        spec_slice_statement(line)
    } else if starts_with(line, "lib."@) {
        Parsed::Done(SInstr::ExecuteLibraryFunction { library_function: line })
    } else {
        Parsed::Failed("Unknown instruction: "@ + line)
    }
}

/// Line `i` creates a ball or a square and the next line starts with `with lib.`.
pub open spec fn has_library_line(lines: Seq<Seq<char>>, i: int) -> bool {
    &&& 0 <= i
    &&& i + 1 < lines.len()
    &&& starts_with(lines[i], "create ball("@) || starts_with(lines[i], "create square("@)
    &&& starts_with(trim(lines[i + 1]), "with lib."@)
}

/// Line `i` and the trimmed line after it, joined by a space.
pub open spec fn joined_line(lines: Seq<Seq<char>>, i: int) -> Seq<char> {
    lines[i] + " "@ + trim(lines[i + 1])
}

/// The lines that end an `if` block without being part of it.
pub open spec fn ends_if_block(l: Seq<char>) -> bool {
    starts_with(l, "if "@) || starts_with(l, "def "@) || l == "end"@ || l == "return"@ || starts_with(l, "return "@)
}

/// `acc` repeated `n` times: one `and n` or `then n` instruction holding it.
pub open spec fn repeated(acc: Seq<SInstr>, n: Seq<char>, and: bool) -> Seq<SInstr> {
    if acc.len() == 0 {
        acc
    } else if and {
        seq![SInstr::RepeatAnd { count: number(n), body: acc }]
    } else {
        seq![SInstr::RepeatThen { count: number(n), body: acc }]
    }
}

/// The body of an `if` from line `i` on, `acc` holding what was read before;
/// the instructions read and the line after the block.
pub open spec fn spec_if_block(lines: Seq<Seq<char>>, i: int, acc: Seq<SInstr>) -> Parsed<(Seq<SInstr>, int)>
    decreases lines.len() - i,
{
    if i < 0 || i >= lines.len() {
        Parsed::Done((acc, i))
    } else {
        let l = lines[i];
        if l == "then"@ {
            Parsed::Done((acc.push(SInstr::ContinueToNext), i + 1))
        } else if starts_with(l, "then "@) {
            let n = trim(l.skip(5));
            if is_float_text(n) {
                Parsed::Done((repeated(acc, n, false), i + 1))
            } else {
                Parsed::Failed("Invalid number in 'then "@ + n + "'"@)
            }
        } else if l == "and"@ {
            spec_if_block(lines, i + 1, acc)
        } else if starts_with(l, "and "@) {
            let n = trim(l.skip(4));
            if is_float_text(n) {
                spec_if_block(lines, i + 1, repeated(acc, n, true))
            } else {
                Parsed::Failed("Invalid number in 'and "@ + n + "'"@)
            }
        } else if ends_if_block(l) {
            Parsed::Done((acc, i))
        } else if has_library_line(lines, i) && !(spec_line(joined_line(lines, i)) is Failed) {
            match spec_line(joined_line(lines, i)) {
                Parsed::Done(ins) => spec_if_block(lines, i + 2, acc.push(ins)),
                _ => Parsed::Panic,
            }
        } else {
            match spec_line(l) {
                Parsed::Done(ins) => spec_if_block(lines, i + 1, acc.push(ins)),
                Parsed::Failed(_) => Parsed::Failed("Failed to parse instruction in if block: "@ + l),
                Parsed::Panic => Parsed::Panic,
            }
        }
    }
}

/// An `if` line at `start` and its block.
pub open spec fn spec_if_with_then(lines: Seq<Seq<char>>, start: int) -> Parsed<(SInstr, int)> {
    match spec_if_condition(lines[start]) {
        Parsed::Done(c) => match spec_if_block(lines, start + 1, seq![]) {
            Parsed::Done((b, next)) => Parsed::Done((SInstr::If { condition: c, then_block: b, else_block: None }, next)),
            Parsed::Failed(m) => Parsed::Failed(m),
            Parsed::Panic => Parsed::Panic,
        },
        Parsed::Failed(m) => Parsed::Failed(m),
        Parsed::Panic => Parsed::Panic,
    }
}

pub open spec fn invalid_square_program() -> Parsed<(SInstr, int)> {
    Parsed::Failed(
        "Invalid create square with program syntax. Expected: create square(x,y) with def function_name"@,
    )
}

/// The instructions of a block from line `i` on, `acc` holding what was read
/// before: up to and with a `return` or `end` line, or to the end of the
/// lines. Read with it are `if` blocks, squares created with a program of
/// their own, and `create` lines followed by a `with lib.` line. A `def`
/// line ends the block without being read: the definition it starts is the
/// next one of the text. Gives the instructions and the line after the block.
/// (The guards on the line numbers always hold; they make the recursion
/// visibly finite.)
pub open spec fn spec_block_from(lines: Seq<Seq<char>>, i: int, acc: Seq<SInstr>) -> Parsed<(Seq<SInstr>, int)>
    decreases lines.len() - i, 1int,
{
    if i < 0 || i >= lines.len() {
        Parsed::Done((acc, i))
    } else {
        let l = lines[i];
        if l == "return"@ {
            Parsed::Done((acc.push(SInstr::Return(None)), i + 1))
        } else if starts_with(l, "return "@) {
            Parsed::Done((acc.push(SInstr::Return(Some(trim(l.skip(7))))), i + 1))
        } else if l == "end"@ {
            Parsed::Done((acc.push(SInstr::End), i + 1))
        } else if starts_with(l, "if "@) {
            match spec_if_with_then(lines, i) {
                Parsed::Done((ins, next)) => if i < next <= lines.len() {
                    spec_block_from(lines, next, acc.push(ins))
                } else {
                    Parsed::Panic
                },
                Parsed::Failed(m) => Parsed::Failed(m),
                Parsed::Panic => Parsed::Panic,
            }
        } else if starts_with(l, "def "@) {
            Parsed::Done((acc, i))
        } else if starts_with(l, "create square("@) && contains(l, "with"@) {
            match spec_square_with_program(lines, i) {
                Parsed::Done((ins, next)) => if i < next <= lines.len() {
                    spec_block_from(lines, next, acc.push(ins))
                } else {
                    Parsed::Panic
                },
                Parsed::Failed(m) => Parsed::Failed(m),
                Parsed::Panic => Parsed::Panic,
            }
        } else if has_library_line(lines, i) && !(spec_line(joined_line(lines, i)) is Failed) {
            match spec_line(joined_line(lines, i)) {
                Parsed::Done(ins) => spec_block_from(lines, i + 2, acc.push(ins)),
                _ => Parsed::Panic,
            }
        } else {
            match spec_line(l) {
                Parsed::Done(ins) => spec_block_from(lines, i + 1, acc.push(ins)),
                Parsed::Failed(_) => Parsed::Failed("Failed to parse line: "@ + l),
                Parsed::Panic => Parsed::Panic,
            }
        }
    }
}

/// `create square(x, y) with def name` at line `i`, and the block that
/// follows as the new square's program.
pub open spec fn spec_square_with_program(lines: Seq<Seq<char>>, i: int) -> Parsed<(SInstr, int)>
    decreases lines.len() - i, 0int,
{
    if i < 0 || i >= lines.len() {
        Parsed::Panic
    } else {
        let first = lines[i];
        match find(first, "with"@) {
            Some(w) => {
                let create_part = trim(first.take(w));
                let def_part = trim(first.skip(w + 4));
                if create_part.len() < 7 {
                    Parsed::Panic
                } else {
                    let content = trim(create_part.skip(7));
                    match (find_char(content, '('), find_char(content, ')')) {
                        (Some(p), Some(c)) => if c < p {
                            Parsed::Panic
                        } else {
                            let object_type = trim(content.take(p));
                            let coords = trim_all(split_char(trim(content.subrange(p + 1, c)), ','));
                            if object_type == "square"@ && coords.len() == 2 {
                                match spec_coord_expr(coords[0]) {
                                    Parsed::Done(x) => match spec_coord_expr(coords[1]) {
                                        Parsed::Done(y) => if !starts_with(def_part, "def "@) {
                                            Parsed::Failed("Expected 'def function_name' after 'with'"@)
                                        } else {
                                            match spec_block_from(lines, i + 1, seq![]) {
                                                Parsed::Done((b, end)) => Parsed::Done(
                                                    (
                                                        SInstr::CreateSquareWithProgram {
                                                            x,
                                                            y,
                                                            program: SProgram {
                                                                instructions: b,
                                                                name: trim(def_part.skip(4)),
                                                                source_text: None,
                                                            },
                                                        },
                                                        end,
                                                    ),
                                                ),
                                                Parsed::Failed(m) => Parsed::Failed(m),
                                                Parsed::Panic => Parsed::Panic,
                                            }
                                        },
                                        Parsed::Failed(m) => Parsed::Failed(m),
                                        Parsed::Panic => Parsed::Panic,
                                    },
                                    Parsed::Failed(m) => Parsed::Failed(m),
                                    Parsed::Panic => Parsed::Panic,
                                }
                            } else {
                                invalid_square_program()
                            }
                        },
                        _ => invalid_square_program(),
                    }
                }
            },
            None => invalid_square_program(),
        }
    }
}

/// The block of a `def` line at `start`, read from the next line on.
pub open spec fn spec_block(lines: Seq<Seq<char>>, start: int) -> Parsed<(Seq<SInstr>, int)> {
    spec_block_from(lines, start, seq![])
}

/// A `def name` line at `i` and its block, as a program.
pub open spec fn spec_function(lines: Seq<Seq<char>>, i: int) -> Parsed<(SProgram, int)> {
    match spec_block(lines, i + 1) {
        Parsed::Done((b, next)) => Parsed::Done(
            (SProgram { instructions: b, name: trim(lines[i].skip(4)), source_text: None }, next),
        ),
        Parsed::Failed(m) => Parsed::Failed(m),
        Parsed::Panic => Parsed::Panic,
    }
}

/// The non-empty lines of `pieces`, each trimmed.
pub open spec fn nonblank_lines(pieces: Seq<Seq<char>>) -> Seq<Seq<char>>
    decreases pieces.len(),
{
    if pieces.len() == 0 {
        seq![]
    } else {
        let rest = nonblank_lines(pieces.drop_last());
        let t = trim(pieces.last());
        if t.len() == 0 {
            rest
        } else {
            rest.push(t)
        }
    }
}

/// The lines of a program text as the parser reads them: trimmed, blank
/// ones left out. (Splitting at `\n` and trimming gives what `str::lines`
/// and trimming give, as a `\r` before a `\n` is whitespace, and a last
/// empty line is blank.)
pub open spec fn program_lines(source: Seq<char>) -> Seq<Seq<char>> {
    nonblank_lines(split_char(source, '\n'))
}

/// The functions defined from line `i` on, `acc` holding those read before.
pub open spec fn spec_programs_from(lines: Seq<Seq<char>>, i: int, acc: Seq<SProgram>) -> Parsed<Seq<SProgram>>
    decreases lines.len() - i,
{
    if i < 0 || i >= lines.len() {
        if acc.len() == 0 {
            Parsed::Failed("No function definitions found"@)
        } else {
            Parsed::Done(acc)
        }
    } else if starts_with(lines[i], "def "@) {
        match spec_function(lines, i) {
            Parsed::Done((f, next)) => if i < next <= lines.len() {
                spec_programs_from(lines, next, acc.push(f))
            } else {
                Parsed::Panic
            },
            Parsed::Failed(m) => Parsed::Failed(m),
            Parsed::Panic => Parsed::Panic,
        }
    } else {
        Parsed::Failed("Expected 'def function_name', found: "@ + lines[i])
    }
}

/// Every `def name` of a program text with its block, in order.
#[verifier::opaque]
pub open spec fn spec_programs(source: Seq<char>) -> Parsed<Seq<SProgram>> {
    let lines = program_lines(source);
    if lines.len() == 0 {
        Parsed::Failed("Empty program"@)
    } else {
        spec_programs_from(lines, 0, seq![])
    }
}

/// The first function of a program text.
pub open spec fn spec_program(source: Seq<char>) -> Parsed<SProgram> {
    match spec_programs(source) {
        Parsed::Done(ps) => if ps.len() == 0 {
            Parsed::Failed("No programs found"@)
        } else {
            Parsed::Done(ps[0])
        },
        Parsed::Failed(m) => Parsed::Failed(m),
        Parsed::Panic => Parsed::Panic,
    }
}

pub open spec fn outcome_at(r: Outcome<(Instruction, usize)>) -> Parsed<(SInstr, int)> {
    match r {
        Outcome::Done((i, n)) => Parsed::Done((i@, n as int)),
        Outcome::Failed(m) => Parsed::Failed(m@),
        Outcome::Panic => Parsed::Panic,
    }
}

pub open spec fn outcome_block(r: Outcome<(Vec<Instruction>, usize)>) -> Parsed<(Seq<SInstr>, int)> {
    match r {
        Outcome::Done((v, n)) => Parsed::Done((instrs_view(v@), n as int)),
        Outcome::Failed(m) => Parsed::Failed(m@),
        Outcome::Panic => Parsed::Panic,
    }
}

pub open spec fn outcome_function(r: Outcome<(Program, usize)>) -> Parsed<(SProgram, int)> {
    match r {
        Outcome::Done((p, n)) => Parsed::Done((p@, n as int)),
        Outcome::Failed(m) => Parsed::Failed(m@),
        Outcome::Panic => Parsed::Panic,
    }
}

pub open spec fn outcome_programs(r: Outcome<Vec<Program>>) -> Parsed<Seq<SProgram>> {
    match r {
        Outcome::Done(v) => Parsed::Done(programs_view(v@)),
        Outcome::Failed(m) => Parsed::Failed(m@),
        Outcome::Panic => Parsed::Panic,
    }
}

pub open spec fn result_programs(r: Result<Vec<Program>, String>) -> Parsed<Seq<SProgram>> {
    match r {
        Ok(v) => Parsed::Done(programs_view(v@)),
        Err(m) => Parsed::Failed(m@),
    }
}

pub open spec fn result_program(r: Result<Program, String>) -> Parsed<SProgram> {
    match r {
        Ok(p) => Parsed::Done(p@),
        Err(m) => Parsed::Failed(m@),
    }
}

/// A `def` line at `start` and its block (see `spec_function`).
pub open spec fn spec_nested_function(lines: Seq<Seq<char>>, start: int) -> Parsed<(SProgram, int)> {
    if !starts_with(lines[start], "def "@) {
        Parsed::Failed("Expected function definition"@)
    } else {
        spec_function(lines, start)
    }
}

fn ends_if_block_exec(l: &str) -> (r: bool)
    ensures
        r == ends_if_block(l@),
{
    starts_with_exec(l, "if ") || starts_with_exec(l, "def ") || str_eq(l, "end") || str_eq(l, "return")
        || starts_with_exec(l, "return ")
}

/// The lines of a program text, trimmed, blank ones left out.
pub fn program_lines_exec(source: &str) -> (r: Vec<&str>)
    ensures
        views(r@) == program_lines(source@),
{
    let pieces = split_char_exec(source, '\n');
    let ghost ps = views(pieces@);
    let mut r: Vec<&str> = Vec::new();
    let mut k: usize = 0;
    while k < pieces.len()
        invariant
            ps == views(pieces@),
            ps == split_char(source@, '\n'),
            k <= pieces.len(),
            views(r@) == nonblank_lines(ps.take(k as int)),
        decreases pieces.len() - k,
    {
        let t = trim_exec(pieces[k]);
        proof {
            assert(ps.take(k + 1).drop_last() =~= ps.take(k as int));
            assert(ps.take(k + 1).last() == pieces@[k as int]@);
        }
        if t.unicode_len() > 0 {
            let ghost before = r@;
            r.push(t);
            assert(views(r@) =~= views(before).push(t@));
        }
        k = k + 1;
    }
    assert(ps.take(k as int) =~= ps);
    r
}

impl SimpleProgramParser {
    fn parse_line(&self, line: &str) -> (r: Outcome<Instruction>)
        ensures
            outcome_instr(r) == spec_line(line@),
    {
        let l = trim_exec(line);
        if starts_with_exec(l, "$var ") {
            return instr_outcome(self.parse_global_var_statement(l));
        }
        if starts_with_exec(l, "var ") {
            return instr_outcome(self.parse_var_statement(l));
        }
        if starts_with_exec(l, "set ") {
            return self.parse_set_statement(l);
        }
        if starts_with_exec(l, "print ") {
            return self.parse_print_statement(l);
        }
        if starts_with_exec(l, "create ") {
            return self.parse_create_statement(l);
        }
        if starts_with_exec(l, "destroy ") {
            return self.parse_destroy_statement(l);
        }
        if starts_with_exec(l, "slice ") {
            return instr_outcome(self.parse_slice_statement(l));
        }
        if starts_with_exec(l, "lib.") {
            return Outcome::Done(Instruction::ExecuteLibraryFunction { library_function: owned(l) });
        }
        Outcome::Failed(joined("Unknown instruction: ", l))
    }

    /// Line `i` joined with a `with lib.` line after it, when line `i`
    /// creates a ball or a square and such a line follows.
    fn library_line(&self, lines: &[&str], i: usize) -> (r: Option<Outcome<Instruction>>)
        requires
            i < lines@.len(),
        ensures
            r is Some == has_library_line(views(lines@), i as int),
            r matches Some(o) ==> outcome_instr(o) == spec_line(joined_line(views(lines@), i as int)),
    {
        let ghost ls = views(lines@);
        let line = lines[i];
        assert(ls[i as int] == line@);
        if (starts_with_exec(line, "create ball(") || starts_with_exec(line, "create square(")) && i + 1
            < lines.len() {
            let next = trim_exec(lines[i + 1]);
            assert(ls[i + 1] == lines@[i + 1]@);
            if starts_with_exec(next, "with lib.") {
                let combined = joined3(line, " ", next);
                return Some(self.parse_line(combined.as_str()));
            }
        }
        None
    }

    fn parse_if_with_then(&self, lines: &[&str], start_index: usize) -> (r: Outcome<(Instruction, usize)>)
        requires
            start_index < lines@.len(),
            starts_with(lines@[start_index as int]@, "if "@),
        ensures
            outcome_at(r) == spec_if_with_then(views(lines@), start_index as int),
            r matches Outcome::Done((_, next)) ==> start_index < next <= lines@.len(),
    {
        let ghost ls = views(lines@);
        assert(ls[start_index as int] == lines@[start_index as int]@);
        let condition = match self.parse_if_condition(lines[start_index]) {
            Outcome::Done(c) => c,
            Outcome::Failed(m) => return Outcome::Failed(m),
            Outcome::Panic => return Outcome::Panic,
        };
        let mut then_block: Vec<Instruction> = Vec::new();
        let mut i: usize = start_index + 1;
        proof { lemma_instrs_view_empty(); }
        while i < lines.len()
            invariant
                ls == views(lines@),
                start_index < i <= lines@.len(),
                spec_if_condition(ls[start_index as int]) == Parsed::Done(condition@),
                spec_if_block(ls, start_index + 1, seq![]) == spec_if_block(ls, i as int, instrs_view(then_block@)),
            decreases lines.len() - i,
        {
            proof { reveal_strlit("then "); reveal_strlit("and "); }
            let current_line = lines[i];
            let ghost before = then_block@;
            assert(ls[i as int] == current_line@);
            if str_eq(current_line, "then") {
                then_block.push(Instruction::ContinueToNext);
                proof { lemma_instrs_view_push(before, Instruction::ContinueToNext); }
                return Outcome::Done((Instruction::If { condition, then_block, else_block: None }, i + 1));
            } else if starts_with_exec(current_line, "then ") {
                let count_str = trim_exec(tail(current_line, 5));
                if !is_float_text_exec(count_str) {
                    return Outcome::Failed(joined3("Invalid number in 'then ", count_str, "'"));
                }
                if then_block.len() > 0 {
                    let mut body: Vec<Instruction> = Vec::new();
                    std::mem::swap(&mut body, &mut then_block);
                    then_block.push(Instruction::RepeatThen { count: number_expr(count_str), body });
                    assert(instrs_view(then_block@) =~= repeated(instrs_view(before), count_str@, false));
                }
                return Outcome::Done((Instruction::If { condition, then_block, else_block: None }, i + 1));
            } else if str_eq(current_line, "and") {
                i = i + 1;
            } else if starts_with_exec(current_line, "and ") {
                let count_str = trim_exec(tail(current_line, 4));
                if !is_float_text_exec(count_str) {
                    return Outcome::Failed(joined3("Invalid number in 'and ", count_str, "'"));
                }
                if then_block.len() > 0 {
                    let mut body: Vec<Instruction> = Vec::new();
                    std::mem::swap(&mut body, &mut then_block);
                    then_block.push(Instruction::RepeatAnd { count: number_expr(count_str), body });
                    assert(instrs_view(then_block@) =~= repeated(instrs_view(before), count_str@, true));
                }
                i = i + 1;
            } else if ends_if_block_exec(current_line) {
                return Outcome::Done((Instruction::If { condition, then_block, else_block: None }, i));
            } else {
                match self.library_line(lines, i) {
                    Some(Outcome::Done(ins)) => {
                        let ghost iv = ins@;
                        then_block.push(ins);
                        proof { lemma_instrs_view_push(before, then_block@.last()); }
                        i = i + 2;
                    },
                    Some(Outcome::Panic) => {
                        return Outcome::Panic;
                    },
                    _ => match self.parse_line(current_line) {
                        Outcome::Done(ins) => {
                            then_block.push(ins);
                            proof { lemma_instrs_view_push(before, then_block@.last()); }
                            i = i + 1;
                        },
                        Outcome::Failed(_) => {
                            return Outcome::Failed(joined("Failed to parse instruction in if block: ", current_line));
                        },
                        Outcome::Panic => {
                            return Outcome::Panic;
                        },
                    },
                }
            }
        }
        Outcome::Done((Instruction::If { condition, then_block, else_block: None }, i))
    }

    fn parse_block(&self, lines: &[&str], start_index: usize) -> (r: Outcome<(Vec<Instruction>, usize)>)
        requires
            start_index <= lines@.len(),
        ensures
            outcome_block(r) == spec_block(views(lines@), start_index as int),
            r matches Outcome::Done((_, next)) ==> start_index <= next <= lines@.len(),
        decreases lines@.len() - start_index, 1int,
    {
        let ghost ls = views(lines@);
        let mut instructions: Vec<Instruction> = Vec::new();
        let mut i = start_index;
        proof { lemma_instrs_view_empty(); }
        while i < lines.len()
            invariant
                ls == views(lines@),
                start_index <= i <= lines@.len(),
                spec_block(ls, start_index as int) == spec_block_from(ls, i as int, instrs_view(instructions@)),
            decreases lines.len() - i,
        {
            proof { reveal_strlit("return "); }
            let line = lines[i];
            let ghost before = instructions@;
            assert(ls[i as int] == line@);
            if str_eq(line, "return") {
                instructions.push(Instruction::Return(None));
                proof { lemma_instrs_view_push(before, instructions@.last()); }
                return Outcome::Done((instructions, i + 1));
            } else if starts_with_exec(line, "return ") {
                let function_name = owned(trim_exec(tail(line, 7)));
                instructions.push(Instruction::Return(Some(function_name)));
                proof { lemma_instrs_view_push(before, instructions@.last()); }
                return Outcome::Done((instructions, i + 1));
            } else if str_eq(line, "end") {
                instructions.push(Instruction::End);
                proof { lemma_instrs_view_push(before, instructions@.last()); }
                return Outcome::Done((instructions, i + 1));
            } else if starts_with_exec(line, "if ") {
                match self.parse_if_with_then(lines, i) {
                    Outcome::Done((ins, next)) => {
                        instructions.push(ins);
                        proof { lemma_instrs_view_push(before, instructions@.last()); }
                        i = next;
                    },
                    Outcome::Failed(m) => {
                        return Outcome::Failed(m);
                    },
                    Outcome::Panic => {
                        return Outcome::Panic;
                    },
                }
            } else if starts_with_exec(line, "def ") {
                return Outcome::Done((instructions, i));
            } else if starts_with_exec(line, "create square(") && contains_exec(line, "with") {
                match self.parse_create_square_with_program(lines, i) {
                    Outcome::Done((ins, next)) => {
                        instructions.push(ins);
                        proof { lemma_instrs_view_push(before, instructions@.last()); }
                        i = next;
                    },
                    Outcome::Failed(m) => {
                        return Outcome::Failed(m);
                    },
                    Outcome::Panic => {
                        return Outcome::Panic;
                    },
                }
            } else {
                match self.library_line(lines, i) {
                    Some(Outcome::Done(ins)) => {
                        instructions.push(ins);
                        proof { lemma_instrs_view_push(before, instructions@.last()); }
                        i = i + 2;
                    },
                    Some(Outcome::Panic) => {
                        return Outcome::Panic;
                    },
                    _ => match self.parse_line(line) {
                        Outcome::Done(ins) => {
                            instructions.push(ins);
                            proof { lemma_instrs_view_push(before, instructions@.last()); }
                            i = i + 1;
                        },
                        Outcome::Failed(_) => {
                            return Outcome::Failed(joined("Failed to parse line: ", line));
                        },
                        Outcome::Panic => {
                            return Outcome::Panic;
                        },
                    },
                }
            }
        }
        Outcome::Done((instructions, i))
    }

    fn parse_create_square_with_program(&self, lines: &[&str], start_index: usize) -> (r: Outcome<(Instruction, usize)>)
        requires
            start_index < lines@.len(),
        ensures
            outcome_at(r) == spec_square_with_program(views(lines@), start_index as int),
            r matches Outcome::Done((_, next)) ==> start_index < next <= lines@.len(),
        decreases lines@.len() - start_index, 0int,
    {
        proof { reveal_strlit("with"); reveal_strlit("def "); }
        let ghost ls = views(lines@);
        let first_line = lines[start_index];
        assert(ls[start_index as int] == first_line@);
        match find_exec(first_line, "with") {
            Some(w) => {
                let create_part = trim_exec(slice(first_line, 0, w));
                proof { assert(first_line@.subrange(0, w as int) =~= first_line@.take(w as int)); }
                let def_part = trim_exec(tail(first_line, w + 4));
                if create_part.unicode_len() < 7 {
                    return Outcome::Panic;
                }
                let content = trim_exec(tail(create_part, 7));
                match (find_char_exec(content, '('), find_char_exec(content, ')')) {
                    (Some(p), Some(c)) => {
                        if c < p {
                            return Outcome::Panic;
                        }
                        let object_type = trim_exec(slice(content, 0, p));
                        proof { assert(content@.subrange(0, p as int) =~= content@.take(p as int)); }
                        let coords = trim_each(split_char_exec(trim_exec(slice(content, p + 1, c)), ','));
                        if str_eq(object_type, "square") && coords.len() == 2 {
                            proof {
                                assert(views(coords@)[0] == coords@[0]@);
                                assert(views(coords@)[1] == coords@[1]@);
                            }
                            let x = match self.parse_coordinate_expression(coords[0]) {
                                Ok(e) => e,
                                Err(m) => return Outcome::Failed(m),
                            };
                            let y = match self.parse_coordinate_expression(coords[1]) {
                                Ok(e) => e,
                                Err(m) => return Outcome::Failed(m),
                            };
                            if !starts_with_exec(def_part, "def ") {
                                return Outcome::Failed(owned("Expected 'def function_name' after 'with'"));
                            }
                            let function_name = owned(trim_exec(tail(def_part, 4)));
                            return match self.parse_block(lines, start_index + 1) {
                                Outcome::Done((instructions, end_index)) => Outcome::Done(
                                    (
                                        Instruction::CreateSquareWithProgram {
                                            x,
                                            y,
                                            program: Program { instructions, name: function_name, source_text: None },
                                        },
                                        end_index,
                                    ),
                                ),
                                Outcome::Failed(m) => Outcome::Failed(m),
                                Outcome::Panic => Outcome::Panic,
                            };
                        }
                        Outcome::Failed(owned(
                            "Invalid create square with program syntax. Expected: create square(x,y) with def function_name",
                        ))
                    },
                    _ => Outcome::Failed(owned(
                        "Invalid create square with program syntax. Expected: create square(x,y) with def function_name",
                    )),
                }
            },
            None => Outcome::Failed(owned(
                "Invalid create square with program syntax. Expected: create square(x,y) with def function_name",
            )),
        }
    }

    /// A `def` line at `start_index` and its block, as a program.
    fn parse_nested_function(&self, lines: &[&str], start_index: usize) -> (r: Outcome<(Program, usize)>)
        requires
            start_index < lines@.len(),
        ensures
            outcome_function(r) == spec_nested_function(views(lines@), start_index as int),
            r matches Outcome::Done((_, next)) ==> start_index < next <= lines@.len(),
    {
        proof { reveal_strlit("def "); }
        let ghost ls = views(lines@);
        let line = lines[start_index];
        assert(ls[start_index as int] == line@);
        if !starts_with_exec(line, "def ") {
            return Outcome::Failed(owned("Expected function definition"));
        }
        let function_name = owned(trim_exec(tail(line, 4)));
        match self.parse_block(lines, start_index + 1) {
            Outcome::Done((instructions, next_i)) => Outcome::Done(
                (Program { instructions, name: function_name, source_text: None }, next_i),
            ),
            Outcome::Failed(m) => Outcome::Failed(m),
            Outcome::Panic => Outcome::Panic,
        }
    }

    /// Every function a program text defines, in order; `Outcome::Panic`
    /// where reading the text would slice a line at a bad position.
    pub fn read_programs(&self, source: &str) -> (r: Outcome<Vec<Program>>)
        ensures
            outcome_programs(r) == spec_programs(source@),
    {
        let lines = program_lines_exec(source);
        if lines.len() == 0 {
            proof { reveal(spec_programs); }
            return Outcome::Failed(owned("Empty program"));
        }
        let ghost ls = views(lines@);
        let mut programs: Vec<Program> = Vec::new();
        let mut i: usize = 0;
        assert(programs_view(programs@) =~= Seq::<SProgram>::empty());
        while i < lines.len()
            invariant
                ls == views(lines@),
                ls == program_lines(source@),
                ls.len() > 0,
                i <= lines@.len(),
                spec_programs_from(ls, 0, seq![]) == spec_programs_from(ls, i as int, programs_view(programs@)),
            decreases lines.len() - i,
        {
            let line = lines[i];
            assert(ls[i as int] == line@);
            if !starts_with_exec(line, "def ") {
                proof { reveal(spec_programs); }
                return Outcome::Failed(joined("Expected 'def function_name', found: ", line));
            }
            match self.parse_nested_function(lines.as_slice(), i) {
                Outcome::Done((program, next_i)) => {
                    let ghost before = programs@;
                    programs.push(program);
                    assert(programs_view(programs@) =~= programs_view(before).push(programs@.last()@));
                    i = next_i;
                },
                Outcome::Failed(m) => {
                    proof { reveal(spec_programs); }
                    return Outcome::Failed(m);
                },
                Outcome::Panic => {
                    proof { reveal(spec_programs); }
                    return Outcome::Panic;
                },
            }
        }
        proof { reveal(spec_programs); }
        if programs.len() == 0 {
            return Outcome::Failed(owned("No function definitions found"));
        }
        Outcome::Done(programs)
    }

    /// Every function a program text defines, in order.
    pub fn parse_multiple_programs(&self, source: &str) -> (r: Result<Vec<Program>, String>)
        requires
            !(spec_programs(source@) is Panic),
        ensures
            result_programs(r) == spec_programs(source@),
    {
        match self.read_programs(source) {
            Outcome::Done(programs) => Ok(programs),
            Outcome::Failed(m) => Err(m),
            Outcome::Panic => Err(owned("")),
        }
    }

    /// The first function a program text defines.
    pub fn parse_program(&self, source: &str) -> (r: Result<Program, String>)
        requires
            !(spec_programs(source@) is Panic),
        ensures
            result_program(r) == spec_program(source@),
    {
        let mut programs = match self.parse_multiple_programs(source) {
            Ok(p) => p,
            Err(m) => return Err(m),
        };
        if programs.len() == 0 {
            return Err(owned("No programs found"));
        }
        Ok(programs.remove(0))
    }
}

} // verus!
