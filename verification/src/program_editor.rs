//! The program editor: lines of program text, a cursor on them, and what
//! the editing keys do. Cursor columns are byte offsets into their line, as
//! `String` positions are; a line is modelled by its characters, and a cut
//! inside it by the UTF-8 bytes on either side.
use vstd::prelude::*;
use vstd::utf8::{decode_utf8, encode_utf8, is_char_boundary, length_of_first_scalar};
use crate::programmer::{spec_program, spec_programs, Outcome, Parsed, SimpleProgramParser};
use crate::square::{lemma_instrs_view_empty, programs_view, texts_view, Program, SProgram};
use crate::text::{joined, owned, starts_with, starts_with_exec, tail, trim, trim_exec};
use crate::timing::{key_repeat, key_repeat_fires, key_repeat_last};

verus! {

broadcast use vstd::string::group_string_axioms;

/// `String::insert`: puts `ch` at byte position `idx`, which must be a
/// character boundary (else it panics).
pub assume_specification[ std::string::String::insert ](s: &mut std::string::String, idx: usize, ch: char)
    requires
        is_char_boundary(encode_utf8(old(s)@), idx as int),
    ensures
        encode_utf8(final(s)@) == encode_utf8(old(s)@).take(idx as int) + encode_utf8(seq![ch])
            + encode_utf8(old(s)@).skip(idx as int),
;

/// `String::remove`: takes out the character that starts at byte position
/// `idx`, which must be a character boundary before the end (else it panics).
pub assume_specification[ std::string::String::remove ](s: &mut std::string::String, idx: usize) -> (c: char)
    requires
        idx < encode_utf8(old(s)@).len(),
        is_char_boundary(encode_utf8(old(s)@), idx as int),
    ensures
        encode_utf8(final(s)@) == encode_utf8(old(s)@).take(idx as int) + encode_utf8(old(s)@).skip(
            idx + length_of_first_scalar(encode_utf8(old(s)@).skip(idx as int)),
        ),
;

/// What the editor asks of whoever shows it.
pub enum ProgramEditorAction {
    SaveProgram(Program),
    SaveAndCompile,
    CloseWithoutSaving,
    Continue,
    NoAction,
}

/// The keys that move the cursor or change the text.
#[derive(Clone, Copy, PartialEq, Eq, Debug, Structural)]
pub enum EditKey {
    Up,
    Down,
    Left,
    Right,
    Return,
    Back,
    Delete,
}

/// The keys that type a character: a letter (`0` for A up to `25` for Z), a
/// digit, the space bar, or a punctuation key.
#[derive(Clone, Copy, PartialEq, Eq, Debug, Structural)]
pub enum CharKey {
    Letter(u8),
    Digit(u8),
    Space,
    Minus,
    Equals,
    LBracket,
    RBracket,
    Backslash,
    Semicolon,
    Apostrophe,
    Grave,
    Comma,
    Period,
    Slash,
}

#[derive(Clone, Debug)]
pub struct ProgramEditor {
    pub program_text: Vec<String>,
    /// The line the cursor is on.
    pub cursor_line: usize,
    /// The cursor's byte offset into its line.
    pub cursor_col: usize,
    pub parser: SimpleProgramParser,
    /// When a key was last handled, for key repeat.
    pub last_key_repeat: Option<u64>,
    /// In milliseconds.
    pub key_repeat_delay: u64,
    /// In milliseconds.
    pub key_repeat_rate: u64,
}

/// The text, cursor line and cursor column (a byte offset) of an editor.
pub struct EditorState {
    pub lines: Seq<Seq<char>>,
    pub line: int,
    pub col: int,
}

/// The length of a line in bytes.
pub open spec fn byte_len(l: Seq<char>) -> int {
    encode_utf8(l).len() as int
}

pub open spec fn starting_text() -> Seq<Seq<char>> {
    seq!["def my_program"@, ""@]
}

/// Every line fits in memory, as a `String` does.
pub open spec fn lines_fit(lines: Seq<Seq<char>>) -> bool {
    forall|i: int| 0 <= i < lines.len() ==> byte_len(#[trigger] lines[i]) < isize::MAX
}

/// Whether `key` can be handled in state `s` without the text being
/// indexed out of bounds or cut inside a character (where the editor panics).
pub open spec fn key_allowed(s: EditorState, key: EditKey) -> bool {
    let n = s.lines.len();
    &&& lines_fit(s.lines)
    &&& 0 <= s.line
    &&& 0 <= s.col
    &&& match key {
        EditKey::Up => s.line > 0 ==> s.line - 1 < n,
        EditKey::Down => true,
        EditKey::Left => s.col == 0 && s.line > 0 ==> s.line - 1 < n,
        EditKey::Right => s.line < n,
        EditKey::Return => s.line < n && is_char_boundary(encode_utf8(s.lines[s.line]), s.col),
        EditKey::Back => if s.col > 0 {
            &&& s.line < n
            &&& s.col - 1 < byte_len(s.lines[s.line])
            &&& is_char_boundary(encode_utf8(s.lines[s.line]), s.col - 1)
        } else {
            s.line > 0 ==> s.line < n
        },
        EditKey::Delete => s.line < n && (s.col < byte_len(s.lines[s.line]) ==> is_char_boundary(
            encode_utf8(s.lines[s.line]),
            s.col,
        )),
    }
}

/// The line with the character that starts at byte `at` taken out.
pub open spec fn without_char_at(l: Seq<char>, at: int) -> Seq<char> {
    let b = encode_utf8(l);
    decode_utf8(b.take(at) + b.skip(at + length_of_first_scalar(b.skip(at))))
}

/// The state after `key`.
pub open spec fn after_key(s: EditorState, key: EditKey) -> EditorState {
    let n = s.lines.len();
    match key {
        EditKey::Up => if s.line > 0 {
            let l = s.line - 1;
            EditorState { lines: s.lines, line: l, col: if s.col < byte_len(s.lines[l]) { s.col } else { byte_len(s.lines[l]) } }
        } else {
            s
        },
        EditKey::Down => if s.line < (if n > 0 { n - 1 } else { 0 }) {
            let l = s.line + 1;
            EditorState { lines: s.lines, line: l, col: if s.col < byte_len(s.lines[l]) { s.col } else { byte_len(s.lines[l]) } }
        } else {
            s
        },
        EditKey::Left => if s.col > 0 {
            EditorState { lines: s.lines, line: s.line, col: s.col - 1 }
        } else if s.line > 0 {
            EditorState { lines: s.lines, line: s.line - 1, col: byte_len(s.lines[s.line - 1]) }
        } else {
            s
        },
        EditKey::Right => if s.col < byte_len(s.lines[s.line]) {
            EditorState { lines: s.lines, line: s.line, col: s.col + 1 }
        } else if s.line < n - 1 {
            EditorState { lines: s.lines, line: s.line + 1, col: 0 }
        } else {
            s
        },
        EditKey::Return => {
            let b = encode_utf8(s.lines[s.line]);
            EditorState {
                lines: s.lines.update(s.line, decode_utf8(b.take(s.col))).insert(s.line + 1, decode_utf8(b.skip(s.col))),
                line: s.line + 1,
                col: 0,
            }
        },
        EditKey::Back => if s.col > 0 {
            EditorState {
                lines: s.lines.update(s.line, without_char_at(s.lines[s.line], s.col - 1)),
                line: s.line,
                col: s.col - 1,
            }
        } else if s.line > 0 {
            EditorState {
                lines: s.lines.update(s.line - 1, s.lines[s.line - 1] + s.lines[s.line]).remove(s.line),
                line: s.line - 1,
                col: byte_len(s.lines[s.line - 1]),
            }
        } else {
            s
        },
        EditKey::Delete => if s.col < byte_len(s.lines[s.line]) {
            EditorState { lines: s.lines.update(s.line, without_char_at(s.lines[s.line], s.col)), line: s.line, col: s.col }
        } else if s.line < n - 1 {
            EditorState {
                lines: s.lines.update(s.line, s.lines[s.line] + s.lines[s.line + 1]).remove(s.line + 1),
                line: s.line,
                col: s.col,
            }
        } else {
            s
        },
    }
}

/// The state after typing `ch` at the cursor: the character goes in at the
/// cursor's byte offset and the cursor moves one byte on.
pub open spec fn after_typing(s: EditorState, ch: char) -> EditorState {
    let b = encode_utf8(s.lines[s.line]);
    EditorState {
        lines: s.lines.update(s.line, decode_utf8(b.take(s.col) + encode_utf8(seq![ch]) + b.skip(s.col))),
        line: s.line,
        col: s.col + 1,
    }
}

/// Whether a character can be typed in state `s`: the cursor is on a line,
/// at a character boundary, and the line has room for one more character.
pub open spec fn typing_allowed(s: EditorState) -> bool {
    &&& lines_fit(s.lines)
    &&& 0 <= s.line < s.lines.len()
    &&& 0 <= s.col
    &&& is_char_boundary(encode_utf8(s.lines[s.line]), s.col)
    &&& byte_len(s.lines[s.line]) + 4 < isize::MAX
}

/// Backspace right after typing an ASCII character takes it out again:
/// text and cursor are as they were.
pub proof fn lemma_backspace_undoes_typing(s: EditorState, ch: char)
    requires
        typing_allowed(s),
        (ch as u32) < 128,
    ensures
        key_allowed(after_typing(s, ch), EditKey::Back),
        after_key(after_typing(s, ch), EditKey::Back) == s,
{
    broadcast use vstd::utf8::group_utf8_lib;
    let l = s.lines[s.line];
    let b = encode_utf8(l);
    let c = encode_utf8(seq![ch]);
    assert(vstd::utf8::is_ascii_chars(seq![ch]));
    vstd::utf8::is_ascii_chars_encode_utf8(seq![ch]);
    assert(c.len() == 1 && c[0] == ch as u8);
    vstd::utf8::valid_utf8_split(b, s.col);
    assert(b.take(s.col) =~= b.subrange(0, s.col));
    assert(b.skip(s.col) =~= b.subrange(s.col, b.len() as int));
    let t = b.take(s.col) + c + b.skip(s.col);
    vstd::utf8::encode_utf8_valid_utf8(l);
    vstd::utf8::encode_utf8_valid_utf8(seq![ch]);
    assert(vstd::utf8::valid_utf8(b.take(s.col)));
    assert(vstd::utf8::valid_utf8(b.skip(s.col)));
    vstd::utf8::valid_utf8_concat(b.take(s.col), c);
    vstd::utf8::valid_utf8_concat(b.take(s.col) + c, b.skip(s.col));
    assert(vstd::utf8::valid_utf8(t));
    vstd::utf8::decode_utf8_encode_utf8(t);
    let t2 = s.lines.update(s.line, decode_utf8(t));
    assert(encode_utf8(t2[s.line]) == t);
    assert(t[s.col] == ch as u8);
    vstd::utf8::is_char_boundary_iff_not_is_continuation_byte(t, s.col);
    let byte: u8 = ch as u8;
    assert(byte < 128);
    assert(!vstd::utf8::is_continuation_byte(byte)) by (bit_vector)
        requires
            byte < 128,
    ;
    assert(vstd::utf8::is_leading_byte_width_1(byte)) by (bit_vector)
        requires
            byte < 128,
    ;
    assert(t.skip(s.col)[0] == ch as u8);
    assert(length_of_first_scalar(t.skip(s.col)) == 1);
    assert(t.take(s.col) + t.skip(s.col + 1) =~= b);
    assert(lines_fit(t2)) by {
        assert forall|i: int| 0 <= i < t2.len() implies byte_len(#[trigger] t2[i]) < isize::MAX by {
            if i == s.line {
                assert(byte_len(t2[i]) == t.len());
            }
        }
    }
    assert(after_key(after_typing(s, ch), EditKey::Back).lines =~= s.lines);
}

/// Backspace at the start of the line that Return made joins the two
/// halves again: text and cursor are as they were.
pub proof fn lemma_backspace_undoes_return(s: EditorState)
    requires
        key_allowed(s, EditKey::Return),
    ensures
        key_allowed(after_key(s, EditKey::Return), EditKey::Back),
        after_key(after_key(s, EditKey::Return), EditKey::Back) == s,
{
    broadcast use vstd::utf8::group_utf8_lib;
    let l = s.lines[s.line];
    let b = encode_utf8(l);
    vstd::utf8::valid_utf8_split(b, s.col);
    vstd::utf8::decode_utf8_split(b, s.col);
    assert(b.take(s.col) =~= b.subrange(0, s.col));
    assert(b.skip(s.col) =~= b.subrange(s.col, b.len() as int));
    let left = decode_utf8(b.take(s.col));
    let right = decode_utf8(b.skip(s.col));
    vstd::utf8::decode_utf8_encode_utf8(b.take(s.col));
    vstd::utf8::decode_utf8_encode_utf8(b.skip(s.col));
    assert(left + right == l);
    let r = after_key(s, EditKey::Return);
    assert(r.lines[s.line] == left);
    assert(r.lines[s.line + 1] == right);
    assert(byte_len(left) == s.col);
    assert(lines_fit(r.lines)) by {
        assert forall|i: int| 0 <= i < r.lines.len() implies byte_len(#[trigger] r.lines[i]) < isize::MAX by {
            if i < s.line {
                assert(r.lines[i] == s.lines[i]);
            } else if i > s.line + 1 {
                assert(r.lines[i] == s.lines[i - 1]);
            }
        }
    }
    assert(after_key(r, EditKey::Back).lines =~= s.lines);
}

/// The character a typing key gives, with or without shift.
pub open spec fn key_char(key: CharKey, shift: bool) -> char {
    match key {
        CharKey::Letter(n) => if shift { ((65 + n) as u8) as char } else { ((97 + n) as u8) as char },
        CharKey::Digit(n) => if shift {
            seq![')', '!', '@', '#', '$', '%', '^', '&', '*', '('][n as int]
        } else {
            ((48 + n) as u8) as char
        },
        CharKey::Space => ' ',
        CharKey::Minus => if shift { '_' } else { '-' },
        CharKey::Equals => if shift { '+' } else { '=' },
        CharKey::LBracket => if shift { '{' } else { '[' },
        CharKey::RBracket => if shift { '}' } else { ']' },
        CharKey::Backslash => if shift { '|' } else { '\\' },
        CharKey::Semicolon => if shift { ':' } else { ';' },
        CharKey::Apostrophe => if shift { '"' } else { '\'' },
        CharKey::Grave => if shift { '~' } else { '`' },
        CharKey::Comma => if shift { '<' } else { ',' },
        CharKey::Period => if shift { '>' } else { '.' },
        CharKey::Slash => if shift { '?' } else { '/' },
    }
}

/// Every typing key types a printable ASCII character, and no two keys,
/// nor one key with and without shift (but the space bar), type the same
/// one: the 95 printable characters are each typed one way. A letter key
/// types its letter, in upper case with shift, and a digit key its digit.
pub proof fn lemma_key_chars_distinct(k1: CharKey, s1: bool, k2: CharKey, s2: bool)
    requires
        key_is_valid(k1),
        key_is_valid(k2),
    ensures
        32 <= key_char(k1, s1) as int <= 126,
        key_char(k1, s1) == key_char(k2, s2) ==> k1 == k2 && (s1 == s2 || k1 == CharKey::Space),
        k1 matches CharKey::Letter(n) ==> key_char(k1, false) as int == 'a' as int + n && key_char(k1, true) as int
            == 'A' as int + n,
        k1 matches CharKey::Digit(n) ==> key_char(k1, false) as int == '0' as int + n,
{
    let shifted_digits = seq![')', '!', '@', '#', '$', '%', '^', '&', '*', '('];
    assert forall|i: int| 0 <= i < 10 implies 32 <= #[trigger] shifted_digits[i] as int <= 126 && shifted_digits[i]
        as int == (if i == 0 { 41int } else if i == 1 { 33int } else if i == 2 { 64int } else if i == 3 { 35int } else if i
        == 4 { 36int } else if i == 5 { 37int } else if i == 6 { 94int } else if i == 7 { 38int } else if i == 8 { 42int } else {
        40int }) by {
        if i == 0 {
        } else if i == 1 {
        } else if i == 2 {
        } else if i == 3 {
        } else if i == 4 {
        } else if i == 5 {
        } else if i == 6 {
        } else if i == 7 {
        } else if i == 8 {
        } else {
        }
    }
    match k1 {
        CharKey::Letter(n) => {
            assert(((97 + n) as u8) as char as int == 97 + n);
            assert(((65 + n) as u8) as char as int == 65 + n);
        },
        CharKey::Digit(n) => {
            assert(((48 + n) as u8) as char as int == 48 + n);
        },
        _ => {},
    }
    match k2 {
        CharKey::Letter(n) => {
            assert(((97 + n) as u8) as char as int == 97 + n);
            assert(((65 + n) as u8) as char as int == 65 + n);
        },
        CharKey::Digit(n) => {
            assert(((48 + n) as u8) as char as int == 48 + n);
        },
        _ => {},
    }
}

pub open spec fn key_is_valid(key: CharKey) -> bool {
    match key {
        CharKey::Letter(n) => n < 26,
        CharKey::Digit(n) => n < 10,
        _ => true,
    }
}

/// Lines joined with `\n` between them.
pub open spec fn join_lines(lines: Seq<Seq<char>>) -> Seq<char>
    decreases lines.len(),
{
    if lines.len() == 0 {
        seq![]
    } else if lines.len() == 1 {
        lines[0]
    } else {
        join_lines(lines.drop_last()) + "\n"@ + lines.last()
    }
}

/// The name a program text gives when it does not parse: what follows
/// `def ` on its first line, trimmed, or `my_program`.
pub open spec fn fallback_name(lines: Seq<Seq<char>>) -> Seq<char> {
    if lines.len() > 0 && starts_with(lines[0], "def "@) {
        trim(lines[0].skip(4))
    } else {
        "my_program"@
    }
}

/// The first line that starts with `def `, from `i` on.
pub open spec fn first_def_from(lines: Seq<Seq<char>>, i: int) -> Option<int>
    decreases lines.len() - i,
{
    if i < 0 || i >= lines.len() {
        None
    } else if starts_with(lines[i], "def "@) {
        Some(i)
    } else {
        first_def_from(lines, i + 1)
    }
}

/// The name a program text with a syntax error is kept under: what follows
/// `def ` on its first `def` line, trimmed, or `my_program`.
pub open spec fn error_name(lines: Seq<Seq<char>>) -> Seq<char> {
    match first_def_from(lines, 0) {
        Some(i) => trim(lines[i].skip(4)),
        None => "my_program"@,
    }
}

/// The editor's program: the first one its text defines, or, where the text
/// does not parse, an empty program under the name of its first line; either
/// way holding the text.
pub open spec fn editor_program(lines: Seq<Seq<char>>) -> SProgram {
    match spec_program(join_lines(lines)) {
        Parsed::Done(p) => SProgram { instructions: p.instructions, name: p.name, source_text: Some(lines) },
        _ => SProgram { instructions: seq![], name: fallback_name(lines), source_text: Some(lines) },
    }
}

/// The text kept when the editor's text has a syntax error: a comment with
/// the error and a blank line first.
pub open spec fn commented_text(lines: Seq<Seq<char>>, error: Seq<char>) -> Seq<Seq<char>> {
    seq!["// SYNTAX ERROR: "@ + error, "// Fix the error above to make this code functional"@, ""@] + lines
}

/// Every program the editor's text defines, each holding the text; or, on a
/// syntax error, one empty program holding the text with the error on top.
pub open spec fn editor_programs(lines: Seq<Seq<char>>) -> Seq<SProgram> {
    match spec_programs(join_lines(lines)) {
        Parsed::Done(ps) => Seq::new(
            ps.len(),
            |i: int| SProgram { instructions: ps[i].instructions, name: ps[i].name, source_text: Some(lines) },
        ),
        Parsed::Failed(e) => seq![
            SProgram { instructions: seq![], name: error_name(lines), source_text: Some(commented_text(lines, e)) },
        ],
        Parsed::Panic => seq![],
    }
}

/// A copy of each line.
pub fn copy_lines(v: &Vec<String>) -> (r: Vec<String>)
    ensures
        texts_view(r@) == texts_view(v@),
{
    let mut r: Vec<String> = Vec::new();
    let mut i: usize = 0;
    while i < v.len()
        invariant
            i <= v.len(),
            texts_view(r@) == texts_view(v@).take(i as int),
        decreases v.len() - i,
    {
        let ghost before = r@;
        let line = owned(v[i].as_str());
        assert(line@ == texts_view(v@)[i as int]);
        r.push(line);
        assert(texts_view(r@) =~= texts_view(before).push(line@));
        assert(texts_view(v@).take(i + 1) =~= texts_view(v@).take(i as int).push(line@));
        i = i + 1;
    }
    assert(texts_view(v@).take(i as int) =~= texts_view(v@));
    r
}

/// The text kept on a syntax error: the error and a blank line, then the lines.
fn commented_lines(error: &str, v: &Vec<String>) -> (r: Vec<String>)
    ensures
        texts_view(r@) == commented_text(texts_view(v@), error@),
{
    let mut r: Vec<String> = Vec::new();
    r.push(joined("// SYNTAX ERROR: ", error));
    r.push(owned("// Fix the error above to make this code functional"));
    r.push(owned(""));
    let ghost head = seq!["// SYNTAX ERROR: "@ + error@, "// Fix the error above to make this code functional"@, ""@];
    assert(texts_view(r@) =~= head);
    let mut i: usize = 0;
    while i < v.len()
        invariant
            i <= v.len(),
            head == seq!["// SYNTAX ERROR: "@ + error@, "// Fix the error above to make this code functional"@, ""@],
            texts_view(r@) == head + texts_view(v@).take(i as int),
        decreases v.len() - i,
    {
        let ghost before = r@;
        let line = owned(v[i].as_str());
        assert(line@ == texts_view(v@)[i as int]);
        r.push(line);
        assert(texts_view(r@) =~= texts_view(before).push(line@));
        assert(head + texts_view(v@).take(i + 1) =~= (head + texts_view(v@).take(i as int)).push(line@));
        i = i + 1;
    }
    assert(texts_view(v@).take(i as int) =~= texts_view(v@));
    r
}

/// The name a text with a syntax error is kept under (see `error_name`).
fn error_program_name(v: &Vec<String>) -> (r: String)
    ensures
        r@ == error_name(texts_view(v@)),
{
    let ghost lines = texts_view(v@);
    let mut j: usize = 0;
    while j < v.len()
        invariant
            j <= v.len(),
            lines == texts_view(v@),
            first_def_from(lines, 0) == first_def_from(lines, j as int),
        decreases v.len() - j,
    {
        assert(lines[j as int] == v@[j as int]@);
        if starts_with_exec(v[j].as_str(), "def ") {
            proof { reveal_strlit("def "); }
            return owned(trim_exec(tail(v[j].as_str(), 4)));
        }
        j = j + 1;
    }
    owned("my_program")
}

/// The name a text that does not parse is kept under (see `fallback_name`).
fn fallback_program_name(v: &Vec<String>) -> (r: String)
    ensures
        r@ == fallback_name(texts_view(v@)),
{
    if v.len() > 0 && starts_with_exec(v[0].as_str(), "def ") {
        proof { reveal_strlit("def "); }
        owned(trim_exec(tail(v[0].as_str(), 4)))
    } else {
        owned("my_program")
    }
}

/// The programs, each now holding `lines` as its text.
fn with_source_text(programs: Vec<Program>, v: &Vec<String>) -> (r: Vec<Program>)
    ensures
        programs_view(r@) == Seq::new(
            programs@.len(),
            |k: int|
                SProgram {
                    instructions: programs@[k]@.instructions,
                    name: programs@[k]@.name,
                    source_text: Some(texts_view(v@)),
                },
        ),
{
    let ghost ps = programs_view(programs@);
    let ghost n = programs@.len();
    let ghost target = Seq::new(
        n,
        |k: int| SProgram { instructions: ps[k].instructions, name: ps[k].name, source_text: Some(texts_view(v@)) },
    );
    let count = programs.len();
    assert(n == count);
    let mut rest = programs;
    let mut out: Vec<Program> = Vec::new();
    let mut i: usize = 0;
    while rest.len() > 0
        invariant
            n == ps.len(),
            n <= usize::MAX,
            i + rest@.len() == n,
            programs_view(rest@) == ps.skip(i as int),
            programs_view(out@) == target.take(i as int),
            target == Seq::new(
                n,
                |k: int| SProgram { instructions: ps[k].instructions, name: ps[k].name, source_text: Some(texts_view(v@)) },
            ),
        decreases rest.len(),
    {
        let ghost before_rest = rest@;
        let ghost before_out = out@;
        let mut program = rest.remove(0);
        assert(programs_view(before_rest)[0] == program@);
        assert(program@ == ps[i as int]);
        program.source_text = Some(copy_lines(v));
        out.push(program);
        assert(programs_view(out@) =~= programs_view(before_out).push(target[i as int]));
        assert(programs_view(rest@) =~= programs_view(before_rest).skip(1));
        i = i + 1;
        assert(programs_view(rest@) =~= ps.skip(i as int));
        assert(target.take(i as int) =~= target.take(i - 1).push(target[i - 1]));
    }
    assert(target.take(i as int) =~= target);
    proof {
        assert forall|k: int| 0 <= k < n implies ps[k] == programs@[k]@ by {}
    }
    assert(target =~= Seq::new(
        programs@.len(),
        |k: int|
            SProgram { instructions: programs@[k]@.instructions, name: programs@[k]@.name, source_text: Some(texts_view(v@)) },
    ));
    out
}

/// The lines joined with `\n` between them.
fn join_exec(v: &Vec<String>) -> (r: String)
    ensures
        r@ == join_lines(texts_view(v@)),
{
    let ghost ls = texts_view(v@);
    let mut r = String::new();
    let mut i: usize = 0;
    while i < v.len()
        invariant
            ls == texts_view(v@),
            i <= v.len(),
            r@ == join_lines(ls.take(i as int)),
        decreases v.len() - i,
    {
        assert(ls.take(i + 1).drop_last() =~= ls.take(i as int));
        if i > 0 {
            r.append("\n");
        }
        r.append(v[i].as_str());
        i = i + 1;
    }
    assert(ls.take(i as int) =~= ls);
    r
}

impl ProgramEditor {
    /// The editor's text, cursor line and cursor column.
    pub open spec fn state(&self) -> EditorState {
        EditorState { lines: texts_view(self.program_text@), line: self.cursor_line as int, col: self.cursor_col as int }
    }

    /// An editor holding `def my_program` and an empty line, the cursor at
    /// the end of the first line.
    pub fn new() -> (r: Self)
        ensures
            r.state() == (EditorState { lines: starting_text(), line: 0, col: 14 }),
            r.last_key_repeat is None,
            r.key_repeat_delay == 500,
            r.key_repeat_rate == 100,
    {
        let r = ProgramEditor {
            program_text: vec![owned("def my_program"), owned("")],
            cursor_line: 0,
            cursor_col: 14,
            parser: SimpleProgramParser::new(),
            last_key_repeat: None,
            key_repeat_delay: 500,
            key_repeat_rate: 100,
        };
        assert(texts_view(r.program_text@) =~= starting_text());
        r
    }

    /// An editor holding `text`, the cursor at the end of its first line.
    pub fn new_with_text(text: Vec<String>) -> (r: Self)
        ensures
            r.state().lines == texts_view(text@),
            r.cursor_line == 0,
            r.cursor_col == if text@.len() > 0 { encode_utf8(text@[0]@).len() as usize } else { 14usize },
            r.last_key_repeat is None,
            r.key_repeat_delay == 500,
            r.key_repeat_rate == 100,
    {
        let mut editor = Self::new();
        editor.program_text = copy_lines(&text);
        if text.len() > 0 {
            editor.cursor_col = text[0].as_str().len();
        }
        editor
    }

    /// An editor holding `def my_program` and an empty line, the cursor at
    /// the end of the first line.
    pub fn new_empty() -> (r: Self)
        ensures
            r.state() == (EditorState { lines: starting_text(), line: 0, col: 14 }),
            r.last_key_repeat is None,
            r.key_repeat_delay == 500,
            r.key_repeat_rate == 100,
    {
        Self::new()
    }

    /// The program the text defines first, holding the text (see `editor_program`).
    pub fn get_program(&self) -> (r: Program)
        requires
            !(spec_programs(join_lines(self.state().lines)) is Panic),
        ensures
            r@ == editor_program(self.state().lines),
    {
        let program_source = join_exec(&self.program_text);
        match self.parser.parse_program(program_source.as_str()) {
            Ok(program) => {
                let ghost p = program@;
                assert(spec_program(join_lines(self.state().lines)) == Parsed::Done(p));
                let mut program = program;
                program.source_text = Some(copy_lines(&self.program_text));
                assert(program@.instructions == p.instructions);
                assert(program@.name == p.name);
                program
            },
            Err(_) => {
                proof { lemma_instrs_view_empty(); }
                Program {
                    name: fallback_program_name(&self.program_text),
                    instructions: Vec::new(),
                    source_text: Some(copy_lines(&self.program_text)),
                }
            },
        }
    }

    /// Every program the text defines, each holding the text (see `editor_programs`).
    pub fn get_all_programs(&self) -> (r: Vec<Program>)
        requires
            !(spec_programs(join_lines(self.state().lines)) is Panic),
        ensures
            programs_view(r@) == editor_programs(self.state().lines),
    {
        let program_source = join_exec(&self.program_text);
        match self.parser.parse_multiple_programs(program_source.as_str()) {
            Ok(programs) => with_source_text(programs, &self.program_text),
            Err(error_msg) => {
                proof { lemma_instrs_view_empty(); }
                let mut out: Vec<Program> = Vec::new();
                out.push(
                    Program {
                        name: error_program_name(&self.program_text),
                        instructions: Vec::new(),
                        source_text: Some(commented_lines(error_msg.as_str(), &self.program_text)),
                    },
                );
                assert(programs_view(out@) =~= editor_programs(self.state().lines));
                out
            },
        }
    }

    /// A copy of the text.
    pub fn get_program_text(&self) -> (r: Vec<String>)
        ensures
            texts_view(r@) == self.state().lines,
    {
        copy_lines(&self.program_text)
    }

    /// Whether a key is handled this frame (see `key_repeat`).
    pub fn should_handle_key_repeat(&mut self, key_held: bool, key_pressed: bool, now: u64) -> (r: bool)
        ensures
            r == key_repeat_fires(old(self).last_key_repeat, old(self).key_repeat_rate, key_held, key_pressed, now),
            final(self).last_key_repeat == key_repeat_last(old(self).last_key_repeat, key_held, r, now),
            final(self).state() == old(self).state(),
            final(self).parser == old(self).parser,
            final(self).key_repeat_delay == old(self).key_repeat_delay,
            final(self).key_repeat_rate == old(self).key_repeat_rate,
    {
        key_repeat(&mut self.last_key_repeat, self.key_repeat_rate, key_held, key_pressed, now)
    }

    /// Types `ch` at the cursor, which moves one byte on.
    pub fn insert_character(&mut self, ch: char)
        requires
            old(self).cursor_line < old(self).program_text@.len(),
            is_char_boundary(encode_utf8(old(self).program_text@[old(self).cursor_line as int]@), old(self).cursor_col as int),
            old(self).cursor_col < usize::MAX,
        ensures
            final(self).state() == after_typing(old(self).state(), ch),
            final(self).parser == old(self).parser,
            final(self).last_key_repeat == old(self).last_key_repeat,
            final(self).key_repeat_delay == old(self).key_repeat_delay,
            final(self).key_repeat_rate == old(self).key_repeat_rate,
    {
        let i = self.cursor_line;
        let mut line = owned(self.program_text[i].as_str());
        line.insert(self.cursor_col, ch);
        proof { vstd::utf8::encode_utf8_decode_utf8(line@); }
        self.program_text.set(i, line);
        self.cursor_col = self.cursor_col + 1;
        assert(texts_view(self.program_text@) =~= old(self).state().lines.update(
            i as int,
            decode_utf8(encode_utf8(line@)),
        ));
    }

    /// Types the character of a typing key, if one was pressed.
    pub fn handle_character_input(&mut self, pressed: Option<CharKey>, shift: bool)
        requires
            pressed matches Some(k) ==> {
                &&& key_is_valid(k)
                &&& old(self).cursor_line < old(self).program_text@.len()
                &&& is_char_boundary(encode_utf8(old(self).program_text@[old(self).cursor_line as int]@), old(self).cursor_col as int)
                &&& old(self).cursor_col < usize::MAX
            },
        ensures
            final(self).state() == match pressed {
                Some(k) => after_typing(old(self).state(), key_char(k, shift)),
                None => old(self).state(),
            },
            final(self).parser == old(self).parser,
            final(self).last_key_repeat == old(self).last_key_repeat,
            final(self).key_repeat_delay == old(self).key_repeat_delay,
            final(self).key_repeat_rate == old(self).key_repeat_rate,
    {
        match pressed {
            Some(k) => {
                let ch = char_of_key(k, shift);
                self.insert_character(ch);
            },
            None => {},
        }
    }

    /// What an editing key does to the text and the cursor (see `after_key`).
    pub fn apply_key(&mut self, key: EditKey)
        requires
            key_allowed(old(self).state(), key),
        ensures
            final(self).state() == after_key(old(self).state(), key),
            final(self).parser == old(self).parser,
            final(self).last_key_repeat == old(self).last_key_repeat,
            final(self).key_repeat_delay == old(self).key_repeat_delay,
            final(self).key_repeat_rate == old(self).key_repeat_rate,
    {
        let ghost s = old(self).state();
        let n = self.program_text.len();
        match key {
            EditKey::Up => {
                if self.cursor_line > 0 {
                    self.cursor_line = self.cursor_line - 1;
                    let len = self.program_text[self.cursor_line].as_str().len();
                    if len < self.cursor_col {
                        self.cursor_col = len;
                    }
                }
            },
            EditKey::Down => {
                let last = if n > 0 { n - 1 } else { 0 };
                if self.cursor_line < last {
                    self.cursor_line = self.cursor_line + 1;
                    let len = self.program_text[self.cursor_line].as_str().len();
                    if len < self.cursor_col {
                        self.cursor_col = len;
                    }
                }
            },
            EditKey::Left => {
                if self.cursor_col > 0 {
                    self.cursor_col = self.cursor_col - 1;
                } else if self.cursor_line > 0 {
                    self.cursor_line = self.cursor_line - 1;
                    self.cursor_col = self.program_text[self.cursor_line].as_str().len();
                }
            },
            EditKey::Right => {
                if self.cursor_col < self.program_text[self.cursor_line].as_str().len() {
                    self.cursor_col = self.cursor_col + 1;
                } else if self.cursor_line < n - 1 {
                    self.cursor_line = self.cursor_line + 1;
                    self.cursor_col = 0;
                }
            },
            EditKey::Return => {
                let i = self.cursor_line;
                let current = owned(self.program_text[i].as_str());
                let (left, right) = current.as_str().split_at(self.cursor_col);
                let left = left.to_owned();
                let right = right.to_owned();
                proof {
                    vstd::utf8::encode_utf8_decode_utf8(left@);
                    vstd::utf8::encode_utf8_decode_utf8(right@);
                }
                self.program_text.set(i, left);
                self.program_text.insert(i + 1, right);
                self.cursor_line = i + 1;
                self.cursor_col = 0;
                assert(texts_view(self.program_text@) =~= after_key(s, key).lines);
            },
            EditKey::Back => {
                if self.cursor_col > 0 {
                    let i = self.cursor_line;
                    let mut line = owned(self.program_text[i].as_str());
                    line.remove(self.cursor_col - 1);
                    proof { vstd::utf8::encode_utf8_decode_utf8(line@); }
                    self.program_text.set(i, line);
                    self.cursor_col = self.cursor_col - 1;
                    assert(texts_view(self.program_text@) =~= after_key(s, key).lines);
                } else if self.cursor_line > 0 {
                    let i = self.cursor_line;
                    let current_line = self.program_text.remove(i);
                    self.cursor_col = self.program_text[i - 1].as_str().len();
                    let mut previous = owned(self.program_text[i - 1].as_str());
                    previous.append(current_line.as_str());
                    self.program_text.set(i - 1, previous);
                    self.cursor_line = i - 1;
                    assert(texts_view(self.program_text@) =~= after_key(s, key).lines);
                }
            },
            EditKey::Delete => {
                let i = self.cursor_line;
                if self.cursor_col < self.program_text[i].as_str().len() {
                    let mut line = owned(self.program_text[i].as_str());
                    line.remove(self.cursor_col);
                    proof { vstd::utf8::encode_utf8_decode_utf8(line@); }
                    self.program_text.set(i, line);
                    assert(texts_view(self.program_text@) =~= after_key(s, key).lines);
                } else if i < n - 1 {
                    let next_line = self.program_text.remove(i + 1);
                    let mut current = owned(self.program_text[i].as_str());
                    current.append(next_line.as_str());
                    self.program_text.set(i, current);
                    assert(texts_view(self.program_text@) =~= after_key(s, key).lines);
                }
            },
        }
    }
}

/// The character a typing key gives, with or without shift.
pub fn char_of_key(key: CharKey, shift: bool) -> (c: char)
    requires
        key_is_valid(key),
    ensures
        c == key_char(key, shift),
{
    match key {
        CharKey::Letter(n) => if shift { (65 + n) as char } else { (97 + n) as char },
        CharKey::Digit(n) => if shift {
            let shifted = [')', '!', '@', '#', '$', '%', '^', '&', '*', '('];
            assert(shifted@ == seq![')', '!', '@', '#', '$', '%', '^', '&', '*', '(']);
            shifted[n as usize]
        } else {
            (48 + n) as char
        },
        CharKey::Space => ' ',
        CharKey::Minus => if shift { '_' } else { '-' },
        CharKey::Equals => if shift { '+' } else { '=' },
        CharKey::LBracket => if shift { '{' } else { '[' },
        CharKey::RBracket => if shift { '}' } else { ']' },
        CharKey::Backslash => if shift { '|' } else { '\\' },
        CharKey::Semicolon => if shift { ':' } else { ';' },
        CharKey::Apostrophe => if shift { '"' } else { '\'' },
        CharKey::Grave => if shift { '~' } else { '`' },
        CharKey::Comma => if shift { '<' } else { ',' },
        CharKey::Period => if shift { '>' } else { '.' },
        CharKey::Slash => if shift { '?' } else { '/' },
    }
}

} // verus!
