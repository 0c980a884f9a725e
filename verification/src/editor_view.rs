//! How the program editor draws itself into a 640 × 480 frame: its
//! window, its 8 × 16 bitmap font, and the program text with its keywords
//! coloured.
use vstd::prelude::*;
use vstd::utf8::{decode_utf8, encode_utf8, is_char_boundary};
use crate::frame::{brighten, brighten_rect, fill_rect, in_rect, lemma_paint_same, lemma_paint_union, paint, paint_pixels};
use crate::program_editor::{byte_len, ProgramEditor};
use crate::square::texts_view;
use crate::text::{contains, contains_exec, joined, joined3, joined4, lemma_skip_non_ws_bounds, lemma_skip_ws_bounds, skip_non_ws, skip_ws, words_from, nat_digits, owned, str_eq, to_chars, uint_to_text, views, words, words_exec};

verus! {

/// The 8×16 bitmap of a character of the editor's font: one byte per row,
/// the leftmost pixel in the top bit. Letters share their upper and lower
/// case; a character the font lacks gets a framed box.
pub open spec fn glyph(ch: char) -> Seq<u8> {
    if ch == ' ' {
        seq![0x00, 0x00, 0x00, 0x00, 0x00, 0x00, 0x00, 0x00, 0x00, 0x00, 0x00, 0x00, 0x00, 0x00, 0x00, 0x00]
    } else if ch == 'A' || ch == 'a' {
        seq![0x00, 0x00, 0x18, 0x3C, 0x66, 0x66, 0x7E, 0x66, 0x66, 0x66, 0x66, 0x00, 0x00, 0x00, 0x00, 0x00]
    } else if ch == 'B' || ch == 'b' {
        seq![0x00, 0x00, 0x7C, 0x66, 0x66, 0x7C, 0x66, 0x66, 0x66, 0x66, 0x7C, 0x00, 0x00, 0x00, 0x00, 0x00]
    } else if ch == 'C' || ch == 'c' {
        seq![0x00, 0x00, 0x3C, 0x66, 0x60, 0x60, 0x60, 0x60, 0x60, 0x66, 0x3C, 0x00, 0x00, 0x00, 0x00, 0x00]
    } else if ch == 'D' || ch == 'd' {
        seq![0x00, 0x00, 0x78, 0x6C, 0x66, 0x66, 0x66, 0x66, 0x66, 0x6C, 0x78, 0x00, 0x00, 0x00, 0x00, 0x00]
    } else if ch == 'E' || ch == 'e' {
        seq![0x00, 0x00, 0x7E, 0x60, 0x60, 0x78, 0x60, 0x60, 0x60, 0x60, 0x7E, 0x00, 0x00, 0x00, 0x00, 0x00]
    } else if ch == 'F' || ch == 'f' {
        seq![0x00, 0x00, 0x7E, 0x60, 0x60, 0x78, 0x60, 0x60, 0x60, 0x60, 0x60, 0x00, 0x00, 0x00, 0x00, 0x00]
    } else if ch == 'G' || ch == 'g' {
        seq![0x00, 0x00, 0x3C, 0x66, 0x60, 0x60, 0x6E, 0x66, 0x66, 0x66, 0x3C, 0x00, 0x00, 0x00, 0x00, 0x00]
    } else if ch == 'H' || ch == 'h' {
        seq![0x00, 0x00, 0x66, 0x66, 0x66, 0x7E, 0x66, 0x66, 0x66, 0x66, 0x66, 0x00, 0x00, 0x00, 0x00, 0x00]
    } else if ch == 'I' || ch == 'i' {
        seq![0x00, 0x00, 0x3C, 0x18, 0x18, 0x18, 0x18, 0x18, 0x18, 0x18, 0x3C, 0x00, 0x00, 0x00, 0x00, 0x00]
    } else if ch == 'J' || ch == 'j' {
        seq![0x00, 0x00, 0x1E, 0x0C, 0x0C, 0x0C, 0x0C, 0x0C, 0x6C, 0x6C, 0x38, 0x00, 0x00, 0x00, 0x00, 0x00]
    } else if ch == 'K' || ch == 'k' {
        seq![0x00, 0x00, 0x66, 0x6C, 0x78, 0x70, 0x78, 0x6C, 0x66, 0x66, 0x66, 0x00, 0x00, 0x00, 0x00, 0x00]
    } else if ch == 'L' || ch == 'l' {
        seq![0x00, 0x00, 0x60, 0x60, 0x60, 0x60, 0x60, 0x60, 0x60, 0x60, 0x7E, 0x00, 0x00, 0x00, 0x00, 0x00]
    } else if ch == 'M' || ch == 'm' {
        seq![0x00, 0x00, 0x63, 0x77, 0x7F, 0x6B, 0x63, 0x63, 0x63, 0x63, 0x63, 0x00, 0x00, 0x00, 0x00, 0x00]
    } else if ch == 'N' || ch == 'n' {
        seq![0x00, 0x00, 0x66, 0x76, 0x7E, 0x7E, 0x6E, 0x66, 0x66, 0x66, 0x66, 0x00, 0x00, 0x00, 0x00, 0x00]
    } else if ch == 'O' || ch == 'o' {
        seq![0x00, 0x00, 0x3C, 0x66, 0x66, 0x66, 0x66, 0x66, 0x66, 0x66, 0x3C, 0x00, 0x00, 0x00, 0x00, 0x00]
    } else if ch == 'P' || ch == 'p' {
        seq![0x00, 0x00, 0x7C, 0x66, 0x66, 0x7C, 0x60, 0x60, 0x60, 0x60, 0x60, 0x00, 0x00, 0x00, 0x00, 0x00]
    } else if ch == 'Q' || ch == 'q' {
        seq![0x00, 0x00, 0x3C, 0x66, 0x66, 0x66, 0x66, 0x66, 0x66, 0x3C, 0x0E, 0x00, 0x00, 0x00, 0x00, 0x00]
    } else if ch == 'R' || ch == 'r' {
        seq![0x00, 0x00, 0x7C, 0x66, 0x66, 0x7C, 0x78, 0x6C, 0x66, 0x66, 0x66, 0x00, 0x00, 0x00, 0x00, 0x00]
    } else if ch == 'S' || ch == 's' {
        seq![0x00, 0x00, 0x3C, 0x66, 0x60, 0x30, 0x18, 0x0C, 0x06, 0x66, 0x3C, 0x00, 0x00, 0x00, 0x00, 0x00]
    } else if ch == 'T' || ch == 't' {
        seq![0x00, 0x00, 0x7E, 0x18, 0x18, 0x18, 0x18, 0x18, 0x18, 0x18, 0x18, 0x00, 0x00, 0x00, 0x00, 0x00]
    } else if ch == 'U' || ch == 'u' {
        seq![0x00, 0x00, 0x66, 0x66, 0x66, 0x66, 0x66, 0x66, 0x66, 0x66, 0x3C, 0x00, 0x00, 0x00, 0x00, 0x00]
    } else if ch == 'V' || ch == 'v' {
        seq![0x00, 0x00, 0x66, 0x66, 0x66, 0x66, 0x66, 0x66, 0x66, 0x3C, 0x18, 0x00, 0x00, 0x00, 0x00, 0x00]
    } else if ch == 'W' || ch == 'w' {
        seq![0x00, 0x00, 0x63, 0x63, 0x63, 0x6B, 0x7F, 0x77, 0x63, 0x63, 0x63, 0x00, 0x00, 0x00, 0x00, 0x00]
    } else if ch == 'X' || ch == 'x' {
        seq![0x00, 0x00, 0x66, 0x66, 0x3C, 0x18, 0x18, 0x3C, 0x66, 0x66, 0x66, 0x00, 0x00, 0x00, 0x00, 0x00]
    } else if ch == 'Y' || ch == 'y' {
        seq![0x00, 0x00, 0x66, 0x66, 0x66, 0x3C, 0x18, 0x18, 0x18, 0x18, 0x18, 0x00, 0x00, 0x00, 0x00, 0x00]
    } else if ch == 'Z' || ch == 'z' {
        seq![0x00, 0x00, 0x7E, 0x06, 0x0C, 0x18, 0x30, 0x60, 0x60, 0x60, 0x7E, 0x00, 0x00, 0x00, 0x00, 0x00]
    } else if ch == '0' {
        seq![0x00, 0x00, 0x3C, 0x66, 0x6E, 0x76, 0x66, 0x66, 0x66, 0x66, 0x3C, 0x00, 0x00, 0x00, 0x00, 0x00]
    } else if ch == '1' {
        seq![0x00, 0x00, 0x18, 0x18, 0x38, 0x18, 0x18, 0x18, 0x18, 0x18, 0x7E, 0x00, 0x00, 0x00, 0x00, 0x00]
    } else if ch == '2' {
        seq![0x00, 0x00, 0x3C, 0x66, 0x06, 0x0C, 0x30, 0x60, 0x60, 0x60, 0x7E, 0x00, 0x00, 0x00, 0x00, 0x00]
    } else if ch == '3' {
        seq![0x00, 0x00, 0x3C, 0x66, 0x06, 0x1C, 0x06, 0x06, 0x06, 0x66, 0x3C, 0x00, 0x00, 0x00, 0x00, 0x00]
    } else if ch == '4' {
        seq![0x00, 0x00, 0x06, 0x0E, 0x1E, 0x66, 0x7F, 0x06, 0x06, 0x06, 0x06, 0x00, 0x00, 0x00, 0x00, 0x00]
    } else if ch == '5' {
        seq![0x00, 0x00, 0x7E, 0x60, 0x60, 0x7C, 0x06, 0x06, 0x06, 0x66, 0x3C, 0x00, 0x00, 0x00, 0x00, 0x00]
    } else if ch == '6' {
        seq![0x00, 0x00, 0x3C, 0x66, 0x60, 0x7C, 0x66, 0x66, 0x66, 0x66, 0x3C, 0x00, 0x00, 0x00, 0x00, 0x00]
    } else if ch == '7' {
        seq![0x00, 0x00, 0x7E, 0x66, 0x0C, 0x18, 0x18, 0x18, 0x18, 0x18, 0x18, 0x00, 0x00, 0x00, 0x00, 0x00]
    } else if ch == '8' {
        seq![0x00, 0x00, 0x3C, 0x66, 0x66, 0x3C, 0x66, 0x66, 0x66, 0x66, 0x3C, 0x00, 0x00, 0x00, 0x00, 0x00]
    } else if ch == '9' {
        seq![0x00, 0x00, 0x3C, 0x66, 0x66, 0x66, 0x3E, 0x06, 0x06, 0x66, 0x3C, 0x00, 0x00, 0x00, 0x00, 0x00]
    } else if ch == '.' {
        seq![0x00, 0x00, 0x00, 0x00, 0x00, 0x00, 0x00, 0x00, 0x00, 0x18, 0x18, 0x00, 0x00, 0x00, 0x00, 0x00]
    } else if ch == ',' {
        seq![0x00, 0x00, 0x00, 0x00, 0x00, 0x00, 0x00, 0x00, 0x00, 0x18, 0x18, 0x30, 0x00, 0x00, 0x00, 0x00]
    } else if ch == ':' {
        seq![0x00, 0x00, 0x00, 0x00, 0x18, 0x18, 0x00, 0x00, 0x18, 0x18, 0x00, 0x00, 0x00, 0x00, 0x00, 0x00]
    } else if ch == ';' {
        seq![0x00, 0x00, 0x00, 0x00, 0x18, 0x18, 0x00, 0x00, 0x18, 0x18, 0x30, 0x00, 0x00, 0x00, 0x00, 0x00]
    } else if ch == '!' {
        seq![0x00, 0x00, 0x18, 0x18, 0x18, 0x18, 0x18, 0x18, 0x00, 0x18, 0x18, 0x00, 0x00, 0x00, 0x00, 0x00]
    } else if ch == '?' {
        seq![0x00, 0x00, 0x3C, 0x66, 0x06, 0x0C, 0x18, 0x18, 0x00, 0x18, 0x18, 0x00, 0x00, 0x00, 0x00, 0x00]
    } else if ch == '-' {
        seq![0x00, 0x00, 0x00, 0x00, 0x00, 0x00, 0x7E, 0x00, 0x00, 0x00, 0x00, 0x00, 0x00, 0x00, 0x00, 0x00]
    } else if ch == '+' {
        seq![0x00, 0x00, 0x00, 0x00, 0x18, 0x18, 0x7E, 0x18, 0x18, 0x00, 0x00, 0x00, 0x00, 0x00, 0x00, 0x00]
    } else if ch == '=' {
        seq![0x00, 0x00, 0x00, 0x00, 0x00, 0x7E, 0x00, 0x7E, 0x00, 0x00, 0x00, 0x00, 0x00, 0x00, 0x00, 0x00]
    } else if ch == '(' {
        seq![0x00, 0x00, 0x0E, 0x18, 0x30, 0x30, 0x30, 0x30, 0x30, 0x18, 0x0E, 0x00, 0x00, 0x00, 0x00, 0x00]
    } else if ch == ')' {
        seq![0x00, 0x00, 0x70, 0x18, 0x0C, 0x0C, 0x0C, 0x0C, 0x0C, 0x18, 0x70, 0x00, 0x00, 0x00, 0x00, 0x00]
    } else if ch == '[' {
        seq![0x00, 0x00, 0x3E, 0x30, 0x30, 0x30, 0x30, 0x30, 0x30, 0x30, 0x3E, 0x00, 0x00, 0x00, 0x00, 0x00]
    } else if ch == ']' {
        seq![0x00, 0x00, 0x7C, 0x0C, 0x0C, 0x0C, 0x0C, 0x0C, 0x0C, 0x0C, 0x7C, 0x00, 0x00, 0x00, 0x00, 0x00]
    } else if ch == '{' {
        seq![0x00, 0x00, 0x0E, 0x18, 0x18, 0x70, 0x18, 0x18, 0x18, 0x18, 0x0E, 0x00, 0x00, 0x00, 0x00, 0x00]
    } else if ch == '}' {
        seq![0x00, 0x00, 0x70, 0x18, 0x18, 0x0E, 0x18, 0x18, 0x18, 0x18, 0x70, 0x00, 0x00, 0x00, 0x00, 0x00]
    } else if ch == '/' {
        seq![0x00, 0x00, 0x00, 0x03, 0x06, 0x0C, 0x18, 0x30, 0x60, 0xC0, 0x00, 0x00, 0x00, 0x00, 0x00, 0x00]
    } else if ch == '\\' {
        seq![0x00, 0x00, 0x00, 0xC0, 0x60, 0x30, 0x18, 0x0C, 0x06, 0x03, 0x00, 0x00, 0x00, 0x00, 0x00, 0x00]
    } else if ch == '|' {
        seq![0x00, 0x00, 0x18, 0x18, 0x18, 0x18, 0x18, 0x18, 0x18, 0x18, 0x18, 0x00, 0x00, 0x00, 0x00, 0x00]
    } else if ch == '_' {
        seq![0x00, 0x00, 0x00, 0x00, 0x00, 0x00, 0x00, 0x00, 0x00, 0x00, 0xFF, 0x00, 0x00, 0x00, 0x00, 0x00]
    } else if ch == '"' {
        seq![0x00, 0x00, 0x66, 0x66, 0x66, 0x00, 0x00, 0x00, 0x00, 0x00, 0x00, 0x00, 0x00, 0x00, 0x00, 0x00]
    } else if ch == '\'' {
        seq![0x00, 0x00, 0x18, 0x18, 0x18, 0x00, 0x00, 0x00, 0x00, 0x00, 0x00, 0x00, 0x00, 0x00, 0x00, 0x00]
    } else if ch == '`' {
        seq![0x00, 0x00, 0x30, 0x18, 0x0C, 0x00, 0x00, 0x00, 0x00, 0x00, 0x00, 0x00, 0x00, 0x00, 0x00, 0x00]
    } else if ch == '~' {
        seq![0x00, 0x00, 0x00, 0x00, 0x00, 0x76, 0xDC, 0x00, 0x00, 0x00, 0x00, 0x00, 0x00, 0x00, 0x00, 0x00]
    } else if ch == '@' {
        seq![0x00, 0x00, 0x3C, 0x66, 0x6E, 0x6E, 0x60, 0x62, 0x3C, 0x00, 0x00, 0x00, 0x00, 0x00, 0x00, 0x00]
    } else if ch == '#' {
        seq![0x00, 0x00, 0x6C, 0x6C, 0xFE, 0x6C, 0xFE, 0x6C, 0x6C, 0x00, 0x00, 0x00, 0x00, 0x00, 0x00, 0x00]
    } else if ch == '$' {
        seq![0x00, 0x18, 0x3E, 0x60, 0x3C, 0x06, 0x7C, 0x18, 0x00, 0x00, 0x00, 0x00, 0x00, 0x00, 0x00, 0x00]
    } else if ch == '%' {
        seq![0x00, 0x00, 0x66, 0x66, 0x0C, 0x18, 0x30, 0x66, 0x66, 0x00, 0x00, 0x00, 0x00, 0x00, 0x00, 0x00]
    } else if ch == '^' {
        seq![0x00, 0x00, 0x10, 0x38, 0x6C, 0x00, 0x00, 0x00, 0x00, 0x00, 0x00, 0x00, 0x00, 0x00, 0x00, 0x00]
    } else if ch == '&' {
        seq![0x00, 0x00, 0x38, 0x6C, 0x38, 0x76, 0xDC, 0xCC, 0x76, 0x00, 0x00, 0x00, 0x00, 0x00, 0x00, 0x00]
    } else if ch == '*' {
        seq![0x00, 0x00, 0x00, 0x66, 0x3C, 0xFF, 0x3C, 0x66, 0x00, 0x00, 0x00, 0x00, 0x00, 0x00, 0x00, 0x00]
    } else if ch == '<' {
        seq![0x00, 0x00, 0x06, 0x0C, 0x18, 0x30, 0x18, 0x0C, 0x06, 0x00, 0x00, 0x00, 0x00, 0x00, 0x00, 0x00]
    } else if ch == '>' {
        seq![0x00, 0x00, 0x60, 0x30, 0x18, 0x0C, 0x18, 0x30, 0x60, 0x00, 0x00, 0x00, 0x00, 0x00, 0x00, 0x00]
    } else {
        seq![0x00, 0x00, 0x7E, 0x81, 0xA5, 0x81, 0xBD, 0x99, 0x81, 0x7E, 0x00, 0x00, 0x00, 0x00, 0x00, 0x00]
    }
}

/// The rows of a character's bitmap (see `glyph`).
fn glyph_rows(ch: char) -> (r: [u8; 16])
    ensures
        r@ == glyph(ch),
{
    let r: [u8; 16] = match ch {
        ' ' => [0x00, 0x00, 0x00, 0x00, 0x00, 0x00, 0x00, 0x00, 0x00, 0x00, 0x00, 0x00, 0x00, 0x00, 0x00, 0x00],
        'A' | 'a' => [0x00, 0x00, 0x18, 0x3C, 0x66, 0x66, 0x7E, 0x66, 0x66, 0x66, 0x66, 0x00, 0x00, 0x00, 0x00, 0x00],
        'B' | 'b' => [0x00, 0x00, 0x7C, 0x66, 0x66, 0x7C, 0x66, 0x66, 0x66, 0x66, 0x7C, 0x00, 0x00, 0x00, 0x00, 0x00],
        'C' | 'c' => [0x00, 0x00, 0x3C, 0x66, 0x60, 0x60, 0x60, 0x60, 0x60, 0x66, 0x3C, 0x00, 0x00, 0x00, 0x00, 0x00],
        'D' | 'd' => [0x00, 0x00, 0x78, 0x6C, 0x66, 0x66, 0x66, 0x66, 0x66, 0x6C, 0x78, 0x00, 0x00, 0x00, 0x00, 0x00],
        'E' | 'e' => [0x00, 0x00, 0x7E, 0x60, 0x60, 0x78, 0x60, 0x60, 0x60, 0x60, 0x7E, 0x00, 0x00, 0x00, 0x00, 0x00],
        'F' | 'f' => [0x00, 0x00, 0x7E, 0x60, 0x60, 0x78, 0x60, 0x60, 0x60, 0x60, 0x60, 0x00, 0x00, 0x00, 0x00, 0x00],
        'G' | 'g' => [0x00, 0x00, 0x3C, 0x66, 0x60, 0x60, 0x6E, 0x66, 0x66, 0x66, 0x3C, 0x00, 0x00, 0x00, 0x00, 0x00],
        'H' | 'h' => [0x00, 0x00, 0x66, 0x66, 0x66, 0x7E, 0x66, 0x66, 0x66, 0x66, 0x66, 0x00, 0x00, 0x00, 0x00, 0x00],
        'I' | 'i' => [0x00, 0x00, 0x3C, 0x18, 0x18, 0x18, 0x18, 0x18, 0x18, 0x18, 0x3C, 0x00, 0x00, 0x00, 0x00, 0x00],
        'J' | 'j' => [0x00, 0x00, 0x1E, 0x0C, 0x0C, 0x0C, 0x0C, 0x0C, 0x6C, 0x6C, 0x38, 0x00, 0x00, 0x00, 0x00, 0x00],
        'K' | 'k' => [0x00, 0x00, 0x66, 0x6C, 0x78, 0x70, 0x78, 0x6C, 0x66, 0x66, 0x66, 0x00, 0x00, 0x00, 0x00, 0x00],
        'L' | 'l' => [0x00, 0x00, 0x60, 0x60, 0x60, 0x60, 0x60, 0x60, 0x60, 0x60, 0x7E, 0x00, 0x00, 0x00, 0x00, 0x00],
        'M' | 'm' => [0x00, 0x00, 0x63, 0x77, 0x7F, 0x6B, 0x63, 0x63, 0x63, 0x63, 0x63, 0x00, 0x00, 0x00, 0x00, 0x00],
        'N' | 'n' => [0x00, 0x00, 0x66, 0x76, 0x7E, 0x7E, 0x6E, 0x66, 0x66, 0x66, 0x66, 0x00, 0x00, 0x00, 0x00, 0x00],
        'O' | 'o' => [0x00, 0x00, 0x3C, 0x66, 0x66, 0x66, 0x66, 0x66, 0x66, 0x66, 0x3C, 0x00, 0x00, 0x00, 0x00, 0x00],
        'P' | 'p' => [0x00, 0x00, 0x7C, 0x66, 0x66, 0x7C, 0x60, 0x60, 0x60, 0x60, 0x60, 0x00, 0x00, 0x00, 0x00, 0x00],
        'Q' | 'q' => [0x00, 0x00, 0x3C, 0x66, 0x66, 0x66, 0x66, 0x66, 0x66, 0x3C, 0x0E, 0x00, 0x00, 0x00, 0x00, 0x00],
        'R' | 'r' => [0x00, 0x00, 0x7C, 0x66, 0x66, 0x7C, 0x78, 0x6C, 0x66, 0x66, 0x66, 0x00, 0x00, 0x00, 0x00, 0x00],
        'S' | 's' => [0x00, 0x00, 0x3C, 0x66, 0x60, 0x30, 0x18, 0x0C, 0x06, 0x66, 0x3C, 0x00, 0x00, 0x00, 0x00, 0x00],
        'T' | 't' => [0x00, 0x00, 0x7E, 0x18, 0x18, 0x18, 0x18, 0x18, 0x18, 0x18, 0x18, 0x00, 0x00, 0x00, 0x00, 0x00],
        'U' | 'u' => [0x00, 0x00, 0x66, 0x66, 0x66, 0x66, 0x66, 0x66, 0x66, 0x66, 0x3C, 0x00, 0x00, 0x00, 0x00, 0x00],
        'V' | 'v' => [0x00, 0x00, 0x66, 0x66, 0x66, 0x66, 0x66, 0x66, 0x66, 0x3C, 0x18, 0x00, 0x00, 0x00, 0x00, 0x00],
        'W' | 'w' => [0x00, 0x00, 0x63, 0x63, 0x63, 0x6B, 0x7F, 0x77, 0x63, 0x63, 0x63, 0x00, 0x00, 0x00, 0x00, 0x00],
        'X' | 'x' => [0x00, 0x00, 0x66, 0x66, 0x3C, 0x18, 0x18, 0x3C, 0x66, 0x66, 0x66, 0x00, 0x00, 0x00, 0x00, 0x00],
        'Y' | 'y' => [0x00, 0x00, 0x66, 0x66, 0x66, 0x3C, 0x18, 0x18, 0x18, 0x18, 0x18, 0x00, 0x00, 0x00, 0x00, 0x00],
        'Z' | 'z' => [0x00, 0x00, 0x7E, 0x06, 0x0C, 0x18, 0x30, 0x60, 0x60, 0x60, 0x7E, 0x00, 0x00, 0x00, 0x00, 0x00],
        '0' => [0x00, 0x00, 0x3C, 0x66, 0x6E, 0x76, 0x66, 0x66, 0x66, 0x66, 0x3C, 0x00, 0x00, 0x00, 0x00, 0x00],
        '1' => [0x00, 0x00, 0x18, 0x18, 0x38, 0x18, 0x18, 0x18, 0x18, 0x18, 0x7E, 0x00, 0x00, 0x00, 0x00, 0x00],
        '2' => [0x00, 0x00, 0x3C, 0x66, 0x06, 0x0C, 0x30, 0x60, 0x60, 0x60, 0x7E, 0x00, 0x00, 0x00, 0x00, 0x00],
        '3' => [0x00, 0x00, 0x3C, 0x66, 0x06, 0x1C, 0x06, 0x06, 0x06, 0x66, 0x3C, 0x00, 0x00, 0x00, 0x00, 0x00],
        '4' => [0x00, 0x00, 0x06, 0x0E, 0x1E, 0x66, 0x7F, 0x06, 0x06, 0x06, 0x06, 0x00, 0x00, 0x00, 0x00, 0x00],
        '5' => [0x00, 0x00, 0x7E, 0x60, 0x60, 0x7C, 0x06, 0x06, 0x06, 0x66, 0x3C, 0x00, 0x00, 0x00, 0x00, 0x00],
        '6' => [0x00, 0x00, 0x3C, 0x66, 0x60, 0x7C, 0x66, 0x66, 0x66, 0x66, 0x3C, 0x00, 0x00, 0x00, 0x00, 0x00],
        '7' => [0x00, 0x00, 0x7E, 0x66, 0x0C, 0x18, 0x18, 0x18, 0x18, 0x18, 0x18, 0x00, 0x00, 0x00, 0x00, 0x00],
        '8' => [0x00, 0x00, 0x3C, 0x66, 0x66, 0x3C, 0x66, 0x66, 0x66, 0x66, 0x3C, 0x00, 0x00, 0x00, 0x00, 0x00],
        '9' => [0x00, 0x00, 0x3C, 0x66, 0x66, 0x66, 0x3E, 0x06, 0x06, 0x66, 0x3C, 0x00, 0x00, 0x00, 0x00, 0x00],
        '.' => [0x00, 0x00, 0x00, 0x00, 0x00, 0x00, 0x00, 0x00, 0x00, 0x18, 0x18, 0x00, 0x00, 0x00, 0x00, 0x00],
        ',' => [0x00, 0x00, 0x00, 0x00, 0x00, 0x00, 0x00, 0x00, 0x00, 0x18, 0x18, 0x30, 0x00, 0x00, 0x00, 0x00],
        ':' => [0x00, 0x00, 0x00, 0x00, 0x18, 0x18, 0x00, 0x00, 0x18, 0x18, 0x00, 0x00, 0x00, 0x00, 0x00, 0x00],
        ';' => [0x00, 0x00, 0x00, 0x00, 0x18, 0x18, 0x00, 0x00, 0x18, 0x18, 0x30, 0x00, 0x00, 0x00, 0x00, 0x00],
        '!' => [0x00, 0x00, 0x18, 0x18, 0x18, 0x18, 0x18, 0x18, 0x00, 0x18, 0x18, 0x00, 0x00, 0x00, 0x00, 0x00],
        '?' => [0x00, 0x00, 0x3C, 0x66, 0x06, 0x0C, 0x18, 0x18, 0x00, 0x18, 0x18, 0x00, 0x00, 0x00, 0x00, 0x00],
        '-' => [0x00, 0x00, 0x00, 0x00, 0x00, 0x00, 0x7E, 0x00, 0x00, 0x00, 0x00, 0x00, 0x00, 0x00, 0x00, 0x00],
        '+' => [0x00, 0x00, 0x00, 0x00, 0x18, 0x18, 0x7E, 0x18, 0x18, 0x00, 0x00, 0x00, 0x00, 0x00, 0x00, 0x00],
        '=' => [0x00, 0x00, 0x00, 0x00, 0x00, 0x7E, 0x00, 0x7E, 0x00, 0x00, 0x00, 0x00, 0x00, 0x00, 0x00, 0x00],
        '(' => [0x00, 0x00, 0x0E, 0x18, 0x30, 0x30, 0x30, 0x30, 0x30, 0x18, 0x0E, 0x00, 0x00, 0x00, 0x00, 0x00],
        ')' => [0x00, 0x00, 0x70, 0x18, 0x0C, 0x0C, 0x0C, 0x0C, 0x0C, 0x18, 0x70, 0x00, 0x00, 0x00, 0x00, 0x00],
        '[' => [0x00, 0x00, 0x3E, 0x30, 0x30, 0x30, 0x30, 0x30, 0x30, 0x30, 0x3E, 0x00, 0x00, 0x00, 0x00, 0x00],
        ']' => [0x00, 0x00, 0x7C, 0x0C, 0x0C, 0x0C, 0x0C, 0x0C, 0x0C, 0x0C, 0x7C, 0x00, 0x00, 0x00, 0x00, 0x00],
        '{' => [0x00, 0x00, 0x0E, 0x18, 0x18, 0x70, 0x18, 0x18, 0x18, 0x18, 0x0E, 0x00, 0x00, 0x00, 0x00, 0x00],
        '}' => [0x00, 0x00, 0x70, 0x18, 0x18, 0x0E, 0x18, 0x18, 0x18, 0x18, 0x70, 0x00, 0x00, 0x00, 0x00, 0x00],
        '/' => [0x00, 0x00, 0x00, 0x03, 0x06, 0x0C, 0x18, 0x30, 0x60, 0xC0, 0x00, 0x00, 0x00, 0x00, 0x00, 0x00],
        '\\' => [0x00, 0x00, 0x00, 0xC0, 0x60, 0x30, 0x18, 0x0C, 0x06, 0x03, 0x00, 0x00, 0x00, 0x00, 0x00, 0x00],
        '|' => [0x00, 0x00, 0x18, 0x18, 0x18, 0x18, 0x18, 0x18, 0x18, 0x18, 0x18, 0x00, 0x00, 0x00, 0x00, 0x00],
        '_' => [0x00, 0x00, 0x00, 0x00, 0x00, 0x00, 0x00, 0x00, 0x00, 0x00, 0xFF, 0x00, 0x00, 0x00, 0x00, 0x00],
        '"' => [0x00, 0x00, 0x66, 0x66, 0x66, 0x00, 0x00, 0x00, 0x00, 0x00, 0x00, 0x00, 0x00, 0x00, 0x00, 0x00],
        '\'' => [0x00, 0x00, 0x18, 0x18, 0x18, 0x00, 0x00, 0x00, 0x00, 0x00, 0x00, 0x00, 0x00, 0x00, 0x00, 0x00],
        '`' => [0x00, 0x00, 0x30, 0x18, 0x0C, 0x00, 0x00, 0x00, 0x00, 0x00, 0x00, 0x00, 0x00, 0x00, 0x00, 0x00],
        '~' => [0x00, 0x00, 0x00, 0x00, 0x00, 0x76, 0xDC, 0x00, 0x00, 0x00, 0x00, 0x00, 0x00, 0x00, 0x00, 0x00],
        '@' => [0x00, 0x00, 0x3C, 0x66, 0x6E, 0x6E, 0x60, 0x62, 0x3C, 0x00, 0x00, 0x00, 0x00, 0x00, 0x00, 0x00],
        '#' => [0x00, 0x00, 0x6C, 0x6C, 0xFE, 0x6C, 0xFE, 0x6C, 0x6C, 0x00, 0x00, 0x00, 0x00, 0x00, 0x00, 0x00],
        '$' => [0x00, 0x18, 0x3E, 0x60, 0x3C, 0x06, 0x7C, 0x18, 0x00, 0x00, 0x00, 0x00, 0x00, 0x00, 0x00, 0x00],
        '%' => [0x00, 0x00, 0x66, 0x66, 0x0C, 0x18, 0x30, 0x66, 0x66, 0x00, 0x00, 0x00, 0x00, 0x00, 0x00, 0x00],
        '^' => [0x00, 0x00, 0x10, 0x38, 0x6C, 0x00, 0x00, 0x00, 0x00, 0x00, 0x00, 0x00, 0x00, 0x00, 0x00, 0x00],
        '&' => [0x00, 0x00, 0x38, 0x6C, 0x38, 0x76, 0xDC, 0xCC, 0x76, 0x00, 0x00, 0x00, 0x00, 0x00, 0x00, 0x00],
        '*' => [0x00, 0x00, 0x00, 0x66, 0x3C, 0xFF, 0x3C, 0x66, 0x00, 0x00, 0x00, 0x00, 0x00, 0x00, 0x00, 0x00],
        '<' => [0x00, 0x00, 0x06, 0x0C, 0x18, 0x30, 0x18, 0x0C, 0x06, 0x00, 0x00, 0x00, 0x00, 0x00, 0x00, 0x00],
        '>' => [0x00, 0x00, 0x60, 0x30, 0x18, 0x0C, 0x18, 0x30, 0x60, 0x00, 0x00, 0x00, 0x00, 0x00, 0x00, 0x00],
        _ => [0x00, 0x00, 0x7E, 0x81, 0xA5, 0x81, 0xBD, 0x99, 0x81, 0x7E, 0x00, 0x00, 0x00, 0x00, 0x00, 0x00],
    };
    assert(r@ =~= glyph(ch));
    r
}

/// Whether pixel `col` (from the left) of a bitmap row is set.
pub open spec fn bit_set(b: u8, col: int) -> bool {
    (b & (0x80u8 >> (col as u8))) != 0
}

/// The pixels of a character's bitmap `rows` drawn with its top left corner
/// at `(x, y)` in the 640 × 480 window.
pub open spec fn glyph_pixel(p: int, h: int, rows: Seq<u8>, x: int, y: int) -> bool {
    let px = p % 640;
    let py = p / 640;
    &&& 0 <= py < h
    &&& x <= px < x + 8
    &&& y <= py < y + 16
    &&& bit_set(rows[py - y], px - x)
}

/// A colour, opaque.
pub open spec fn opaque(c: [u8; 3]) -> Seq<u8> {
    seq![c[0], c[1], c[2], 255u8]
}

/// A colour's inverse, as selected text is drawn.
pub open spec fn inverted(c: [u8; 3]) -> [u8; 3] {
    [(255 - c[0]) as u8, (255 - c[1]) as u8, (255 - c[2]) as u8]
}

/// The frame with a character drawn at `(x, y)`.
pub open spec fn paint_char(f: Seq<u8>, h: int, ch: char, x: int, y: int, c: [u8; 3]) -> Seq<u8> {
    paint_pixels(f, |p: int| glyph_pixel(p, h, glyph(ch), x, y), opaque(c))
}

/// The frame with a text drawn from `(x, y)`, a character every 8 pixels,
/// as far as characters fit in the window.
pub open spec fn paint_text(f: Seq<u8>, h: int, s: Seq<char>, x: int, y: int, c: [u8; 3]) -> Seq<u8>
    decreases s.len(),
{
    if s.len() == 0 || x + 8 > 640 || y + 16 > h {
        f
    } else {
        paint_text(paint_char(f, h, s[0], x, y, c), h, s.drop_first(), x + 8, y, c)
    }
}

/// Draws one character of the font (see `paint_char`).
fn draw_simple_char(frame: &mut [u8], h: usize, ch: char, x: usize, y: usize, color: [u8; 3])
    requires
        h <= 4096,
        x + 8 <= usize::MAX,
        y + 16 <= usize::MAX,
    ensures
        final(frame)@ == paint_char(old(frame)@, h as int, ch, x as int, y as int, color),
{
    let ghost f0 = frame@;
    let ghost c = opaque(color);
    let patterns = glyph_rows(ch);
    let ghost g = glyph(ch);
    let rgba: [u8; 4] = [color[0], color[1], color[2], 255];
    assert(rgba@.take(4) =~= c);
    assert(paint_pixels(f0, |p: int| false, c) =~= f0);
    let mut row: usize = 0;
    while row < 16
        invariant
            row <= 16,
            h <= 4096,
            x + 8 <= usize::MAX,
            y + 16 <= usize::MAX,
            patterns@ == g,
            rgba@.take(4) == c,
            frame@ == paint_pixels(f0, |p: int| glyph_pixel(p, h as int, g, x as int, y as int) && p / 640 - y < row, c),
        decreases 16 - row,
    {
        let pattern = patterns[row];
        let mut col: usize = 0;
        while col < 8
            invariant
                row < 16,
                col <= 8,
                h <= 4096,
                x + 8 <= usize::MAX,
                y + 16 <= usize::MAX,
                patterns@ == g,
                pattern == g[row as int],
                rgba@.take(4) == c,
                frame@ == paint_pixels(
                    f0,
                    |p: int|
                        glyph_pixel(p, h as int, g, x as int, y as int) && (p / 640 - y < row || (p / 640 - y == row && p % 640
                            - x < col)),
                    c,
                ),
            decreases 8 - col,
        {
            let set = (pattern & (0x80u8 >> (col as u8))) != 0;
            let px = x + col;
            let py = y + row;
            if set && px < 640 && py < h {
                fill_rect(frame, 640, h, px, py, px + 1, py + 1, rgba, 4);
                proof {
                    lemma_paint_union(
                        f0,
                        |p: int|
                            glyph_pixel(p, h as int, g, x as int, y as int) && (p / 640 - y < row || (p / 640 - y == row && p
                                % 640 - x < col)),
                        |p: int| in_rect(p, 640, h as int, px as int, py as int, px + 1, py + 1),
                        |p: int|
                            glyph_pixel(p, h as int, g, x as int, y as int) && (p / 640 - y < row || (p / 640 - y == row && p
                                % 640 - x < col + 1)),
                        c,
                    );
                }
            } else {
                proof {
                    lemma_paint_same(
                        f0,
                        |p: int|
                            glyph_pixel(p, h as int, g, x as int, y as int) && (p / 640 - y < row || (p / 640 - y == row && p
                                % 640 - x < col)),
                        |p: int|
                            glyph_pixel(p, h as int, g, x as int, y as int) && (p / 640 - y < row || (p / 640 - y == row && p
                                % 640 - x < col + 1)),
                        c,
                    );
                }
            }
            col = col + 1;
        }
        proof {
            lemma_paint_same(
                f0,
                |p: int|
                    glyph_pixel(p, h as int, g, x as int, y as int) && (p / 640 - y < row || (p / 640 - y == row && p % 640 - x
                        < 8)),
                |p: int| glyph_pixel(p, h as int, g, x as int, y as int) && p / 640 - y < row + 1,
                c,
            );
        }
        row = row + 1;
    }
    proof {
        lemma_paint_same(
            f0,
            |p: int| glyph_pixel(p, h as int, g, x as int, y as int) && p / 640 - y < 16,
            |p: int| glyph_pixel(p, h as int, g, x as int, y as int),
            c,
        );
    }
}

/// Draws a text with the font into a window `h` pixels high (see
/// `paint_text`), inverted if selected.
pub fn draw_text(frame: &mut [u8], h: usize, text: &str, x: usize, y: usize, color: [u8; 3], selected: bool)
    requires
        h <= 4096,
        x + 8 <= usize::MAX,
        y + 16 <= usize::MAX,
    ensures
        final(frame)@ == paint_text(
            old(frame)@, h as int,
            text@,
            x as int,
            y as int,
            if selected { inverted(color) } else { color },
        ),
{
    let chars = to_chars(text);
    let final_color = if selected {
        [255 - color[0], 255 - color[1], 255 - color[2]]
    } else {
        color
    };
    let ghost target = paint_text(frame@, h as int, text@, x as int, y as int, final_color);
    assert(text@.skip(0) =~= text@);
    let mut current_x = x;
    let mut i: usize = 0;
    while i < chars.len() && current_x + 8 <= 640 && y + 16 <= h
        invariant
            chars@ == text@,
            i <= chars.len(),
            x <= current_x,
            h <= 4096,
            current_x + 8 <= usize::MAX,
            y + 16 <= usize::MAX,
            target == paint_text(frame@, h as int, text@.skip(i as int), current_x as int, y as int, final_color),
        decreases chars.len() - i,
    {
        assert(text@.skip(i as int)[0] == chars@[i as int]);
        assert(text@.skip(i as int).drop_first() =~= text@.skip(i + 1));
        draw_simple_char(frame, h, chars[i], current_x, y, final_color);
        current_x = current_x + 8;
        i = i + 1;
    }
    proof {
        if i >= chars.len() {
            assert(text@.skip(i as int) =~= Seq::<char>::empty());
        }
    }
}

/// Fills a rectangle of the window with the editor's translucent dark grey.
pub(crate) fn draw_menu_background(frame: &mut [u8], x: usize, y: usize, width: usize, height: usize)
    requires
        x + width <= usize::MAX,
        y + height <= usize::MAX,
    ensures
        final(frame)@ == paint(old(frame)@, 640, 480, x as int, y as int, x + width, y + height, seq![40u8, 40, 40, 220]),
{
    let c: [u8; 4] = [40, 40, 40, 220];
    assert(c@.take(4) =~= seq![40u8, 40, 40, 220]);
    fill_rect(frame, 640, 480, x, y, x + width, y + height, c, 4);
}

/// The one-pixel outline of a rectangle.
pub open spec fn outline_pixel(p: int, w: int, h: int, x: int, y: int, width: int, height: int) -> bool {
    ||| in_rect(p, w, h, x, y, x + width, y + 1)
    ||| in_rect(p, w, h, x, y + height - 1, x + width, y + height)
    ||| in_rect(p, w, h, x, y, x + 1, y + height)
    ||| in_rect(p, w, h, x + width - 1, y, x + width, y + height)
}

/// Draws the one-pixel outline of a rectangle of the window with the first
/// `n` channels of `color`.
pub(crate) fn draw_outline(frame: &mut [u8], x: usize, y: usize, width: usize, height: usize, color: [u8; 4], n: usize)
    requires
        width > 0,
        height > 0,
        n == 3 || n == 4,
        x + width <= usize::MAX,
        y + height <= usize::MAX,
    ensures
        final(frame)@ == paint_pixels(
            old(frame)@,
            |p: int| outline_pixel(p, 640, 480, x as int, y as int, width as int, height as int),
            color@.take(n as int),
        ),
{
    let ghost f0 = frame@;
    let ghost c = color@.take(n as int);
    fill_rect(frame, 640, 480, x, y, x + width, y + 1, color, n);
    fill_rect(frame, 640, 480, x, y + height - 1, x + width, y + height, color, n);
    fill_rect(frame, 640, 480, x, y, x + 1, y + height, color, n);
    fill_rect(frame, 640, 480, x + width - 1, y, x + width, y + height, color, n);
    proof {
        let top = |p: int| in_rect(p, 640, 480, x as int, y as int, x + width, y + 1);
        let bottom = |p: int| in_rect(p, 640, 480, x as int, y + height - 1, x + width, y + height);
        let left = |p: int| in_rect(p, 640, 480, x as int, y as int, x + 1, y + height);
        let right = |p: int| in_rect(p, 640, 480, x + width - 1, y as int, x + width, y + height);
        let tb = |p: int| top(p) || bottom(p);
        let tbl = |p: int| top(p) || bottom(p) || left(p);
        lemma_paint_union(f0, top, bottom, tb, c);
        lemma_paint_union(f0, tb, left, tbl, c);
        lemma_paint_union(
            f0,
            tbl,
            right,
            |p: int| outline_pixel(p, 640, 480, x as int, y as int, width as int, height as int),
            c,
        );
    }
}

/// A name for `char::is_numeric`: whether a character's general category is
/// one of those for numbers.
pub uninterp spec fn numeric_char(c: char) -> bool;

/// `char::is_numeric`.
#[verifier::external_body]
fn is_numeric_char(c: char) -> (r: bool)
    ensures
        r == numeric_char(c),
{
    c.is_numeric()
}

pub open spec fn is_keyword(w: Seq<char>) -> bool {
    w == "def"@ || w == "if"@ || w == "set"@ || w == "and"@ || w == "then"@ || w == "return"@ || w == "end"@
        || w == "create"@ || w == "with"@
}

pub open spec fn mentions_color(w: Seq<char>) -> bool {
    contains(w, "c_red"@) || contains(w, "c_green"@) || contains(w, "c_blue"@) || contains(w, "c_yellow"@)
        || contains(w, "c_cyan"@) || contains(w, "c_magenta"@)
}

pub open spec fn has_numeric(w: Seq<char>) -> bool {
    exists|i: int| 0 <= i < w.len() && numeric_char(#[trigger] w[i])
}

/// The colour a word of program text is shown in: keywords blue, colour
/// references orange, words with a digit green, `self`, `hits` and `times`
/// yellow, the rest white.
pub open spec fn word_color(w: Seq<char>) -> [u8; 3] {
    if is_keyword(w) {
        [100, 200, 255]
    } else if mentions_color(w) {
        [255, 150, 100]
    } else if has_numeric(w) {
        [150, 255, 150]
    } else if w == "self"@ || w == "hits"@ || w == "times"@ {
        [255, 200, 100]
    } else {
        [255, 255, 255]
    }
}

/// The frame with the words from `i` on drawn from `x`, each in its colour
/// and followed by the width of a space, a space drawn between them.
pub open spec fn paint_words(f: Seq<u8>, ws: Seq<Seq<char>>, i: int, x: int, y: int) -> Seq<u8>
    decreases ws.len() - i,
{
    if i < 0 || i >= ws.len() {
        f
    } else {
        let f1 = paint_text(f, 480, ws[i], x, y, word_color(ws[i]));
        let next_x = x + byte_len(ws[i]) * 8 + 8;
        let f2 = if i < ws.len() - 1 {
            paint_text(f1, 480, " "@, next_x - 8, y, [255u8, 255, 255])
        } else {
            f1
        };
        paint_words(f2, ws, i + 1, next_x, y)
    }
}

fn word_color_exec(w: &str) -> (r: [u8; 3])
    ensures
        r == word_color(w@),
{
    if str_eq(w, "def") || str_eq(w, "if") || str_eq(w, "set") || str_eq(w, "and") || str_eq(w, "then") || str_eq(
        w,
        "return",
    ) || str_eq(w, "end") || str_eq(w, "create") || str_eq(w, "with") {
        return [100, 200, 255];
    }
    if contains_exec(w, "c_red") || contains_exec(w, "c_green") || contains_exec(w, "c_blue") || contains_exec(
        w,
        "c_yellow",
    ) || contains_exec(w, "c_cyan") || contains_exec(w, "c_magenta") {
        return [255, 150, 100];
    }
    let cs = to_chars(w);
    let mut i: usize = 0;
    while i < cs.len()
        invariant
            cs@ == w@,
            i <= cs.len(),
            !is_keyword(w@),
            !mentions_color(w@),
            forall|j: int| 0 <= j < i ==> !numeric_char(#[trigger] w@[j]),
        decreases cs.len() - i,
    {
        if is_numeric_char(cs[i]) {
            assert(w@[i as int] == cs@[i as int]);
            assert(has_numeric(w@));
            return [150, 255, 150];
        }
        i = i + 1;
    }
    if str_eq(w, "self") || str_eq(w, "hits") || str_eq(w, "times") {
        [255, 200, 100]
    } else {
        [255, 255, 255]
    }
}

/// The bytes of the words of a sequence, all together.
pub open spec fn words_bytes(ws: Seq<Seq<char>>) -> int
    decreases ws.len(),
{
    if ws.len() == 0 {
        0
    } else {
        byte_len(ws[0]) + words_bytes(ws.drop_first())
    }
}

proof fn lemma_encode_concat(a: Seq<char>, b: Seq<char>)
    ensures
        encode_utf8(a + b) == encode_utf8(a) + encode_utf8(b),
    decreases a.len(),
{
    if a.len() == 0 {
        assert(a + b =~= b);
        assert(encode_utf8(a) + encode_utf8(b) =~= encode_utf8(b));
    } else {
        assert((a + b)[0] == a[0]);
        assert((a + b).drop_first() =~= a.drop_first() + b);
        lemma_encode_concat(a.drop_first(), b);
        assert(encode_utf8(a + b) =~= encode_utf8(a) + encode_utf8(b));
    }
}

proof fn lemma_byte_len_nonempty(w: Seq<char>)
    ensures
        w.len() > 0 ==> byte_len(w) >= 1,
        byte_len(w) >= 0,
{
}

proof fn lemma_words_bytes_nonneg(ws: Seq<Seq<char>>)
    ensures
        words_bytes(ws) >= 0,
    decreases ws.len(),
{
    if ws.len() > 0 {
        lemma_byte_len_nonempty(ws[0]);
        lemma_words_bytes_nonneg(ws.drop_first());
    }
}

/// The words of `s.skip(i)` hold no more bytes than it does.
proof fn lemma_words_from_bytes(s: Seq<char>, i: int)
    requires
        0 <= i <= s.len(),
    ensures
        words_bytes(words_from(s, i)) <= byte_len(s.subrange(i, s.len() as int)),
        forall|k: int| 0 <= k < words_from(s, i).len() ==> #[trigger] words_from(s, i)[k].len() > 0,
    decreases s.len() - i,
{
    let a = skip_ws(s, i);
    lemma_skip_ws_bounds(s, i);
    if i >= s.len() || a >= s.len() {
        lemma_byte_len_nonempty(s.subrange(i, s.len() as int));
    } else {
        let b = skip_non_ws(s, a);
        lemma_skip_non_ws_bounds(s, a + 1);
        assert(b > a);
        let w = s.subrange(a, b);
        lemma_words_from_bytes(s, b);
        let ws = words_from(s, i);
        assert(ws == seq![w] + words_from(s, b));
        assert(ws.drop_first() =~= words_from(s, b));
        assert(ws[0] == w);
        let tail = s.subrange(i, s.len() as int);
        assert(tail =~= s.subrange(i, a) + (w + s.subrange(b, s.len() as int)));
        lemma_encode_concat(s.subrange(i, a), w + s.subrange(b, s.len() as int));
        lemma_encode_concat(w, s.subrange(b, s.len() as int));
        lemma_byte_len_nonempty(s.subrange(i, a));
        assert forall|k: int| 0 <= k < ws.len() implies #[trigger] ws[k].len() > 0 by {
            if k > 0 {
                assert(ws[k] == words_from(s, b)[k - 1]);
            }
        }
    }
}

impl ProgramEditor {
    /// Draws a line of program text word by word from `(x, y)` (see `paint_words`).
    pub fn draw_syntax_highlighted_text(&self, frame: &mut [u8], text: &str, x: usize, y: usize)
        requires
            x + 16 * byte_len(text@) + 8 <= usize::MAX,
            y + 16 <= usize::MAX,
        ensures
            final(frame)@ == paint_words(old(frame)@, words(text@), 0, x as int, y as int),
    {
        let ws = words_exec(text);
        let ghost wv = views(ws@);
        let ghost target = paint_words(frame@, wv, 0, x as int, y as int);
        let mut current_x = x;
        let mut i: usize = 0;
        proof {
            lemma_words_from_bytes(text@, 0);
            assert(text@.subrange(0, text@.len() as int) =~= text@);
            assert(wv.skip(0) =~= wv);
        }
        while i < ws.len()
            invariant
                wv == views(ws@),
                wv == words(text@),
                i <= ws.len(),
                forall|k: int| 0 <= k < wv.len() ==> #[trigger] wv[k].len() > 0,
                current_x + 16 * words_bytes(wv.skip(i as int)) <= x + 16 * byte_len(text@),
                x + 16 * byte_len(text@) + 8 <= usize::MAX,
                y + 16 <= usize::MAX,
                target == paint_words(frame@, wv, i as int, current_x as int, y as int),
            decreases ws.len() - i,
        {
            let word = ws[i];
            assert(wv[i as int] == word@);
            let blen = word.len();
            proof {
                let rest = wv.skip(i as int);
                assert(rest[0] == wv[i as int]);
                assert(rest.drop_first() =~= wv.skip(i + 1));
                lemma_words_bytes_nonneg(wv.skip(i + 1));
                lemma_byte_len_nonempty(word@);
            }
            draw_text(frame, 480, word, current_x, y, word_color_exec(word), false);
            current_x = current_x + blen * 8 + 8;
            if i < ws.len() - 1 {
                draw_text(frame, 480, " ", current_x - 8, y, [255, 255, 255], false);
            }
            i = i + 1;
        }
    }
}


/// The label of line number `n`: its digits right-aligned in two columns.
pub open spec fn line_label(n: nat) -> Seq<char> {
    if n < 10 {
        " "@ + nat_digits(n)
    } else {
        nat_digits(n)
    }
}

/// The editor's status line: cursor line and column counted from one, and
/// the number of lines.
pub open spec fn status_text(line: nat, col: nat, n: nat) -> Seq<char> {
    "Line: "@ + nat_digits(line + 1) + " | Column: "@ + nat_digits(col + 1) + " | Lines: "@ + nat_digits(n)
}

/// A line split at the cursor's byte offset `col`; a cursor past the end
/// leaves the whole line before it.
pub open spec fn split_at_cursor(l: Seq<char>, col: int) -> (Seq<char>, Seq<char>) {
    if col <= byte_len(l) {
        let b = encode_utf8(l);
        (decode_utf8(b.take(col)), decode_utf8(b.skip(col)))
    } else {
        (l, seq![])
    }
}

/// The cursor line at height `y`: its background lightened, the text before
/// the cursor, a white bar two pixels wide, and the text after it.
pub open spec fn paint_cursor_line(f: Seq<u8>, l: Seq<char>, y: int, col: int) -> Seq<u8> {
    let f1 = brighten(f, 640, 480, 80, y, 600, y + 16, seq![15u8, 15, 25]);
    let before = split_at_cursor(l, col).0;
    let after = split_at_cursor(l, col).1;
    let f2 = paint_words(f1, words(before), 0, 80, y);
    let cx = 80 + 8 * byte_len(before);
    let f3 = paint(f2, 640, 480, cx, y, cx + 2, y + 16, seq![255u8, 255, 255, 255]);
    if after.len() > 0 {
        paint_words(f3, words(after), 0, cx + 3, y)
    } else {
        f3
    }
}

/// Line `i` of the program with its number, 18 pixels below the one before.
pub open spec fn paint_line(f: Seq<u8>, l: Seq<char>, i: int, cursor_line: int, col: int) -> Seq<u8> {
    let y = 80 + 18 * i;
    if i == cursor_line {
        paint_cursor_line(paint_text(f, 480, line_label((i + 1) as nat), 38, y, [255u8, 255, 100]), l, y, col)
    } else {
        paint_words(paint_text(f, 480, line_label((i + 1) as nat), 38, y, [120u8, 120, 120]), words(l), 0, 80, y)
    }
}

/// The lines of the program from `k` on.
pub open spec fn paint_lines(f: Seq<u8>, lines: Seq<Seq<char>>, k: int, cursor_line: int, col: int) -> Seq<u8>
    decreases lines.len() - k,
{
    if k < 0 || k >= lines.len() {
        f
    } else {
        paint_lines(paint_line(f, lines[k], k, cursor_line, col), lines, k + 1, cursor_line, col)
    }
}

/// The quick reference panel from height `hy` on.
pub open spec fn paint_help(f: Seq<u8>, hy: int) -> Seq<u8> {
    let key = [100u8, 200, 255];
    let note = [150u8, 150, 150];
    let f1 = paint(f, 640, 480, 35, hy, 605, hy + 180, seq![25u8, 25, 35, 255]);
    let f2 = paint_text(f1, 480, "Quick Reference - Programming Language:"@, 40, hy + 5, [200u8, 200, 255]);
    let f3 = paint_text(f2, 480, "def function_name"@, 45, hy + 25, key);
    let f4 = paint_text(f3, 480, "  Define a new function"@, 180, hy + 25, note);
    let f5 = paint_text(f4, 480, "if c_red hits self N times"@, 45, hy + 45, key);
    let f6 = paint_text(f5, 480, "  Collision detection"@, 230, hy + 45, note);
    let f7 = paint_text(f6, 480, "set speed/direction value"@, 45, hy + 65, key);
    let f8 = paint_text(f7, 480, "  Modify movement"@, 210, hy + 65, note);
    let f9 = paint_text(f8, 480, "and"@, 45, hy + 85, key);
    let f10 = paint_text(f9, 480, "  Chain instructions"@, 80, hy + 85, note);
    let f11 = paint_text(f10, 480, "then"@, 45, hy + 105, key);
    let f12 = paint_text(f11, 480, "  Continue to next function"@, 90, hy + 105, note);
    let f13 = paint_text(f12, 480, "create square(x, y) with def..."@, 45, hy + 125, key);
    let f14 = paint_text(f13, 480, "  Create programmed square"@, 230, hy + 125, note);
    let f15 = paint_text(f14, 480, "end"@, 45, hy + 145, key);
    paint_text(f15, 480, "  Close function definition"@, 80, hy + 145, note)
}

/// The whole editor window: background and outline, title and
/// instructions, the numbered lines, the quick reference and the status.
pub open spec fn paint_editor(
    f: Seq<u8>,
    title: Seq<char>,
    instructions: Seq<char>,
    lines: Seq<Seq<char>>,
    cursor_line: int,
    col: int,
) -> Seq<u8> {
    let f1 = paint(f, 640, 480, 30, 30, 610, 450, seq![40u8, 40, 40, 220]);
    let f2 = paint_pixels(f1, |p: int| outline_pixel(p, 640, 480, 30, 30, 580, 420), seq![100u8, 100, 100, 255]);
    let f3 = paint_text(f2, 480, title, 40, 35, [255u8, 255, 255]);
    let f4 = paint_text(f3, 480, instructions, 40, 55, [180u8, 180, 180]);
    let f5 = paint(f4, 640, 480, 35, 75, 70, 440, seq![40u8, 40, 50, 255]);
    let f6 = paint_lines(f5, lines, 0, cursor_line, col);
    let f7 = paint_help(f6, 105 + 18 * lines.len() as int);
    paint_text(f7, 480, status_text(cursor_line as nat, col as nat, lines.len()), 40, 430, [180u8, 180, 180])
}

/// The text of a line number (see `line_label`).
fn line_label_exec(n: u64) -> (r: String)
    ensures
        r@ == line_label(n as nat),
{
    let d = uint_to_text(n);
    if n < 10 {
        joined(" ", d.as_str())
    } else {
        d
    }
}

impl ProgramEditor {
    /// Draws line `i` of the program (see `paint_line`).
    fn draw_line(&self, frame: &mut [u8], i: usize)
        requires
            i < self.program_text.len(),
            i * 18 + 1000 <= usize::MAX,
            16 * byte_len(self.program_text@[i as int]@) + 1000 <= usize::MAX,
            i == self.cursor_line && self.cursor_col <= byte_len(self.program_text@[i as int]@) ==> is_char_boundary(
                encode_utf8(self.program_text@[i as int]@),
                self.cursor_col as int,
            ),
        ensures
            final(frame)@ == paint_line(
                old(frame)@,
                self.program_text@[i as int]@,
                i as int,
                self.cursor_line as int,
                self.cursor_col as int,
            ),
    {
        let y = 80 + i * 18;
        let label = line_label_exec((i + 1) as u64);
        let line = self.program_text[i].as_str();
        if i == self.cursor_line {
            draw_text(frame, 480, label.as_str(), 38, y, [255, 255, 100], false);
            brighten_rect(frame, 640, 480, 80, y, 600, y + 16, [15, 15, 25]);
            assert([15u8, 15, 25]@ =~= seq![15u8, 15, 25]);
            let (before, after) = if self.cursor_col <= line.len() {
                let parts = line.split_at(self.cursor_col);
                proof {
                    vstd::utf8::encode_utf8_decode_utf8(parts.0@);
                    vstd::utf8::encode_utf8_decode_utf8(parts.1@);
                }
                parts
            } else {
                proof {
                    reveal_strlit("");
                }
                (line, "")
            };
            proof {
                vstd::utf8::encode_utf8_decode_utf8(before@);
                vstd::utf8::encode_utf8_decode_utf8(after@);
            }
            assert(before@ == split_at_cursor(line@, self.cursor_col as int).0);
            assert(before.len() <= line.len());
            self.draw_syntax_highlighted_text(frame, before, 80, y);
            let cursor_x = 80 + before.len() * 8;
            let white: [u8; 4] = [255, 255, 255, 255];
            assert(white@.take(4) =~= seq![255u8, 255, 255, 255]);
            fill_rect(frame, 640, 480, cursor_x, y, cursor_x + 2, y + 16, white, 4);
            if !after.is_empty() {
                assert(after@ == split_at_cursor(line@, self.cursor_col as int).1);
                assert(after.len() <= line.len());
                self.draw_syntax_highlighted_text(frame, after, cursor_x + 3, y);
            }
        } else {
            draw_text(frame, 480, label.as_str(), 38, y, [120, 120, 120], false);
            self.draw_syntax_highlighted_text(frame, line, 80, y);
        }
    }
}

impl ProgramEditor {
    /// Draws the editor window over the frame (see `paint_editor`).
    pub fn draw_program_editor(&self, frame: &mut [u8], title: &str, instructions: &str)
        requires
            self.program_text.len() * 18 + 1000 <= usize::MAX,
            forall|i: int|
                0 <= i < self.program_text.len() ==> 16 * byte_len(#[trigger] self.program_text@[i]@) + 1000
                    <= usize::MAX,
            self.cursor_line < usize::MAX,
            self.cursor_col < usize::MAX,
            self.cursor_line < self.program_text.len() && self.cursor_col <= byte_len(
                self.program_text@[self.cursor_line as int]@,
            ) ==> is_char_boundary(
                encode_utf8(self.program_text@[self.cursor_line as int]@),
                self.cursor_col as int,
            ),
        ensures
            final(frame)@ == paint_editor(
                old(frame)@,
                title@,
                instructions@,
                texts_view(self.program_text@),
                self.cursor_line as int,
                self.cursor_col as int,
            ),
    {
        let ghost lines = texts_view(self.program_text@);
        draw_menu_background(frame, 30, 30, 580, 420);
        let grey: [u8; 4] = [100, 100, 100, 255];
        assert(grey@.take(4) =~= seq![100u8, 100, 100, 255]);
        draw_outline(frame, 30, 30, 580, 420, grey, 4);
        draw_text(frame, 480, title, 40, 35, [255, 255, 255], false);
        draw_text(frame, 480, instructions, 40, 55, [180, 180, 180], false);
        let panel: [u8; 4] = [40, 40, 50, 255];
        assert(panel@.take(4) =~= seq![40u8, 40, 50, 255]);
        fill_rect(frame, 640, 480, 35, 75, 70, 440, panel, 4);
        let ghost f5 = frame@;
        let n = self.program_text.len();
        let mut i: usize = 0;
        while i < n
            invariant
                n == self.program_text.len(),
                lines == texts_view(self.program_text@),
                i <= n,
                n * 18 + 1000 <= usize::MAX,
                forall|k: int| 0 <= k < n ==> 16 * byte_len(#[trigger] self.program_text@[k]@) + 1000 <= usize::MAX,
                self.cursor_line < n && self.cursor_col <= byte_len(self.program_text@[self.cursor_line as int]@)
                    ==> is_char_boundary(
                    encode_utf8(self.program_text@[self.cursor_line as int]@),
                    self.cursor_col as int,
                ),
                paint_lines(f5, lines, 0, self.cursor_line as int, self.cursor_col as int) == paint_lines(
                    frame@,
                    lines,
                    i as int,
                    self.cursor_line as int,
                    self.cursor_col as int,
                ),
            decreases n - i,
        {
            assert(lines[i as int] == self.program_text@[i as int]@);
            self.draw_line(frame, i);
            i = i + 1;
        }
        let hy = 105 + n * 18;
        let band: [u8; 4] = [25, 25, 35, 255];
        assert(band@.take(4) =~= seq![25u8, 25, 35, 255]);
        fill_rect(frame, 640, 480, 35, hy, 605, hy + 180, band, 4);
        let key: [u8; 3] = [100, 200, 255];
        let note: [u8; 3] = [150, 150, 150];
        draw_text(frame, 480, "Quick Reference - Programming Language:", 40, hy + 5, [200, 200, 255], false);
        draw_text(frame, 480, "def function_name", 45, hy + 25, key, false);
        draw_text(frame, 480, "  Define a new function", 180, hy + 25, note, false);
        draw_text(frame, 480, "if c_red hits self N times", 45, hy + 45, key, false);
        draw_text(frame, 480, "  Collision detection", 230, hy + 45, note, false);
        draw_text(frame, 480, "set speed/direction value", 45, hy + 65, key, false);
        draw_text(frame, 480, "  Modify movement", 210, hy + 65, note, false);
        draw_text(frame, 480, "and", 45, hy + 85, key, false);
        draw_text(frame, 480, "  Chain instructions", 80, hy + 85, note, false);
        draw_text(frame, 480, "then", 45, hy + 105, key, false);
        draw_text(frame, 480, "  Continue to next function", 90, hy + 105, note, false);
        draw_text(frame, 480, "create square(x, y) with def...", 45, hy + 125, key, false);
        draw_text(frame, 480, "  Create programmed square", 230, hy + 125, note, false);
        draw_text(frame, 480, "end", 45, hy + 145, key, false);
        draw_text(frame, 480, "  Close function definition", 80, hy + 145, note, false);
        let first = joined3("Line: ", uint_to_text((self.cursor_line + 1) as u64).as_str(), " | Column: ");
        let status = joined4(
            first.as_str(),
            uint_to_text((self.cursor_col + 1) as u64).as_str(),
            " | Lines: ",
            uint_to_text(n as u64).as_str(),
        );
        draw_text(frame, 480, status.as_str(), 40, 430, [180, 180, 180], false);
    }
}

// ---------------------------------------------------------------------------
// What the editor leaves alone

/// `g` is `f` painted within the 640 × 480 window: as long, and alike in
/// every byte past the window's pixels.
pub open spec fn kept_outside(f: Seq<u8>, g: Seq<u8>) -> bool {
    &&& g.len() == f.len()
    &&& forall|k: int| 640 * 480 * 4 <= k < f.len() ==> #[trigger] g[k] == f[k]
}

proof fn lemma_kept_trans(f: Seq<u8>, g: Seq<u8>, h: Seq<u8>)
    requires
        kept_outside(f, g),
        kept_outside(g, h),
    ensures
        kept_outside(f, h),
{
    assert forall|k: int| 640 * 480 * 4 <= k < f.len() implies #[trigger] h[k] == f[k] by {
        assert(h[k] == g[k]);
    }
}

proof fn lemma_paint_in_window(f: Seq<u8>, covered: spec_fn(int) -> bool, c: Seq<u8>)
    requires
        forall|p: int| #[trigger] covered(p) ==> p / 640 < 480,
    ensures
        kept_outside(f, paint_pixels(f, covered, c)),
{
    let g = paint_pixels(f, covered, c);
    assert forall|k: int| 640 * 480 * 4 <= k < f.len() implies #[trigger] g[k] == f[k] by {
        assert(k / 4 >= 307200);
        assert((k / 4) / 640 >= 480);
        assert(!covered(k / 4));
    }
}

proof fn lemma_brighten_in_window(f: Seq<u8>, x0: int, y0: int, x1: int, y1: int, d: Seq<u8>)
    ensures
        kept_outside(f, brighten(f, 640, 480, x0, y0, x1, y1, d)),
{
    let g = brighten(f, 640, 480, x0, y0, x1, y1, d);
    assert forall|k: int| 640 * 480 * 4 <= k < f.len() implies #[trigger] g[k] == f[k] by {
        assert(k / 4 >= 307200);
        assert((k / 4) / 640 >= 480);
    }
}

proof fn lemma_rect_in_window(f: Seq<u8>, x0: int, y0: int, x1: int, y1: int, c: Seq<u8>)
    ensures
        kept_outside(f, paint(f, 640, 480, x0, y0, x1, y1, c)),
{
    lemma_paint_in_window(f, |p: int| in_rect(p, 640, 480, x0, y0, x1, y1), c);
}

proof fn lemma_text_in_window(f: Seq<u8>, s: Seq<char>, x: int, y: int, c: [u8; 3])
    ensures
        kept_outside(f, paint_text(f, 480, s, x, y, c)),
        y + 16 > 480 ==> paint_text(f, 480, s, x, y, c) == f,
    decreases s.len(),
{
    if s.len() == 0 || x + 8 > 640 || y + 16 > 480 {
    } else {
        let g = paint_char(f, 480, s[0], x, y, c);
        lemma_paint_in_window(f, |p: int| glyph_pixel(p, 480, glyph(s[0]), x, y), opaque(c));
        lemma_text_in_window(g, s.drop_first(), x + 8, y, c);
        lemma_kept_trans(f, g, paint_text(g, 480, s.drop_first(), x + 8, y, c));
    }
}

proof fn lemma_words_in_window(f: Seq<u8>, ws: Seq<Seq<char>>, i: int, x: int, y: int)
    ensures
        kept_outside(f, paint_words(f, ws, i, x, y)),
        y + 16 > 480 ==> paint_words(f, ws, i, x, y) == f,
    decreases ws.len() - i,
{
    if 0 <= i < ws.len() {
        let f1 = paint_text(f, 480, ws[i], x, y, word_color(ws[i]));
        let next_x = x + byte_len(ws[i]) * 8 + 8;
        let f2 = if i < ws.len() - 1 {
            paint_text(f1, 480, " "@, next_x - 8, y, [255u8, 255, 255])
        } else {
            f1
        };
        lemma_text_in_window(f, ws[i], x, y, word_color(ws[i]));
        lemma_text_in_window(f1, " "@, next_x - 8, y, [255u8, 255, 255]);
        lemma_kept_trans(f, f1, f2);
        lemma_words_in_window(f2, ws, i + 1, next_x, y);
        lemma_kept_trans(f, f2, paint_words(f2, ws, i + 1, next_x, y));
    }
}

/// Drawing a line of text with its words coloured changes only the bytes of
/// the 640 × 480 window's pixels and keeps the frame's length; it changes
/// nothing where the line would not fit above the window's bottom, or where
/// the text has no word.
pub proof fn lemma_highlighted_text_clipped(f: Seq<u8>, text: Seq<char>, x: int, y: int)
    ensures
        kept_outside(f, paint_words(f, words(text), 0, x, y)),
        y + 16 > 480 || words(text).len() == 0 ==> paint_words(f, words(text), 0, x, y) == f,
{
    lemma_words_in_window(f, words(text), 0, x, y);
}

proof fn lemma_line_in_window(f: Seq<u8>, l: Seq<char>, i: int, cursor_line: int, col: int)
    ensures
        kept_outside(f, paint_line(f, l, i, cursor_line, col)),
{
    let y = 80 + 18 * i;
    if i == cursor_line {
        let f0 = paint_text(f, 480, line_label((i + 1) as nat), 38, y, [255u8, 255, 100]);
        lemma_text_in_window(f, line_label((i + 1) as nat), 38, y, [255u8, 255, 100]);
        let f1 = brighten(f0, 640, 480, 80, y, 600, y + 16, seq![15u8, 15, 25]);
        lemma_brighten_in_window(f0, 80, y, 600, y + 16, seq![15u8, 15, 25]);
        let before = split_at_cursor(l, col).0;
        let after = split_at_cursor(l, col).1;
        let f2 = paint_words(f1, words(before), 0, 80, y);
        lemma_words_in_window(f1, words(before), 0, 80, y);
        let cx = 80 + 8 * byte_len(before);
        let f3 = paint(f2, 640, 480, cx, y, cx + 2, y + 16, seq![255u8, 255, 255, 255]);
        lemma_rect_in_window(f2, cx, y, cx + 2, y + 16, seq![255u8, 255, 255, 255]);
        lemma_words_in_window(f3, words(after), 0, cx + 3, y);
        lemma_kept_trans(f, f0, f1);
        lemma_kept_trans(f, f1, f2);
        lemma_kept_trans(f, f2, f3);
        lemma_kept_trans(f, f3, paint_words(f3, words(after), 0, cx + 3, y));
    } else {
        let f0 = paint_text(f, 480, line_label((i + 1) as nat), 38, y, [120u8, 120, 120]);
        lemma_text_in_window(f, line_label((i + 1) as nat), 38, y, [120u8, 120, 120]);
        lemma_words_in_window(f0, words(l), 0, 80, y);
        lemma_kept_trans(f, f0, paint_words(f0, words(l), 0, 80, y));
    }
}

proof fn lemma_lines_in_window(f: Seq<u8>, lines: Seq<Seq<char>>, k: int, cursor_line: int, col: int)
    ensures
        kept_outside(f, paint_lines(f, lines, k, cursor_line, col)),
    decreases lines.len() - k,
{
    if 0 <= k < lines.len() {
        let g = paint_line(f, lines[k], k, cursor_line, col);
        lemma_line_in_window(f, lines[k], k, cursor_line, col);
        lemma_lines_in_window(g, lines, k + 1, cursor_line, col);
        lemma_kept_trans(f, g, paint_lines(g, lines, k + 1, cursor_line, col));
    }
}

proof fn lemma_text_step(f: Seq<u8>, g: Seq<u8>, s: Seq<char>, x: int, y: int, c: [u8; 3])
    requires
        kept_outside(f, g),
    ensures
        kept_outside(f, paint_text(g, 480, s, x, y, c)),
{
    lemma_text_in_window(g, s, x, y, c);
    lemma_kept_trans(f, g, paint_text(g, 480, s, x, y, c));
}

proof fn lemma_help_in_window(f: Seq<u8>, hy: int)
    ensures
        kept_outside(f, paint_help(f, hy)),
{
    let key = [100u8, 200, 255];
    let note = [150u8, 150, 150];
    let f1 = paint(f, 640, 480, 35, hy, 605, hy + 180, seq![25u8, 25, 35, 255]);
    lemma_rect_in_window(f, 35, hy, 605, hy + 180, seq![25u8, 25, 35, 255]);
    let f2 = paint_text(f1, 480, "Quick Reference - Programming Language:"@, 40, hy + 5, [200u8, 200, 255]);
    lemma_text_step(f, f1, "Quick Reference - Programming Language:"@, 40, hy + 5, [200u8, 200, 255]);
    let f3 = paint_text(f2, 480, "def function_name"@, 45, hy + 25, key);
    lemma_text_step(f, f2, "def function_name"@, 45, hy + 25, key);
    let f4 = paint_text(f3, 480, "  Define a new function"@, 180, hy + 25, note);
    lemma_text_step(f, f3, "  Define a new function"@, 180, hy + 25, note);
    let f5 = paint_text(f4, 480, "if c_red hits self N times"@, 45, hy + 45, key);
    lemma_text_step(f, f4, "if c_red hits self N times"@, 45, hy + 45, key);
    let f6 = paint_text(f5, 480, "  Collision detection"@, 230, hy + 45, note);
    lemma_text_step(f, f5, "  Collision detection"@, 230, hy + 45, note);
    let f7 = paint_text(f6, 480, "set speed/direction value"@, 45, hy + 65, key);
    lemma_text_step(f, f6, "set speed/direction value"@, 45, hy + 65, key);
    let f8 = paint_text(f7, 480, "  Modify movement"@, 210, hy + 65, note);
    lemma_text_step(f, f7, "  Modify movement"@, 210, hy + 65, note);
    let f9 = paint_text(f8, 480, "and"@, 45, hy + 85, key);
    lemma_text_step(f, f8, "and"@, 45, hy + 85, key);
    let f10 = paint_text(f9, 480, "  Chain instructions"@, 80, hy + 85, note);
    lemma_text_step(f, f9, "  Chain instructions"@, 80, hy + 85, note);
    let f11 = paint_text(f10, 480, "then"@, 45, hy + 105, key);
    lemma_text_step(f, f10, "then"@, 45, hy + 105, key);
    let f12 = paint_text(f11, 480, "  Continue to next function"@, 90, hy + 105, note);
    lemma_text_step(f, f11, "  Continue to next function"@, 90, hy + 105, note);
    let f13 = paint_text(f12, 480, "create square(x, y) with def..."@, 45, hy + 125, key);
    lemma_text_step(f, f12, "create square(x, y) with def..."@, 45, hy + 125, key);
    let f14 = paint_text(f13, 480, "  Create programmed square"@, 230, hy + 125, note);
    lemma_text_step(f, f13, "  Create programmed square"@, 230, hy + 125, note);
    let f15 = paint_text(f14, 480, "end"@, 45, hy + 145, key);
    lemma_text_step(f, f14, "end"@, 45, hy + 145, key);
    lemma_text_step(f, f15, "  Close function definition"@, 80, hy + 145, note);
}

/// Drawing the editor changes only the bytes of the 640 × 480 window's
/// pixels and keeps the frame's length.
pub proof fn lemma_editor_clipped(
    f: Seq<u8>,
    title: Seq<char>,
    instructions: Seq<char>,
    lines: Seq<Seq<char>>,
    cursor_line: int,
    col: int,
)
    ensures
        kept_outside(f, paint_editor(f, title, instructions, lines, cursor_line, col)),
{
    let f1 = paint(f, 640, 480, 30, 30, 610, 450, seq![40u8, 40, 40, 220]);
    lemma_rect_in_window(f, 30, 30, 610, 450, seq![40u8, 40, 40, 220]);
    let f2 = paint_pixels(f1, |p: int| outline_pixel(p, 640, 480, 30, 30, 580, 420), seq![100u8, 100, 100, 255]);
    lemma_paint_in_window(f1, |p: int| outline_pixel(p, 640, 480, 30, 30, 580, 420), seq![100u8, 100, 100, 255]);
    let f3 = paint_text(f2, 480, title, 40, 35, [255u8, 255, 255]);
    lemma_text_in_window(f2, title, 40, 35, [255u8, 255, 255]);
    let f4 = paint_text(f3, 480, instructions, 40, 55, [180u8, 180, 180]);
    lemma_text_in_window(f3, instructions, 40, 55, [180u8, 180, 180]);
    let f5 = paint(f4, 640, 480, 35, 75, 70, 440, seq![40u8, 40, 50, 255]);
    lemma_rect_in_window(f4, 35, 75, 70, 440, seq![40u8, 40, 50, 255]);
    let f6 = paint_lines(f5, lines, 0, cursor_line, col);
    lemma_lines_in_window(f5, lines, 0, cursor_line, col);
    let f7 = paint_help(f6, 105 + 18 * lines.len() as int);
    lemma_help_in_window(f6, 105 + 18 * lines.len() as int);
    let st = status_text(cursor_line as nat, col as nat, lines.len());
    lemma_text_in_window(f7, st, 40, 430, [180u8, 180, 180]);
    lemma_kept_trans(f, f1, f2);
    lemma_kept_trans(f, f2, f3);
    lemma_kept_trans(f, f3, f4);
    lemma_kept_trans(f, f4, f5);
    lemma_kept_trans(f, f5, f6);
    lemma_kept_trans(f, f6, f7);
    lemma_kept_trans(f, f7, paint_text(f7, 480, st, 40, 430, [180u8, 180, 180]));
}

} // verus!
