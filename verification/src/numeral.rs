//! Number syntax: which texts `str::parse` accepts for `f32`, `u32` and `i32`,
//! and the integers the latter two denote. The program language keeps
//! decimal numbers as their text; turning that text into a float is left to
//! the side that evaluates programs.
use vstd::prelude::*;
use crate::text::to_chars;

verus! {

pub open spec fn is_digit(c: char) -> bool {
    '0' <= c && c <= '9'
}

pub open spec fn all_digits(s: Seq<char>) -> bool {
    forall|i: int| 0 <= i < s.len() ==> is_digit(#[trigger] s[i])
}

pub open spec fn is_sign(c: char) -> bool {
    c == '+' || c == '-'
}

/// `s` without one leading sign character.
pub open spec fn unsigned_part(s: Seq<char>) -> Seq<char> {
    if s.len() > 0 && is_sign(s[0]) {
        s.drop_first()
    } else {
        s
    }
}

pub open spec fn ascii_lower(c: char) -> char {
    if 'A' <= c && c <= 'Z' {
        (((c as u8) + 32) as u8) as char
    } else {
        c
    }
}

pub open spec fn lower_all(s: Seq<char>) -> Seq<char> {
    s.map_values(|c: char| ascii_lower(c))
}

/// First position of `e` or `E`, or the length.
pub open spec fn exp_pos(s: Seq<char>, i: int) -> int
    decreases s.len() - i,
{
    if i < 0 || i >= s.len() {
        s.len() as int
    } else if s[i] == 'e' || s[i] == 'E' {
        i
    } else {
        exp_pos(s, i + 1)
    }
}

proof fn lemma_exp_pos(s: Seq<char>, i: int)
    requires
        0 <= i <= s.len(),
    ensures
        i <= exp_pos(s, i) <= s.len(),
        exp_pos(s, i) < s.len() ==> (s[exp_pos(s, i)] == 'e' || s[exp_pos(s, i)] == 'E'),
    decreases s.len() - i,
{
    if i < s.len() && !(s[i] == 'e' || s[i] == 'E') {
        lemma_exp_pos(s, i + 1);
    }
}

/// First position of `.`, or the length.
pub open spec fn dot_pos(s: Seq<char>, i: int) -> int
    decreases s.len() - i,
{
    if i < 0 || i >= s.len() {
        s.len() as int
    } else if s[i] == '.' {
        i
    } else {
        dot_pos(s, i + 1)
    }
}

/// `Digit+ | Digit+ '.' Digit* | Digit* '.' Digit+`
pub open spec fn is_mantissa(m: Seq<char>) -> bool {
    let d = dot_pos(m, 0);
    if d >= m.len() {
        m.len() > 0 && all_digits(m)
    } else {
        m.len() > 1 && all_digits(m.take(d)) && all_digits(m.skip(d + 1))
    }
}

/// `('e' | 'E') Sign? Digit+`
pub open spec fn is_exponent(x: Seq<char>) -> bool {
    x.len() > 0 && (x[0] == 'e' || x[0] == 'E') && unsigned_part(x.drop_first()).len() > 0
        && all_digits(unsigned_part(x.drop_first()))
}

pub open spec fn is_decimal(t: Seq<char>) -> bool {
    let k = exp_pos(t, 0);
    is_mantissa(t.take(k)) && (k >= t.len() || is_exponent(t.skip(k)))
}

/// The texts `str::parse::<f32>` accepts, after its documented grammar:
/// an optional sign, then `inf`, `infinity` or `nan` in any case, or a
/// decimal number with an optional exponent.
pub open spec fn is_float_text(s: Seq<char>) -> bool {
    let t = unsigned_part(s);
    ||| lower_all(t) == seq!['i', 'n', 'f']
    ||| lower_all(t) == seq!['i', 'n', 'f', 'i', 'n', 'i', 't', 'y']
    ||| lower_all(t) == seq!['n', 'a', 'n']
    ||| is_decimal(t)
}

/// The number the decimal digits `d` denote.
pub open spec fn digits_value(d: Seq<char>) -> nat
    decreases d.len(),
{
    if d.len() == 0 {
        0
    } else {
        digits_value(d.drop_last()) * 10 + ((d.last() as u32) - ('0' as u32)) as nat
    }
}

/// `u32::from_str`: an optional `+`, then at least one digit, within range.
pub open spec fn u32_of(s: Seq<char>) -> Option<u32> {
    let d = if s.len() > 0 && s[0] == '+' { s.drop_first() } else { s };
    if d.len() > 0 && all_digits(d) && digits_value(d) <= u32::MAX {
        Some(digits_value(d) as u32)
    } else {
        None
    }
}

/// `i32::from_str`: an optional sign, then at least one digit, within range.
pub open spec fn i32_of(s: Seq<char>) -> Option<i32> {
    let d = unsigned_part(s);
    let neg = s.len() > 0 && s[0] == '-';
    if d.len() > 0 && all_digits(d) {
        if neg && digits_value(d) <= 0x8000_0000 {
            Some((-(digits_value(d) as int)) as i32)
        } else if !neg && digits_value(d) <= 0x7fff_ffff {
            Some(digits_value(d) as i32)
        } else {
            None
        }
    } else {
        None
    }
}

fn is_digit_exec(c: char) -> (b: bool)
    ensures
        b == is_digit(c),
{
    '0' <= c && c <= '9'
}

fn all_digits_range(cs: &Vec<char>, from: usize, to: usize) -> (b: bool)
    requires
        from <= to <= cs.len(),
    ensures
        b == all_digits(cs@.subrange(from as int, to as int)),
{
    let mut i = from;
    while i < to
        invariant
            from <= i <= to <= cs.len(),
            forall|k: int| from <= k < i ==> is_digit(cs@[k]),
        decreases to - i,
    {
        if !is_digit_exec(cs[i]) {
            assert(!is_digit(cs@.subrange(from as int, to as int)[i - from]));
            return false;
        }
        i = i + 1;
    }
    assert forall|k: int| 0 <= k < to - from implies is_digit(#[trigger] cs@.subrange(from as int, to as int)[k]) by {
        assert(cs@.subrange(from as int, to as int)[k] == cs@[from + k]);
    }
    true
}

fn lower_exec(c: char) -> (r: char)
    ensures
        r == ascii_lower(c),
{
    if 'A' <= c && c <= 'Z' {
        let b = c as u8;
        (b + 32) as char
    } else {
        c
    }
}

/// Whether `cs[from..to]`, lower-cased, spells `w`.
fn lower_equals(cs: &Vec<char>, from: usize, to: usize, w: &Vec<char>) -> (b: bool)
    requires
        from <= to <= cs.len(),
    ensures
        b == (lower_all(cs@.subrange(from as int, to as int)) == w@),
{
    let ghost t = cs@.subrange(from as int, to as int);
    if to - from != w.len() {
        assert(lower_all(t).len() != w@.len());
        return false;
    }
    let mut i: usize = 0;
    while i < w.len()
        invariant
            from <= to <= cs.len(),
            t == cs@.subrange(from as int, to as int),
            to - from == w.len(),
            i <= w.len(),
            forall|k: int| 0 <= k < i ==> lower_all(t)[k] == w@[k],
        decreases w.len() - i,
    {
        if lower_exec(cs[from + i]) != w[i] {
            assert(lower_all(t)[i as int] != w@[i as int]);
            return false;
        }
        i = i + 1;
    }
    assert(lower_all(t) =~= w@);
    true
}

fn exp_pos_exec(cs: &Vec<char>, from: usize, i: usize) -> (r: usize)
    requires
        from <= i <= cs.len(),
    ensures
        from <= r <= cs.len(),
        r - from == exp_pos(cs@.skip(from as int), i - from),
    decreases cs.len() - i,
{
    if i >= cs.len() {
        i
    } else if cs[i] == 'e' || cs[i] == 'E' {
        i
    } else {
        exp_pos_exec(cs, from, i + 1)
    }
}

fn dot_pos_exec(cs: &Vec<char>, from: usize, to: usize, i: usize) -> (r: usize)
    requires
        from <= i <= to <= cs.len(),
    ensures
        from <= r <= to,
        r - from == dot_pos(cs@.subrange(from as int, to as int), i - from),
    decreases to - i,
{
    if i >= to {
        i
    } else if cs[i] == '.' {
        i
    } else {
        dot_pos_exec(cs, from, to, i + 1)
    }
}

/// Whether `str::parse::<f32>` accepts `s`.
pub fn is_float_text_exec(s: &str) -> (b: bool)
    ensures
        b == is_float_text(s@),
{
    let cs = to_chars(s);
    let n = cs.len();
    let from: usize = if n > 0 && (cs[0] == '+' || cs[0] == '-') { 1 } else { 0 };
    let ghost t = unsigned_part(s@);
    assert(t =~= cs@.subrange(from as int, n as int));
    let inf = vec!['i', 'n', 'f'];
    let infinity = vec!['i', 'n', 'f', 'i', 'n', 'i', 't', 'y'];
    let nan = vec!['n', 'a', 'n'];
    if lower_equals(&cs, from, n, &inf) || lower_equals(&cs, from, n, &infinity) || lower_equals(&cs, from, n, &nan) {
        assert(inf@ =~= seq!['i', 'n', 'f']);
        assert(infinity@ =~= seq!['i', 'n', 'f', 'i', 'n', 'i', 't', 'y']);
        assert(nan@ =~= seq!['n', 'a', 'n']);
        return true;
    }
    assert(inf@ =~= seq!['i', 'n', 'f']);
    assert(infinity@ =~= seq!['i', 'n', 'f', 'i', 'n', 'i', 't', 'y']);
    assert(nan@ =~= seq!['n', 'a', 'n']);
    let k = exp_pos_exec(&cs, from, from);
    assert(cs@.skip(from as int) =~= t);
    proof { lemma_exp_pos(t, 0); }
    let ghost m = t.take(k - from);
    assert(m =~= cs@.subrange(from as int, k as int));
    let d = dot_pos_exec(&cs, from, k, from);
    let mantissa_ok = if d >= k {
        k > from && all_digits_range(&cs, from, k)
    } else {
        assert(m.take(d - from) =~= cs@.subrange(from as int, d as int));
        assert(m.skip(d - from + 1) =~= cs@.subrange(d + 1, k as int));
        k - from > 1 && all_digits_range(&cs, from, d) && all_digits_range(&cs, d + 1, k)
    };
    if !mantissa_ok {
        return false;
    }
    if k >= n {
        return true;
    }
    let ghost x = t.skip(k - from);
    assert(x =~= cs@.subrange(k as int, n as int));
    let e_from: usize = if k + 1 < n && (cs[k + 1] == '+' || cs[k + 1] == '-') { k + 2 } else { k + 1 };
    assert(unsigned_part(x.drop_first()) =~= cs@.subrange(e_from as int, n as int));
    e_from < n && all_digits_range(&cs, e_from, n)
}

proof fn lemma_digits_value_push(d: Seq<char>, c: char)
    ensures
        digits_value(d.push(c)) == digits_value(d) * 10 + ((c as u32) - ('0' as u32)) as nat,
{
    assert(d.push(c).drop_last() =~= d);
}

/// The value of the digits `cs[from..to]`, or `None` once it passes `limit`.
fn digits_upto(cs: &Vec<char>, from: usize, to: usize, limit: u64) -> (r: Option<u64>)
    requires
        from <= to <= cs.len(),
        all_digits(cs@.subrange(from as int, to as int)),
        limit <= 0xffff_ffff,
    ensures
        match r {
            Some(v) => v == digits_value(cs@.subrange(from as int, to as int)) && v <= limit,
            None => digits_value(cs@.subrange(from as int, to as int)) > limit,
        },
{
    let mut v: u64 = 0;
    let mut i = from;
    while i < to
        invariant
            from <= i <= to <= cs.len(),
            all_digits(cs@.subrange(from as int, to as int)),
            limit <= 0xffff_ffff,
            v == digits_value(cs@.subrange(from as int, i as int)),
            v <= limit,
        decreases to - i,
    {
        assert(is_digit(cs@.subrange(from as int, to as int)[i - from]));
        let c = cs[i];
        let digit = ((c as u32) - ('0' as u32)) as u64;
        proof {
            assert(cs@.subrange(from as int, i + 1) =~= cs@.subrange(from as int, i as int).push(c));
            lemma_digits_value_push(cs@.subrange(from as int, i as int), c);
        }
        let next = v * 10 + digit;
        if next > limit {
            proof { lemma_digits_value_grows(cs@.subrange(from as int, to as int), i + 1 - from); }
            assert(cs@.subrange(from as int, to as int).take(i + 1 - from) =~= cs@.subrange(from as int, i + 1));
            return None;
        }
        v = next;
        i = i + 1;
    }
    Some(v)
}

/// A prefix of a digit string is worth no more than the whole.
proof fn lemma_digits_value_grows(d: Seq<char>, k: int)
    requires
        0 <= k <= d.len(),
        all_digits(d),
    ensures
        digits_value(d.take(k)) <= digits_value(d),
    decreases d.len() - k,
{
    if k < d.len() {
        lemma_digits_value_grows(d, k + 1);
        assert(d.take(k + 1).drop_last() =~= d.take(k));
        assert(is_digit(d[k]));
        assert(digits_value(d.take(k + 1)) == digits_value(d.take(k)) * 10 + ((d[k] as u32) - ('0' as u32)) as nat);
    } else {
        assert(d.take(k) =~= d);
    }
}

/// `s.parse::<u32>()`.
pub fn parse_u32(s: &str) -> (r: Option<u32>)
    ensures
        r == u32_of(s@),
{
    let cs = to_chars(s);
    let n = cs.len();
    let from: usize = if n > 0 && cs[0] == '+' { 1 } else { 0 };
    let ghost d = if s@.len() > 0 && s@[0] == '+' { s@.drop_first() } else { s@ };
    assert(d =~= cs@.subrange(from as int, n as int));
    if from >= n || !all_digits_range(&cs, from, n) {
        return None;
    }
    match digits_upto(&cs, from, n, 0xffff_ffff) {
        Some(v) => Some(v as u32),
        None => None,
    }
}

/// `s.parse::<i32>()`.
pub fn parse_i32(s: &str) -> (r: Option<i32>)
    ensures
        r == i32_of(s@),
{
    let cs = to_chars(s);
    let n = cs.len();
    let neg = n > 0 && cs[0] == '-';
    let from: usize = if n > 0 && (cs[0] == '+' || cs[0] == '-') { 1 } else { 0 };
    assert(unsigned_part(s@) =~= cs@.subrange(from as int, n as int));
    if from >= n || !all_digits_range(&cs, from, n) {
        return None;
    }
    if neg {
        match digits_upto(&cs, from, n, 0x8000_0000) {
            Some(v) => Some((0 - (v as i64)) as i32),
            None => None,
        }
    } else {
        match digits_upto(&cs, from, n, 0x7fff_ffff) {
            Some(v) => Some(v as i32),
            None => None,
        }
    }
}

} // verus!
