//! Text primitives over character sequences: whitespace, trimming,
//! searching and splitting, each stated as a spec function over `Seq<char>`
//! and implemented for `&str`, with positions counted in characters.
use vstd::prelude::*;
use vstd::string::StrSliceExecFns;
use vstd::string::StringExecFns;

verus! {

broadcast use vstd::string::group_string_axioms;

/// Unicode `White_Space`, the set `char::is_whitespace` tests for.
pub open spec fn is_ws(c: char) -> bool {
    let u = c as u32;
    (9 <= u <= 13) || u == 32 || u == 0x85 || u == 0xA0 || u == 0x1680 || (0x2000 <= u <= 0x200A)
        || u == 0x2028 || u == 0x2029 || u == 0x202F || u == 0x205F || u == 0x3000
}

pub fn is_whitespace(c: char) -> (b: bool)
    ensures
        b == is_ws(c),
{
    let u = c as u32;
    (9 <= u && u <= 13) || u == 32 || u == 0x85 || u == 0xA0 || u == 0x1680 || (0x2000 <= u && u
        <= 0x200A) || u == 0x2028 || u == 0x2029 || u == 0x202F || u == 0x205F || u == 0x3000
}

/// First position at or after `i` that holds no whitespace (or the length).
pub open spec fn skip_ws(s: Seq<char>, i: int) -> int
    decreases s.len() - i,
{
    if i < 0 || i >= s.len() {
        s.len() as int
    } else if !is_ws(s[i]) {
        i
    } else {
        skip_ws(s, i + 1)
    }
}

/// First position at or after `i` that holds whitespace (or the length).
pub open spec fn skip_non_ws(s: Seq<char>, i: int) -> int
    decreases s.len() - i,
{
    if i < 0 || i >= s.len() {
        s.len() as int
    } else if is_ws(s[i]) {
        i
    } else {
        skip_non_ws(s, i + 1)
    }
}

/// Length of `s.take(j)` once its trailing whitespace is dropped.
pub open spec fn end_without_ws(s: Seq<char>, j: int) -> int
    decreases j,
{
    if j <= 0 || j > s.len() {
        0
    } else if !is_ws(s[j - 1]) {
        j
    } else {
        end_without_ws(s, j - 1)
    }
}

/// `s` without leading and trailing whitespace, as `str::trim` gives it.
pub open spec fn trim(s: Seq<char>) -> Seq<char> {
    let t = s.skip(skip_ws(s, 0));
    t.take(end_without_ws(t, t.len() as int))
}

pub open spec fn starts_with(s: Seq<char>, p: Seq<char>) -> bool {
    p.len() <= s.len() && s.take(p.len() as int) == p
}

pub open spec fn ends_with(s: Seq<char>, p: Seq<char>) -> bool {
    p.len() <= s.len() && s.skip(s.len() - p.len()) == p
}

/// Whether `p` occurs in `s` starting at position `j`.
pub open spec fn occurs_at(s: Seq<char>, p: Seq<char>, j: int) -> bool {
    0 <= j && j + p.len() <= s.len() && s.subrange(j, j + p.len()) == p
}

/// First position at or after `i` where `c` stands.
pub open spec fn find_char_from(s: Seq<char>, c: char, i: int) -> Option<int>
    decreases s.len() - i,
{
    if i < 0 || i >= s.len() {
        None
    } else if s[i] == c {
        Some(i)
    } else {
        find_char_from(s, c, i + 1)
    }
}

/// First position at or after `i` where `p` occurs.
pub open spec fn find_from(s: Seq<char>, p: Seq<char>, i: int) -> Option<int>
    decreases s.len() + 1 - i,
{
    if i < 0 || i + p.len() > s.len() {
        None
    } else if occurs_at(s, p, i) {
        Some(i)
    } else {
        find_from(s, p, i + 1)
    }
}

pub open spec fn find_char(s: Seq<char>, c: char) -> Option<int> {
    find_char_from(s, c, 0)
}

pub open spec fn find(s: Seq<char>, p: Seq<char>) -> Option<int> {
    find_from(s, p, 0)
}

pub open spec fn contains(s: Seq<char>, p: Seq<char>) -> bool {
    find(s, p) is Some
}

pub open spec fn contains_char(s: Seq<char>, c: char) -> bool {
    find_char(s, c) is Some
}

/// The pieces of `s.skip(i)` between occurrences of `c`, as `str::split` with a char.
pub open spec fn split_char_from(s: Seq<char>, c: char, i: int) -> Seq<Seq<char>>
    decreases s.len() - i,
{
    if i < 0 || i > s.len() {
        seq![]
    } else {
        match find_char_from(s, c, i) {
            None => seq![s.subrange(i, s.len() as int)],
            Some(j) => if i <= j < s.len() {
                seq![s.subrange(i, j)] + split_char_from(s, c, j + 1)
            } else {
                seq![]
            },
        }
    }
}

pub open spec fn split_char(s: Seq<char>, c: char) -> Seq<Seq<char>> {
    split_char_from(s, c, 0)
}

/// The pieces of `s.skip(i)` between occurrences of the non-empty `p`, as `str::split` with a `&str`.
pub open spec fn split_from(s: Seq<char>, p: Seq<char>, i: int) -> Seq<Seq<char>>
    decreases s.len() - i,
{
    if i < 0 || i > s.len() || p.len() == 0 {
        seq![]
    } else {
        match find_from(s, p, i) {
            None => seq![s.subrange(i, s.len() as int)],
            Some(j) => if i <= j && j + p.len() <= s.len() {
                seq![s.subrange(i, j)] + split_from(s, p, j + p.len())
            } else {
                seq![]
            },
        }
    }
}

pub open spec fn split(s: Seq<char>, p: Seq<char>) -> Seq<Seq<char>> {
    split_from(s, p, 0)
}

/// The whitespace-separated words of `s.skip(i)`, as `str::split_whitespace` gives them.
pub open spec fn words_from(s: Seq<char>, i: int) -> Seq<Seq<char>>
    decreases s.len() - i,
{
    let a = skip_ws(s, i);
    if i < 0 || i >= s.len() || a >= s.len() || a < i {
        seq![]
    } else {
        let b = skip_non_ws(s, a);
        if a < b <= s.len() {
            seq![s.subrange(a, b)] + words_from(s, b)
        } else {
            seq![]
        }
    }
}

pub open spec fn words(s: Seq<char>) -> Seq<Seq<char>> {
    words_from(s, 0)
}

pub open spec fn views(v: Seq<&str>) -> Seq<Seq<char>> {
    v.map_values(|x: &str| x@)
}

pub open spec fn trim_all(v: Seq<Seq<char>>) -> Seq<Seq<char>> {
    v.map_values(|x: Seq<char>| trim(x))
}

pub proof fn lemma_skip_ws_bounds(s: Seq<char>, i: int)
    requires
        0 <= i <= s.len(),
    ensures
        i <= skip_ws(s, i) <= s.len(),
        skip_ws(s, i) < s.len() ==> !is_ws(s[skip_ws(s, i)]),
    decreases s.len() - i,
{
    if i < s.len() && is_ws(s[i]) {
        lemma_skip_ws_bounds(s, i + 1);
    }
}

pub proof fn lemma_skip_non_ws_bounds(s: Seq<char>, i: int)
    requires
        0 <= i <= s.len(),
    ensures
        i <= skip_non_ws(s, i) <= s.len(),
    decreases s.len() - i,
{
    if i < s.len() && !is_ws(s[i]) {
        lemma_skip_non_ws_bounds(s, i + 1);
    }
}

proof fn lemma_end_without_ws_bounds(s: Seq<char>, j: int)
    requires
        0 <= j <= s.len(),
    ensures
        0 <= end_without_ws(s, j) <= j,
    decreases j,
{
    if j > 0 && is_ws(s[j - 1]) {
        lemma_end_without_ws_bounds(s, j - 1);
    }
}

pub proof fn lemma_trim_len(s: Seq<char>)
    ensures
        trim(s).len() <= s.len(),
{
    lemma_skip_ws_bounds(s, 0);
    let t = s.skip(skip_ws(s, 0));
    lemma_end_without_ws_bounds(t, t.len() as int);
}

proof fn lemma_split_char_from_pieces(s: Seq<char>, c: char, i: int)
    requires
        0 <= i <= s.len(),
    ensures
        forall|k: int| 0 <= k < split_char_from(s, c, i).len() ==> #[trigger] split_char_from(s, c, i)[k].len() <= s.len() - i,
    decreases s.len() - i,
{
    lemma_find_char_from_in_range(s, c, i);
    match find_char_from(s, c, i) {
        None => {},
        Some(j) => {
            lemma_split_char_from_pieces(s, c, j + 1);
            let rest = split_char_from(s, c, j + 1);
            assert forall|k: int| 0 <= k < split_char_from(s, c, i).len() implies #[trigger] split_char_from(s, c, i)[k].len() <= s.len() - i by {
                if k > 0 {
                    assert(split_char_from(s, c, i)[k] == rest[k - 1]);
                }
            }
        },
    }
}

/// Each piece of a split is no longer than the whole.
pub proof fn lemma_split_char_pieces(s: Seq<char>, c: char)
    ensures
        forall|k: int| 0 <= k < split_char(s, c).len() ==> #[trigger] split_char(s, c)[k].len() <= s.len(),
{
    lemma_split_char_from_pieces(s, c, 0);
}

/// Each trimmed piece of a split is no longer than the whole.
pub proof fn lemma_trimmed_pieces(s: Seq<char>, c: char)
    ensures
        forall|k: int| 0 <= k < trim_all(split_char(s, c)).len() ==> #[trigger] trim_all(split_char(s, c))[k].len() <= s.len(),
{
    lemma_split_char_pieces(s, c);
    assert forall|k: int| 0 <= k < trim_all(split_char(s, c)).len() implies #[trigger] trim_all(split_char(s, c))[k].len() <= s.len() by {
        lemma_trim_len(split_char(s, c)[k]);
    }
}

/// The characters of `s`, one by one.
pub fn to_chars(s: &str) -> (v: Vec<char>)
    ensures
        v@ == s@,
        s@.len() <= usize::MAX,
{
    let n = s.unicode_len();
    let mut v: Vec<char> = Vec::new();
    let mut i: usize = 0;
    while i < n
        invariant
            n == s@.len(),
            i <= n,
            v@ == s@.take(i as int),
        decreases n - i,
    {
        let c = s.get_char(i);
        v.push(c);
        i = i + 1;
        assert(v@ =~= s@.take(i as int));
    }
    assert(v@ =~= s@);
    v
}

/// `String::push`: appends one character.
#[verifier::external_body]
pub(crate) fn push_char(s: &mut String, c: char)
    ensures
        final(s)@ == old(s)@.push(c),
{
    s.push(c);
}

/// The decimal digits of `n`, most significant first, as `u64`'s `Display` writes them.
pub open spec fn nat_digits(n: nat) -> Seq<char>
    decreases n,
{
    if n < 10 {
        seq![(('0' as u32) + n) as char]
    } else {
        nat_digits(n / 10).push((('0' as u32) + (n % 10)) as char)
    }
}

/// An integer in decimal, with a leading `-` when negative, as `Display` writes it.
pub open spec fn int_text(i: int) -> Seq<char> {
    if i < 0 {
        seq!['-'] + nat_digits((-i) as nat)
    } else {
        nat_digits(i as nat)
    }
}

fn digit_char(d: u64) -> (c: char)
    requires
        d < 10,
    ensures
        c == (('0' as u32) + d) as char,
{
    let b = 48u8 + (d as u8);
    b as char
}

fn push_digits(s: &mut String, n: u64)
    ensures
        final(s)@ == old(s)@ + nat_digits(n as nat),
    decreases n,
{
    if n < 10 {
        push_char(s, digit_char(n));
    } else {
        push_digits(s, n / 10);
        push_char(s, digit_char(n % 10));
    }
}

/// `n` written in decimal.
pub fn uint_to_text(n: u64) -> (r: String)
    ensures
        r@ == nat_digits(n as nat),
{
    let mut r = String::new();
    push_digits(&mut r, n);
    r
}

/// `i` written in decimal.
pub fn int_to_text(i: i64) -> (r: String)
    requires
        i > i64::MIN,
    ensures
        r@ == int_text(i as int),
{
    let mut r = String::new();
    if i < 0 {
        push_char(&mut r, '-');
        push_digits(&mut r, (0 - i) as u64);
    } else {
        push_digits(&mut r, i as u64);
    }
    r
}

/// An owned copy of `s`.
pub fn owned(s: &str) -> (r: String)
    ensures
        r@ == s@,
{
    s.to_string()
}

/// `a` followed by `b`.
pub fn joined(a: &str, b: &str) -> (r: String)
    ensures
        r@ == a@ + b@,
{
    let mut r = a.to_string();
    r.append(b);
    r
}

/// `a`, `b` and `c` one after another.
pub fn joined3(a: &str, b: &str, c: &str) -> (r: String)
    ensures
        r@ == a@ + b@ + c@,
{
    let mut r = a.to_string();
    r.append(b);
    r.append(c);
    r
}

/// `a`, `b`, `c` and `d` one after another.
pub fn joined4(a: &str, b: &str, c: &str, d: &str) -> (r: String)
    ensures
        r@ == a@ + b@ + c@ + d@,
{
    let mut r = a.to_string();
    r.append(b);
    r.append(c);
    r.append(d);
    r
}

/// The characters of `s` from position `from` up to `to`.
pub fn slice<'a>(s: &'a str, from: usize, to: usize) -> (r: &'a str)
    requires
        from <= to <= s@.len(),
    ensures
        r@ == s@.subrange(from as int, to as int),
{
    s.substring_char(from, to)
}

/// The characters of `s` from position `from` on.
pub fn tail<'a>(s: &'a str, from: usize) -> (r: &'a str)
    requires
        from <= s@.len(),
    ensures
        r@ == s@.skip(from as int),
{
    let n = s.unicode_len();
    let r = s.substring_char(from, n);
    assert(r@ =~= s@.skip(from as int));
    r
}

/// Whether `a` and `b` hold the same characters.
pub fn str_eq(a: &str, b: &str) -> (r: bool)
    ensures
        r == (a@ == b@),
{
    let x = to_chars(a);
    let y = to_chars(b);
    if x.len() != y.len() {
        return false;
    }
    let mut i: usize = 0;
    while i < x.len()
        invariant
            x@ == a@,
            y@ == b@,
            x.len() == y.len(),
            i <= x.len(),
            x@.take(i as int) == y@.take(i as int),
        decreases x.len() - i,
    {
        if x[i] != y[i] {
            assert(a@[i as int] != b@[i as int]);
            return false;
        }
        i = i + 1;
        assert(x@.take(i as int) =~= y@.take(i as int));
    }
    assert(x@ =~= x@.take(i as int));
    assert(y@ =~= y@.take(i as int));
    true
}

/// Whether `p` occurs in `cs` at position `j`.
fn occurs_at_exec(cs: &Vec<char>, p: &Vec<char>, j: usize) -> (r: bool)
    ensures
        r == occurs_at(cs@, p@, j as int),
{
    if j > cs.len() || p.len() > cs.len() - j {
        return false;
    }
    let mut k: usize = 0;
    while k < p.len()
        invariant
            j + p.len() <= cs.len(),
            k <= p.len(),
            forall|t: int| 0 <= t < k ==> cs@[j + t] == p@[t],
        decreases p.len() - k,
    {
        if cs[j + k] != p[k] {
            assert(cs@.subrange(j as int, j + p.len())[k as int] != p@[k as int]);
            return false;
        }
        k = k + 1;
    }
    assert(cs@.subrange(j as int, j + p.len()) =~= p@);
    true
}

pub fn starts_with_exec(s: &str, p: &str) -> (r: bool)
    ensures
        r == starts_with(s@, p@),
{
    let cs = to_chars(s);
    let ps = to_chars(p);
    let r = occurs_at_exec(&cs, &ps, 0);
    assert(r == starts_with(s@, p@)) by {
        if p@.len() <= s@.len() {
            assert(s@.subrange(0, p@.len() as int) =~= s@.take(p@.len() as int));
        }
    }
    r
}

pub fn ends_with_exec(s: &str, p: &str) -> (r: bool)
    ensures
        r == ends_with(s@, p@),
{
    let cs = to_chars(s);
    let ps = to_chars(p);
    if ps.len() > cs.len() {
        return false;
    }
    let r = occurs_at_exec(&cs, &ps, cs.len() - ps.len());
    assert(r == ends_with(s@, p@)) by {
        assert(s@.subrange(s@.len() - p@.len(), s@.len() as int) =~= s@.skip(s@.len() - p@.len()));
    }
    r
}

fn find_char_from_exec(cs: &Vec<char>, c: char, i: usize) -> (r: Option<usize>)
    requires
        i <= cs.len(),
    ensures
        match r {
            Some(j) => find_char_from(cs@, c, i as int) == Some(j as int),
            None => find_char_from(cs@, c, i as int) is None,
        },
    decreases cs.len() - i,
{
    if i >= cs.len() {
        None
    } else if cs[i] == c {
        Some(i)
    } else {
        find_char_from_exec(cs, c, i + 1)
    }
}

fn find_from_exec(cs: &Vec<char>, p: &Vec<char>, i: usize) -> (r: Option<usize>)
    requires
        i <= cs.len(),
    ensures
        match r {
            Some(j) => find_from(cs@, p@, i as int) == Some(j as int),
            None => find_from(cs@, p@, i as int) is None,
        },
    decreases cs.len() - i,
{
    if p.len() == 0 {
        assert(cs@.subrange(i as int, i as int) =~= p@);
        return Some(i);
    }
    if p.len() > cs.len() - i {
        None
    } else if occurs_at_exec(cs, p, i) {
        Some(i)
    } else {
        find_from_exec(cs, p, i + 1)
    }
}

proof fn lemma_find_char_from_in_range(s: Seq<char>, c: char, i: int)
    ensures
        find_char_from(s, c, i) matches Some(j) ==> i <= j < s.len() && s[j] == c,
    decreases s.len() - i,
{
    if 0 <= i < s.len() && s[i] != c {
        lemma_find_char_from_in_range(s, c, i + 1);
    }
}

proof fn lemma_find_from_in_range(s: Seq<char>, p: Seq<char>, i: int)
    ensures
        find_from(s, p, i) matches Some(j) ==> i <= j && j + p.len() <= s.len() && occurs_at(s, p, j),
    decreases s.len() + 1 - i,
{
    if 0 <= i && i + p.len() <= s.len() && !occurs_at(s, p, i) {
        lemma_find_from_in_range(s, p, i + 1);
    }
}

/// Position of the first `c` in `s`, as `str::find` with a char (counted in characters).
pub fn find_char_exec(s: &str, c: char) -> (r: Option<usize>)
    ensures
        match r {
            Some(j) => find_char(s@, c) == Some(j as int) && j < s@.len() && s@[j as int] == c,
            None => find_char(s@, c) is None,
        },
        s@.len() <= usize::MAX,
{
    let cs = to_chars(s);
    proof { lemma_find_char_from_in_range(s@, c, 0); }
    find_char_from_exec(&cs, c, 0)
}

/// Position of the first occurrence of `p` in `s`, as `str::find` with a `&str`.
pub fn find_exec(s: &str, p: &str) -> (r: Option<usize>)
    ensures
        match r {
            Some(j) => find(s@, p@) == Some(j as int) && j + p@.len() <= s@.len(),
            None => find(s@, p@) is None,
        },
        s@.len() <= usize::MAX,
{
    let cs = to_chars(s);
    let ps = to_chars(p);
    proof { lemma_find_from_in_range(s@, p@, 0); }
    find_from_exec(&cs, &ps, 0)
}

pub fn contains_exec(s: &str, p: &str) -> (r: bool)
    ensures
        r == contains(s@, p@),
{
    find_exec(s, p).is_some()
}

pub fn contains_char_exec(s: &str, c: char) -> (r: bool)
    ensures
        r == contains_char(s@, c),
{
    find_char_exec(s, c).is_some()
}

/// `s` without leading and trailing whitespace.
pub fn trim_exec(s: &str) -> (r: &str)
    ensures
        r@ == trim(s@),
{
    let cs = to_chars(s);
    let n = cs.len();
    let mut a: usize = 0;
    while a < n && is_whitespace(cs[a])
        invariant
            cs@ == s@,
            n == cs.len(),
            a <= n,
            skip_ws(s@, 0) == skip_ws(s@, a as int),
        decreases n - a,
    {
        a = a + 1;
    }
    let ghost t = s@.skip(a as int);
    let mut b: usize = n;
    while b > a && is_whitespace(cs[b - 1])
        invariant
            cs@ == s@,
            n == cs.len(),
            a <= b <= n,
            t == s@.skip(a as int),
            end_without_ws(t, t.len() as int) == end_without_ws(t, b - a),
        decreases b,
    {
        assert(t[b - a - 1] == cs@[b - 1]);
        b = b - 1;
    }
    proof {
        if b > a {
            assert(t[b - a - 1] == cs@[b - 1]);
        }
        assert(end_without_ws(t, b - a) == b - a);
    }
    let r = slice(s, a, b);
    assert(r@ =~= t.take(b - a));
    r
}

/// The pieces of `s` between occurrences of `c`.
pub fn split_char_exec<'a>(s: &'a str, c: char) -> (r: Vec<&'a str>)
    ensures
        views(r@) == split_char(s@, c),
{
    let cs = to_chars(s);
    let n = cs.len();
    let mut r: Vec<&'a str> = Vec::new();
    let mut pos: usize = 0;
    loop
        invariant
            cs@ == s@,
            n == cs.len(),
            pos <= n,
            views(r@) + split_char_from(s@, c, pos as int) == split_char(s@, c),
        decreases n - pos,
    {
        let ghost before = r@;
        proof { lemma_find_char_from_in_range(s@, c, pos as int); }
        match find_char_from_exec(&cs, c, pos) {
            None => {
                let piece = slice(s, pos, n);
                r.push(piece);
                assert(views(r@) =~= views(before) + seq![piece@]);
                return r;
            },
            Some(j) => {
                let piece = slice(s, pos, j);
                r.push(piece);
                assert(views(r@) =~= views(before) + seq![piece@]);
                assert(views(r@) + split_char_from(s@, c, j + 1) =~= views(before) + split_char_from(s@, c, pos as int));
                pos = j + 1;
            },
        }
    }
}

/// The pieces of `s` between occurrences of the non-empty `p`.
pub fn split_exec<'a>(s: &'a str, p: &str) -> (r: Vec<&'a str>)
    requires
        p@.len() > 0,
    ensures
        views(r@) == split(s@, p@),
{
    let cs = to_chars(s);
    let ps = to_chars(p);
    let n = cs.len();
    let mut r: Vec<&'a str> = Vec::new();
    let mut pos: usize = 0;
    loop
        invariant
            cs@ == s@,
            ps@ == p@,
            p@.len() > 0,
            n == cs.len(),
            pos <= n,
            views(r@) + split_from(s@, p@, pos as int) == split(s@, p@),
        decreases n - pos,
    {
        let ghost before = r@;
        proof { lemma_find_from_in_range(s@, p@, pos as int); }
        match find_from_exec(&cs, &ps, pos) {
            None => {
                let piece = slice(s, pos, n);
                r.push(piece);
                assert(views(r@) =~= views(before) + seq![piece@]);
                return r;
            },
            Some(j) => {
                let piece = slice(s, pos, j);
                r.push(piece);
                assert(views(r@) =~= views(before) + seq![piece@]);
                assert(views(r@) + split_from(s@, p@, (j + ps.len()) as int) =~= views(before) + split_from(s@, p@, pos as int));
                pos = j + ps.len();
            },
        }
    }
}

/// The whitespace-separated words of `s`.
pub fn words_exec<'a>(s: &'a str) -> (r: Vec<&'a str>)
    ensures
        views(r@) == words(s@),
{
    let cs = to_chars(s);
    let n = cs.len();
    let mut r: Vec<&'a str> = Vec::new();
    let mut pos: usize = 0;
    loop
        invariant
            cs@ == s@,
            n == cs.len(),
            pos <= n,
            views(r@) + words_from(s@, pos as int) == words(s@),
        decreases n - pos,
    {
        let ghost before = r@;
        let mut a = pos;
        while a < n && is_whitespace(cs[a])
            invariant
                cs@ == s@,
                n == cs.len(),
                pos <= a <= n,
                skip_ws(s@, pos as int) == skip_ws(s@, a as int),
            decreases n - a,
        {
            a = a + 1;
        }
        if a >= n {
            assert(words_from(s@, pos as int) =~= seq![]);
            assert(views(r@) =~= views(r@) + words_from(s@, pos as int));
            return r;
        }
        let mut b = a;
        while b < n && !is_whitespace(cs[b])
            invariant
                cs@ == s@,
                n == cs.len(),
                a <= b <= n,
                skip_non_ws(s@, a as int) == skip_non_ws(s@, b as int),
            decreases n - b,
        {
            b = b + 1;
        }
        let piece = slice(s, a, b);
        r.push(piece);
        assert(views(r@) =~= views(before) + seq![piece@]);
        assert(views(r@) + words_from(s@, b as int) =~= views(before) + words_from(s@, pos as int));
        pos = b;
    }
}

/// Each of `v` trimmed.
pub fn trim_each<'a>(v: Vec<&'a str>) -> (r: Vec<&'a str>)
    ensures
        views(r@) == trim_all(views(v@)),
{
    let mut r: Vec<&'a str> = Vec::new();
    let mut i: usize = 0;
    while i < v.len()
        invariant
            i <= v.len(),
            views(r@) == trim_all(views(v@)).take(i as int),
        decreases v.len() - i,
    {
        let t = trim_exec(v[i]);
        let ghost before = r@;
        r.push(t);
        assert(views(r@) =~= views(before).push(t@));
        i = i + 1;
        assert(views(r@) =~= trim_all(views(v@)).take(i as int));
    }
    assert(trim_all(views(v@)).take(i as int) =~= trim_all(views(v@)));
    r
}

} // verus!
