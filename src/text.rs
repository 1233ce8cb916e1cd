//! Character-level helpers shared by the text handling of the library.
use vstd::prelude::*;

verus! {

/// The characters of `s`, in order.
pub fn chars_of(s: &str) -> (r: Vec<char>)
    ensures
        r@ == s@,
{
    let mut out: Vec<char> = Vec::new();
    for c in it: s.chars()
        invariant
            out@ == it.history(),
    {
        out.push(c);
    }
    proof {
        assert(out@ =~= s@);
    }
    out
}


/// Whether `c` has the Unicode `White_Space` property.
pub open spec fn spec_is_space(c: char) -> bool {
    ||| c == '\t' || c == '\n' || c == '\u{0B}' || c == '\u{0C}' || c == '\r' || c == ' '
    ||| c == '\u{85}' || c == '\u{A0}' || c == '\u{1680}'
    ||| ('\u{2000}' <= c && c <= '\u{200A}')
    ||| c == '\u{2028}' || c == '\u{2029}' || c == '\u{202F}' || c == '\u{205F}' || c == '\u{3000}'
}

/// Whether `c` is whitespace in the Unicode sense.
pub fn is_space(c: char) -> (r: bool)
    ensures
        r == spec_is_space(c),
{
    c == '\t' || c == '\n' || c == '\u{0B}' || c == '\u{0C}' || c == '\r' || c == ' ' || c == '\u{85}'
        || c == '\u{A0}' || c == '\u{1680}' || ('\u{2000}' <= c && c <= '\u{200A}') || c == '\u{2028}'
        || c == '\u{2029}' || c == '\u{202F}' || c == '\u{205F}' || c == '\u{3000}'
}


/// `c` equals `w` up to ASCII case, where `w` is given in lower case.
pub open spec fn ci_eq(c: char, w: char) -> bool {
    c == w || ('a' <= w <= 'z' && c as u32 + 32 == w as u32)
}

/// `s[a..b)` spells `w` up to ASCII case (`w` in lower case).
pub open spec fn spells_ci(s: Seq<char>, a: int, b: int, w: Seq<char>) -> bool {
    b - a == w.len() && forall|i: int| 0 <= i < w.len() ==> ci_eq(#[trigger] s[a + i], w[i])
}

/// Whether `s[a..b)` spells `w` up to ASCII case (`w` in lower case).
pub fn spells(s: &Vec<char>, a: usize, b: usize, w: &Vec<char>) -> (r: bool)
    requires
        a <= b <= s@.len(),
    ensures
        r == spells_ci(s@, a as int, b as int, w@),
{
    if b - a != w.len() {
        return false;
    }
    let mut i: usize = 0;
    while i < w.len()
        invariant
            a <= b <= s@.len(),
            b - a == w@.len(),
            i <= w@.len(),
            forall|k: int| 0 <= k < i ==> ci_eq(#[trigger] s@[a + k], w@[k]),
        decreases w@.len() - i,
    {
        let c = s[a + i];
        let x = w[i];
        if !(c == x || ('a' <= x && x <= 'z' && c as u32 == x as u32 - 32)) {
            return false;
        }
        i = i + 1;
    }
    true
}

/// Index of the last `'.'` in `s[0..end)`, or -1.
pub open spec fn last_dot(s: Seq<char>, end: int) -> int
    decreases end,
{
    if end <= 0 {
        -1
    } else if s[end - 1] == '.' {
        end - 1
    } else {
        last_dot(s, end - 1)
    }
}

/// Where the text after the last `'.'` of `s[0..end)` starts (0 without a dot).
pub fn after_last_dot(s: &Vec<char>, end: usize) -> (r: usize)
    requires
        end <= s@.len(),
    ensures
        r == last_dot(s@, end as int) + 1,
        r <= end,
{
    let mut e = end;
    while e > 0 && s[e - 1] != '.'
        invariant
            e <= end <= s@.len(),
            last_dot(s@, end as int) == last_dot(s@, e as int),
        decreases e,
    {
        e = e - 1;
    }
    e
}


/// ASCII upper case of `c`.
pub open spec fn upper_char(c: char) -> char {
    if 'a' <= c <= 'z' { ((c as u32) - 32) as char } else { c }
}

/// ASCII lower case of `c`.
pub open spec fn lower_char(c: char) -> char {
    if 'A' <= c <= 'Z' { ((c as u32) + 32) as char } else { c }
}

/// The ASCII upper case of `c`.
pub fn to_upper(c: char) -> (r: char)
    ensures
        r == upper_char(c),
{
    if 'a' <= c && c <= 'z' {
        ((c as u8) - 32) as char
    } else {
        c
    }
}

} // verus!
