//! Line wrapping of subtitle text.
use vstd::prelude::*;
use vstd::string::*;
use vstd::utf8::encode_utf8;
use crate::text::{chars_of, is_space, spec_is_space};
use crate::templates::drop_trailing_space;

verus! {

/// Length of `s` in bytes, as UTF-8.
pub open spec fn byte_len(s: Seq<char>) -> nat {
    encode_utf8(s).len()
}

/// Scan state of the word splitter after the characters of `s`: the closed
/// words as `[start, end)` ranges, and the start of the word still open, if any.
pub open spec fn word_scan(s: Seq<char>) -> (Seq<(int, int)>, Option<int>)
    decreases s.len(),
{
    if s.len() == 0 {
        (seq![], None)
    } else {
        let (done, open) = word_scan(s.drop_last());
        let i = s.len() - 1;
        if spec_is_space(s.last()) {
            match open {
                Some(st) => (done.push((st, i)), None),
                None => (done, None),
            }
        } else {
            match open {
                Some(st) => (done, Some(st)),
                None => (done, Some(i)),
            }
        }
    }
}

/// The `[start, end)` ranges of the maximal runs of non-whitespace characters of `s`.
pub open spec fn word_ranges(s: Seq<char>) -> Seq<(int, int)> {
    let (done, open) = word_scan(s);
    match open {
        Some(st) => done.push((st, s.len() as int)),
        None => done,
    }
}

/// The whitespace-separated words of `s`, in order.
pub open spec fn words_of(s: Seq<char>) -> Seq<Seq<char>> {
    word_ranges(s).map_values(|p: (int, int)| s.subrange(p.0, p.1))
}

proof fn lemma_word_scan_bounds(s: Seq<char>)
    ensures
        forall|k: int|
            0 <= k < word_scan(s).0.len() ==> 0 <= (#[trigger] word_scan(s).0[k]).0 < word_scan(s).0[k].1
                <= s.len(),
        word_scan(s).1 matches Some(st) ==> 0 <= st < s.len(),
    decreases s.len(),
{
    if s.len() > 0 {
        lemma_word_scan_bounds(s.drop_last());
    }
}

proof fn lemma_word_ranges_bounds(s: Seq<char>)
    ensures
        forall|k: int|
            0 <= k < word_ranges(s).len() ==> 0 <= (#[trigger] word_ranges(s)[k]).0 <= word_ranges(s)[k].1
                <= s.len(),
{
    lemma_word_scan_bounds(s);
}

/// Greedy packing of words into lines: a word joins the current line,
/// separated by one space, unless the line would then exceed `max` bytes.
/// Returns the finished lines and the line still being filled.
pub open spec fn pack(words: Seq<Seq<char>>, max: nat) -> (Seq<Seq<char>>, Seq<char>)
    decreases words.len(),
{
    if words.len() == 0 {
        (seq![], seq![])
    } else {
        let (lines, cur) = pack(words.drop_last(), max);
        let w = words.last();
        if cur.len() == 0 {
            (lines, w)
        } else if byte_len(cur) + 1 + byte_len(w) > max {
            (lines.push(cur), w)
        } else {
            (lines, cur + seq![' '] + w)
        }
    }
}

/// `text` wrapped into lines of at most `max_chars` bytes where the words
/// allow: kept whole when it fits, else its words packed greedily.
pub open spec fn spec_wrap_text(text: Seq<char>, max_chars: nat) -> Seq<Seq<char>> {
    if byte_len(text) <= max_chars {
        seq![text]
    } else {
        let (lines, cur) = pack(words_of(text), max_chars);
        if cur.len() == 0 {
            lines
        } else {
            lines.push(cur)
        }
    }
}

/// The contents of a list of strings.
pub open spec fn string_seqs(v: Seq<String>) -> Seq<Seq<char>> {
    v.map_values(|s: String| s@)
}

/// An optional position as an integer.
pub open spec fn opt_int(o: Option<usize>) -> Option<int> {
    match o {
        Some(x) => Some(x as int),
        None => None,
    }
}

/// The `[start, end)` character ranges of the words of `chars`.
fn word_ranges_of(chars: &Vec<char>) -> (r: Vec<(usize, usize)>)
    ensures
        r@.map_values(|p: (usize, usize)| (p.0 as int, p.1 as int)) == word_ranges(chars@),
{
    let mut done: Vec<(usize, usize)> = Vec::new();
    let mut open: Option<usize> = None;
    let n = chars.len();
    let mut i: usize = 0;
    while i < n
        invariant
            n == chars@.len(),
            i <= n,
            done@.map_values(|p: (usize, usize)| (p.0 as int, p.1 as int)) == word_scan(chars@.subrange(0, i as int)).0,
            opt_int(open) == word_scan(chars@.subrange(0, i as int)).1,
        decreases n - i,
    {
        proof {
            assert(chars@.subrange(0, i + 1).drop_last() =~= chars@.subrange(0, i as int));
        }
        let ghost old_done = done@;
        if is_space(chars[i]) {
            match open {
                Some(st) => {
                    done.push((st, i));
                    open = None;
                },
                None => {},
            }
        } else {
            match open {
                Some(_) => {},
                None => {
                    open = Some(i);
                },
            }
        }
        proof {
            assert(done@.map_values(|p: (usize, usize)| (p.0 as int, p.1 as int)) =~= word_scan(chars@.subrange(0, i + 1)).0);
        }
        i = i + 1;
    }
    proof {
        assert(chars@.subrange(0, n as int) =~= chars@);
    }
    match open {
        Some(st) => {
            done.push((st, n));
        },
        None => {},
    }
    proof {
        assert(done@.map_values(|p: (usize, usize)| (p.0 as int, p.1 as int)) =~= word_ranges(chars@));
    }
    done
}

/// The `[start, end)` character ranges of the words of `text`.
pub(crate) fn word_ranges_of_str(text: &str) -> (r: Vec<(usize, usize)>)
    ensures
        r@.map_values(|p: (usize, usize)| (p.0 as int, p.1 as int)) == word_ranges(text@),
        forall|k: int| 0 <= k < r@.len() ==> (#[trigger] r@[k]).0 <= r@[k].1 <= text@.len(),
{
    let chars = chars_of(text);
    let r = word_ranges_of(&chars);
    proof {
        lemma_word_ranges_bounds(text@);
        assert forall|k: int| 0 <= k < r@.len() implies (#[trigger] r@[k]).0 <= r@[k].1 <= text@.len() by {
            let rs = r@.map_values(|p: (usize, usize)| (p.0 as int, p.1 as int));
            assert(rs[k] == (r@[k].0 as int, r@[k].1 as int));
        }
    }
    r
}

/// Wraps `text` into lines of at most `max_chars` bytes: text that fits is
/// kept whole as a single line; otherwise its whitespace-separated words are
/// packed greedily, one space between words, a new line starting whenever
/// the next word would overflow. A single word longer than `max_chars`
/// stands on a line of its own.
pub fn wrap_text(text: &str, max_chars: usize) -> (r: Vec<String>)
    ensures
        string_seqs(r@) == spec_wrap_text(text@, max_chars as nat),
{
    if text.as_bytes().len() <= max_chars {
        let whole = String::from_str(text);
        let r = vec![whole];
        proof {
            assert(string_seqs(r@) =~= spec_wrap_text(text@, max_chars as nat));
        }
        return r;
    }
    let chars = chars_of(text);
    let ranges = word_ranges_of(&chars);
    let ghost words = words_of(text@);
    proof {
        lemma_word_scan_bounds(text@);
        reveal_strlit(" ");
        assert(words.subrange(0, 0) =~= seq![]);
    }
    let mut lines: Vec<String> = Vec::new();
    let mut cur = String::new();
    let mut j: usize = 0;
    while j < ranges.len()
        invariant
            j <= ranges@.len(),
            chars@ == text@,
            words == words_of(text@),
            ranges@.map_values(|p: (usize, usize)| (p.0 as int, p.1 as int)) == word_ranges(text@),
            (string_seqs(lines@), cur@) == pack(words.subrange(0, j as int), max_chars as nat),
            " "@ == seq![' '],
        decreases ranges@.len() - j,
    {
        let (a, b) = ranges[j];
        proof {
            let ghost rs = ranges@.map_values(|p: (usize, usize)| (p.0 as int, p.1 as int));
            assert(rs[j as int] == (a as int, b as int));
            lemma_word_ranges_bounds(text@);
            assert(words.subrange(0, j + 1).drop_last() =~= words.subrange(0, j as int));
        }
        let w = text.substring_char(a, b);
        assert(w@ == words[j as int]);
        let ghost old_lines = lines@;
        if cur.as_str().is_empty() {
            cur = String::from_str(w);
        } else if cur.as_str().as_bytes().len() as u128 + 1 + w.as_bytes().len() as u128 > max_chars as u128 {
            lines.push(cur);
            cur = String::from_str(w);
            proof {
                assert(string_seqs(lines@) =~= string_seqs(old_lines).push(lines@.last()@));
            }
        } else {
            cur.append(" ");
            cur.append(w);
        }
        proof {
            assert(string_seqs(lines@) =~= pack(words.subrange(0, j + 1), max_chars as nat).0);
        }
        j = j + 1;
    }
    proof {
        assert(words.subrange(0, ranges@.len() as int) =~= words);
    }
    if !cur.as_str().is_empty() {
        let ghost old_lines = lines@;
        lines.push(cur);
        proof {
            assert(string_seqs(lines@) =~= string_seqs(old_lines).push(lines@.last()@));
        }
    }
    proof {
        assert(string_seqs(lines@) =~= spec_wrap_text(text@, max_chars as nat));
    }
    lines
}

/// Whether `c` ends a sentence: `.`, `?`, `!` or their full-width forms.
pub open spec fn is_sentence_end(c: char) -> bool {
    c == '.' || c == '?' || c == '!' || c == '\u{3002}' || c == '\u{FF1F}' || c == '\u{FF01}'
}

/// The text, trailing whitespace ignored, ends with a sentence mark.
pub open spec fn spec_ends_sentence(text: Seq<char>) -> bool {
    let e = drop_trailing_space(text, 0, text.len() as int);
    e > 0 && is_sentence_end(text[e - 1])
}

/// Whether `text` ends a sentence, trailing whitespace ignored.
pub fn ends_with_sentence_punct(text: &str) -> (r: bool)
    ensures
        r == spec_ends_sentence(text@),
{
    let cs = chars_of(text);
    let mut e = cs.len();
    while e > 0 && is_space(cs[e - 1])
        invariant
            e <= cs@.len(),
            cs@ == text@,
            drop_trailing_space(cs@, 0, cs@.len() as int) == drop_trailing_space(cs@, 0, e as int),
        decreases e,
    {
        e = e - 1;
    }
    if e == 0 {
        return false;
    }
    let c = cs[e - 1];
    c == '.' || c == '?' || c == '!' || c == '\u{3002}' || c == '\u{FF1F}' || c == '\u{FF01}'
}

/// Greedy grouping of words into lines of at most `max` bytes, a space
/// between words: the finished lines, the open line and its length.
pub open spec fn line_pack(words: Seq<Seq<char>>, max: nat) -> (Seq<Seq<Seq<char>>>, Seq<Seq<char>>, nat)
    decreases words.len(),
{
    if words.len() == 0 {
        (seq![], seq![], 0)
    } else {
        let (lines, cur, len) = line_pack(words.drop_last(), max);
        let w = words.last();
        if cur.len() > 0 && len + 1 + byte_len(w) > max {
            (lines.push(cur), seq![w], byte_len(w))
        } else if cur.len() == 0 {
            (lines, seq![w], byte_len(w))
        } else {
            (lines, cur.push(w), len + 1 + byte_len(w))
        }
    }
}

/// The words grouped into lines: a word starts a new line when, with a
/// space before it, it would take the current line past `max` bytes.
pub open spec fn spec_split_lines(words: Seq<Seq<char>>, max: nat) -> Seq<Seq<Seq<char>>> {
    let (lines, cur, _) = line_pack(words, max);
    if cur.len() > 0 {
        lines.push(cur)
    } else {
        lines
    }
}

proof fn lemma_line_pack_len(words: Seq<Seq<char>>, max: nat)
    ensures
        line_pack(words, max).2 <= max || (line_pack(words, max).1.len() == 1 && line_pack(words, max).2
            == byte_len(line_pack(words, max).1[0])),
        line_pack(words, max).1.len() == 0 ==> line_pack(words, max).2 == 0,
    decreases words.len(),
{
    if words.len() > 0 {
        lemma_line_pack_len(words.drop_last(), max);
    }
}

/// The words as lines of text.
pub open spec fn line_words(v: Seq<Vec<String>>) -> Seq<Seq<Seq<char>>> {
    v.map_values(|l: Vec<String>| string_seqs(l@))
}

/// Groups words into lines of at most `max_chars_per_line` bytes where the
/// words allow; a word longer than that stands on a line of its own.
pub fn split_words_into_lines(words: &Vec<String>, max_chars_per_line: usize) -> (r: Vec<Vec<String>>)
    ensures
        line_words(r@) == spec_split_lines(string_seqs(words@), max_chars_per_line as nat),
{
    let ghost ws = string_seqs(words@);
    let mut lines: Vec<Vec<String>> = Vec::new();
    let mut cur: Vec<String> = Vec::new();
    let mut cur_len: usize = 0;
    let mut i: usize = 0;
    proof {
        assert(ws.subrange(0, 0) =~= seq![]);
    }
    while i < words.len()
        invariant
            i <= words@.len(),
            ws == string_seqs(words@),
            (line_words(lines@), string_seqs(cur@), cur_len as nat) == line_pack(ws.subrange(0, i as int), max_chars_per_line as nat),
        decreases words@.len() - i,
    {
        proof {
            assert(ws.subrange(0, i + 1).drop_last() =~= ws.subrange(0, i as int));
        }
        let w = words[i].clone();
        let wl = w.as_str().as_bytes().len();
        let ghost old_lines = lines@;
        let ghost old_cur = cur@;
        if cur.len() > 0 && cur_len as u128 + 1 + wl as u128 > max_chars_per_line as u128 {
            lines.push(cur);
            cur = Vec::new();
            cur.push(w);
            cur_len = wl;
            proof {
                assert(line_words(lines@) =~= line_words(old_lines).push(string_seqs(old_cur)));
                assert(string_seqs(cur@) =~= seq![ws[i as int]]);
            }
        } else if cur.len() == 0 {
            cur.push(w);
            cur_len = wl;
            proof {
                assert(string_seqs(cur@) =~= seq![ws[i as int]]);
            }
        } else {
            proof {
                lemma_line_pack_len(ws.subrange(0, i as int), max_chars_per_line as nat);
            }
            cur.push(w);
            cur_len = cur_len + 1 + wl;
            proof {
                assert(string_seqs(cur@) =~= string_seqs(old_cur).push(ws[i as int]));
            }
        }
        i = i + 1;
    }
    proof {
        assert(ws.subrange(0, words@.len() as int) =~= ws);
    }
    if cur.len() > 0 {
        let ghost old_lines = lines@;
        lines.push(cur);
        proof {
            assert(line_words(lines@) =~= line_words(old_lines).push(line_words(lines@).last()));
        }
    }
    lines
}

} // verus!
