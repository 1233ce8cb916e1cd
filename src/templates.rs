//! Shader sources of visual templates: where a template's shaders live and
//! how `// #import "file"` directives pull shared shader code into them.
use vstd::prelude::*;
use vstd::string::*;
use crate::text::{chars_of, is_space, spec_is_space};

verus! {

/// File names of a template's shaders, relative to the template.
#[derive(Debug)]
pub struct ShaderPaths {
    pub fragment: String,
    pub compute: Option<String>,
}

/// A shared shader that no source provides.
#[derive(Debug)]
pub struct MissingShader {
    pub name: String,
}

/// Scan state of the line splitter after the characters of `s`: the ranges
/// of the lines closed by `'\n'` (without a `'\r'` before it), and where
/// the open line starts.
pub open spec fn line_scan(s: Seq<char>) -> (Seq<(int, int)>, int)
    decreases s.len(),
{
    if s.len() == 0 {
        (seq![], 0)
    } else {
        let (done, st) = line_scan(s.drop_last());
        let i = s.len() - 1;
        if s.last() == '\n' {
            let end = if i > st && s[i - 1] == '\r' { i - 1 } else { i };
            (done.push((st, end)), i + 1)
        } else {
            (done, st)
        }
    }
}

/// The `[start, end)` ranges of the lines of `s`, as `str::lines` gives
/// them: split at `'\n'`, a `'\r'` before it dropped, and no empty line
/// after a final `'\n'`.
pub open spec fn line_ranges(s: Seq<char>) -> Seq<(int, int)> {
    let (done, st) = line_scan(s);
    if st < s.len() {
        done.push((st, s.len() as int))
    } else {
        done
    }
}

proof fn lemma_line_scan_bounds(s: Seq<char>)
    ensures
        forall|k: int|
            0 <= k < line_scan(s).0.len() ==> 0 <= (#[trigger] line_scan(s).0[k]).0 <= line_scan(s).0[k].1
                <= s.len(),
        0 <= line_scan(s).1 <= s.len(),
    decreases s.len(),
{
    if s.len() > 0 {
        lemma_line_scan_bounds(s.drop_last());
    }
}

/// First index in `[a, b)` that holds no whitespace, or `b`.
pub open spec fn skip_space(s: Seq<char>, a: int, b: int) -> int
    decreases b - a,
{
    if a >= b || !spec_is_space(s[a]) {
        a
    } else {
        skip_space(s, a + 1, b)
    }
}

/// End of `[a, b)` once trailing whitespace is dropped.
pub open spec fn drop_trailing_space(s: Seq<char>, a: int, b: int) -> int
    decreases b - a,
{
    if b <= a || !spec_is_space(s[b - 1]) {
        b
    } else {
        drop_trailing_space(s, a, b - 1)
    }
}

/// The characters that open an import directive: `// #import "`.
pub open spec fn import_prefix() -> Seq<char> {
    seq!['/', '/', ' ', '#', 'i', 'm', 'p', 'o', 'r', 't', ' ', '"']
}

/// The file named by the line `s[a..b)` if, once trimmed, it reads
/// `// #import "<name>"`; as a range of `s`.
pub open spec fn import_range(s: Seq<char>, a: int, b: int) -> Option<(int, int)> {
    let ts = skip_space(s, a, b);
    let te = drop_trailing_space(s, ts, b);
    if te - ts >= 13 && s.subrange(ts, ts + 12) == import_prefix() && s[te - 1] == '"' {
        Some((ts + 12, te - 1))
    } else {
        None
    }
}

/// The contents of the first shared shader called `name`.
pub open spec fn lookup(shared: Seq<(Seq<char>, Seq<char>)>, name: Seq<char>) -> Option<Seq<char>>
    decreases shared.len(),
{
    if shared.len() == 0 {
        None
    } else if shared[0].0 == name {
        Some(shared[0].1)
    } else {
        lookup(shared.subrange(1, shared.len() as int), name)
    }
}

/// What the line `s[a..b)` becomes: the shared shader it imports, or the
/// line itself; followed by a newline. `Err` names an import not provided.
pub open spec fn expand_line(s: Seq<char>, a: int, b: int, shared: Seq<(Seq<char>, Seq<char>)>) -> Result<
    Seq<char>,
    Seq<char>,
> {
    match import_range(s, a, b) {
        Some((na, nb)) => match lookup(shared, s.subrange(na, nb)) {
            Some(c) => Ok(c.push('\n')),
            None => Err(s.subrange(na, nb)),
        },
        None => Ok(s.subrange(a, b).push('\n')),
    }
}

/// The lines `lines` of `s` expanded and concatenated, or the first import
/// that no shared shader provides.
pub open spec fn expand_lines(s: Seq<char>, lines: Seq<(int, int)>, shared: Seq<(Seq<char>, Seq<char>)>) -> Result<
    Seq<char>,
    Seq<char>,
>
    decreases lines.len(),
{
    if lines.len() == 0 {
        Ok(seq![])
    } else {
        match expand_lines(s, lines.drop_last(), shared) {
            Ok(done) => match expand_line(s, lines.last().0, lines.last().1, shared) {
                Ok(piece) => Ok(done + piece),
                Err(name) => Err(name),
            },
            Err(name) => Err(name),
        }
    }
}

/// The pairs of names and sources of shared shaders.
pub open spec fn shared_view(shared: Seq<(String, String)>) -> Seq<(Seq<char>, Seq<char>)> {
    shared.map_values(|p: (String, String)| (p.0@, p.1@))
}

/// Line ranges of `chars` as `str::lines` splits them.
fn line_ranges_of(chars: &Vec<char>) -> (r: Vec<(usize, usize)>)
    ensures
        r@.map_values(|p: (usize, usize)| (p.0 as int, p.1 as int)) == line_ranges(chars@),
{
    let mut done: Vec<(usize, usize)> = Vec::new();
    let mut st: usize = 0;
    let n = chars.len();
    let mut i: usize = 0;
    while i < n
        invariant
            n == chars@.len(),
            i <= n,
            st <= i,
            done@.map_values(|p: (usize, usize)| (p.0 as int, p.1 as int)) == line_scan(chars@.subrange(0, i as int)).0,
            st == line_scan(chars@.subrange(0, i as int)).1,
        decreases n - i,
    {
        proof {
            assert(chars@.subrange(0, i + 1).drop_last() =~= chars@.subrange(0, i as int));
        }
        if chars[i] == '\n' {
            let end = if i > st && chars[i - 1] == '\r' { i - 1 } else { i };
            done.push((st, end));
            st = i + 1;
        }
        proof {
            assert(done@.map_values(|p: (usize, usize)| (p.0 as int, p.1 as int)) =~= line_scan(chars@.subrange(0, i + 1)).0);
        }
        i = i + 1;
    }
    proof {
        assert(chars@.subrange(0, n as int) =~= chars@);
    }
    if st < n {
        done.push((st, n));
    }
    proof {
        assert(done@.map_values(|p: (usize, usize)| (p.0 as int, p.1 as int)) =~= line_ranges(chars@));
    }
    done
}

/// Character `k` of the import directive prefix.
fn prefix_char(k: usize) -> (c: char)
    requires
        k < 12,
    ensures
        c == import_prefix()[k as int],
{
    match k {
        0 | 1 => '/',
        2 | 10 => ' ',
        3 => '#',
        4 => 'i',
        5 => 'm',
        6 => 'p',
        7 => 'o',
        8 => 'r',
        9 => 't',
        _ => '"',
    }
}

/// The range of the file name imported by the line `chars[a..b)`, if any.
fn import_range_of(chars: &Vec<char>, a: usize, b: usize) -> (r: Option<(usize, usize)>)
    requires
        a <= b <= chars@.len(),
    ensures
        r matches Some(p) ==> import_range(chars@, a as int, b as int) == Some((p.0 as int, p.1 as int)),
        r is None ==> import_range(chars@, a as int, b as int) is None,
        r matches Some(p) ==> a <= p.0 <= p.1 <= b,
{
    let mut ts = a;
    while ts < b && is_space(chars[ts])
        invariant
            a <= ts <= b <= chars@.len(),
            skip_space(chars@, a as int, b as int) == skip_space(chars@, ts as int, b as int),
        decreases b - ts,
    {
        ts = ts + 1;
    }
    let mut te = b;
    while te > ts && is_space(chars[te - 1])
        invariant
            ts <= te <= b <= chars@.len(),
            drop_trailing_space(chars@, ts as int, b as int) == drop_trailing_space(chars@, ts as int, te as int),
        decreases te - ts,
    {
        te = te - 1;
    }
    assert(skip_space(chars@, ts as int, b as int) == ts);
    assert(drop_trailing_space(chars@, ts as int, te as int) == te);
    assert(skip_space(chars@, a as int, b as int) == ts);
    assert(drop_trailing_space(chars@, ts as int, b as int) == te);
    if te - ts < 13 || chars[te - 1] != '"' {
        return None;
    }
    let mut k: usize = 0;
    while k < 12
        invariant
            ts + 13 <= te <= chars@.len(),
            a <= ts,
            te <= b,
            ts == skip_space(chars@, a as int, b as int),
            te == drop_trailing_space(chars@, ts as int, b as int),
            chars@[te - 1] == '"',
            k <= 12,
            forall|j: int| 0 <= j < k ==> chars@[ts + j] == import_prefix()[j],
        decreases 12 - k,
    {
        if chars[ts + k] != prefix_char(k) {
            proof {
                assert(chars@.subrange(ts as int, ts + 12)[k as int] != import_prefix()[k as int]);
            }
            return None;
        }
        k = k + 1;
    }
    proof {
        assert(chars@.subrange(ts as int, ts + 12) =~= import_prefix());
    }
    Some((ts + 12, te - 1))
}

/// The contents of the first shared shader called `name`.
pub(crate) fn lookup_shared(shared: &Vec<(String, String)>, name: &String) -> (r: Option<String>)
    ensures
        r matches Some(c) ==> lookup(shared_view(shared@), name@) == Some(c@),
        r is None ==> lookup(shared_view(shared@), name@) is None,
{
    let ghost v = shared_view(shared@);
    let mut k: usize = 0;
    proof {
        assert(v.subrange(0, v.len() as int) =~= v);
    }
    while k < shared.len()
        invariant
            k <= shared@.len(),
            v == shared_view(shared@),
            lookup(v, name@) == lookup(v.subrange(k as int, v.len() as int), name@),
        decreases shared@.len() - k,
    {
        let ghost rest = v.subrange(k as int, v.len() as int);
        proof {
            assert(rest.subrange(1, rest.len() as int) =~= v.subrange(k + 1, v.len() as int));
        }
        if shared[k].0 == *name {
            return Some(shared[k].1.clone());
        }
        k = k + 1;
    }
    None
}

/// Replaces each line of `shader_src` that reads `// #import "<name>"`
/// (whitespace around it ignored) with the shared shader called `<name>`
/// in `shared`, the first one of that name; every other line is kept as it
/// is. Each resulting line ends with a newline. Fails with the first import
/// that `shared` does not provide.
pub fn preprocess_imports(shader_src: &str, shared: &Vec<(String, String)>) -> (r: Result<String, MissingShader>)
    ensures
        match expand_lines(shader_src@, line_ranges(shader_src@), shared_view(shared@)) {
            Ok(out) => r matches Ok(s) && s@ == out,
            Err(name) => r matches Err(e) && e.name@ == name,
        },
{
    let chars = chars_of(shader_src);
    let lines = line_ranges_of(&chars);
    let ghost ls = lines@.map_values(|p: (usize, usize)| (p.0 as int, p.1 as int));
    let ghost sv = shared_view(shared@);
    proof {
        lemma_line_scan_bounds(chars@);
        reveal_strlit("\n");
        assert(ls.subrange(0, 0) =~= seq![]);
    }
    let mut out = String::new();
    let mut j: usize = 0;
    while j < lines.len()
        invariant
            j <= lines@.len(),
            chars@ == shader_src@,
            ls == lines@.map_values(|p: (usize, usize)| (p.0 as int, p.1 as int)),
            ls == line_ranges(chars@),
            sv == shared_view(shared@),
            forall|k: int| 0 <= k < ls.len() ==> 0 <= (#[trigger] ls[k]).0 <= ls[k].1 <= chars@.len(),
            expand_lines(chars@, ls.subrange(0, j as int), sv) == Ok::<Seq<char>, Seq<char>>(out@),
            "\n"@ == seq!['\n'],
        decreases lines@.len() - j,
    {
        let (a, b) = lines[j];
        proof {
            assert(ls[j as int] == (a as int, b as int));
            assert(ls.subrange(0, j + 1).drop_last() =~= ls.subrange(0, j as int));
        }
        let ghost before = out@;
        match import_range_of(&chars, a, b) {
            Some((na, nb)) => {
                let name = String::from_str(shader_src.substring_char(na, nb));
                match lookup_shared(shared, &name) {
                    Some(content) => {
                        out.append(content.as_str());
                        out.append("\n");
                        proof {
                            assert(out@ =~= before + content@.push('\n'));
                        }
                    },
                    None => {
                        proof {
                            assert(expand_line(chars@, a as int, b as int, sv) == Err::<Seq<char>, Seq<char>>(name@));
                            lemma_expand_lines_err_stays(chars@, ls, sv, (j + 1) as int);
                        }
                        return Err(MissingShader { name });
                    },
                }
            },
            None => {
                out.append(shader_src.substring_char(a, b));
                out.append("\n");
                proof {
                    assert(out@ =~= before + chars@.subrange(a as int, b as int).push('\n'));
                }
            },
        }
        j = j + 1;
    }
    proof {
        assert(ls.subrange(0, lines@.len() as int) =~= ls);
    }
    Ok(out)
}

/// The names imported by the lines `lines` of `s`, in order.
pub open spec fn imports_of(s: Seq<char>, lines: Seq<(int, int)>) -> Seq<Seq<char>>
    decreases lines.len(),
{
    if lines.len() == 0 {
        seq![]
    } else {
        let prev = imports_of(s, lines.drop_last());
        match import_range(s, lines.last().0, lines.last().1) {
            Some((na, nb)) => prev.push(s.subrange(na, nb)),
            None => prev,
        }
    }
}

/// The names of the shared shaders that `shader_src` imports, in the order
/// of its lines, repeats kept.
pub fn shader_imports(shader_src: &str) -> (r: Vec<String>)
    ensures
        r@.map_values(|x: String| x@) == imports_of(shader_src@, line_ranges(shader_src@)),
{
    let chars = chars_of(shader_src);
    let lines = line_ranges_of(&chars);
    let ghost ls = lines@.map_values(|p: (usize, usize)| (p.0 as int, p.1 as int));
    proof {
        lemma_line_scan_bounds(chars@);
        assert(ls.subrange(0, 0) =~= seq![]);
    }
    let mut out: Vec<String> = Vec::new();
    let mut j: usize = 0;
    while j < lines.len()
        invariant
            j <= lines@.len(),
            chars@ == shader_src@,
            ls == lines@.map_values(|p: (usize, usize)| (p.0 as int, p.1 as int)),
            ls == line_ranges(chars@),
            forall|k: int| 0 <= k < ls.len() ==> 0 <= (#[trigger] ls[k]).0 <= ls[k].1 <= chars@.len(),
            out@.map_values(|x: String| x@) == imports_of(chars@, ls.subrange(0, j as int)),
        decreases lines@.len() - j,
    {
        let (a, b) = lines[j];
        proof {
            assert(ls[j as int] == (a as int, b as int));
            assert(ls.subrange(0, j + 1).drop_last() =~= ls.subrange(0, j as int));
        }
        let ghost before = out@;
        match import_range_of(&chars, a, b) {
            Some((na, nb)) => {
                out.push(String::from_str(shader_src.substring_char(na, nb)));
            },
            None => {},
        }
        proof {
            assert(out@.map_values(|x: String| x@) =~= imports_of(chars@, ls.subrange(0, j + 1)));
        }
        j = j + 1;
    }
    proof {
        assert(ls.subrange(0, lines@.len() as int) =~= ls);
    }
    out
}

proof fn lemma_expand_lines_err_stays(
    s: Seq<char>,
    lines: Seq<(int, int)>,
    shared: Seq<(Seq<char>, Seq<char>)>,
    j: int,
)
    requires
        0 <= j <= lines.len(),
        expand_lines(s, lines.subrange(0, j), shared) is Err,
    ensures
        expand_lines(s, lines, shared) == expand_lines(s, lines.subrange(0, j), shared),
    decreases lines.len() - j,
{
    if j < lines.len() {
        assert(lines.subrange(0, j + 1).drop_last() =~= lines.subrange(0, j));
        lemma_expand_lines_err_stays(s, lines, shared, j + 1);
    } else {
        assert(lines.subrange(0, j) =~= lines);
    }
}

} // verus!
