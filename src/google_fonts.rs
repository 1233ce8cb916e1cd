//! Google Fonts families named by URLs.
use vstd::prelude::*;
use vstd::string::*;
use crate::fonts::{begins, begins_with, url_path, url_path_of};
use crate::templates::{drop_trailing_space, skip_space};
use crate::text::{chars_of, is_space, lower_char, to_upper, upper_char};
use crate::subtitle::{word_ranges_of_str, words_of};

verus! {

/// First index in `[a, b)` that does not hold `c`, or `b`.
pub open spec fn skip_char(s: Seq<char>, a: int, b: int, c: char) -> int
    decreases b - a,
{
    if a >= b || s[a] != c {
        a
    } else {
        skip_char(s, a + 1, b, c)
    }
}

/// End of `[a, b)` once trailing copies of `c` are dropped.
pub open spec fn drop_char(s: Seq<char>, a: int, b: int, c: char) -> int
    decreases b - a,
{
    if b <= a || s[b - 1] != c {
        b
    } else {
        drop_char(s, a, b - 1, c)
    }
}

/// `s` with `'+'` and `"%20"` read as spaces, up to its first `':'` or `';'`.
pub open spec fn family_text(s: Seq<char>) -> Seq<char>
    decreases s.len(),
{
    if s.len() == 0 || s[0] == ':' || s[0] == ';' {
        seq![]
    } else if s[0] == '+' {
        seq![' '] + family_text(s.subrange(1, s.len() as int))
    } else if s.len() >= 3 && s[0] == '%' && s[1] == '2' && s[2] == '0' {
        seq![' '] + family_text(s.subrange(3, s.len() as int))
    } else {
        seq![s[0]] + family_text(s.subrange(1, s.len() as int))
    }
}

/// A family name as given in a URL, cleaned: whitespace trimmed, then
/// double and then single quotes trimmed from both ends, `'+'` and `"%20"`
/// read as spaces, and any `:`/`;` suffix (weights, options) dropped.
pub open spec fn spec_normalize_family(family: Seq<char>) -> Seq<char> {
    let a = skip_space(family, 0, family.len() as int);
    let b = drop_trailing_space(family, a, family.len() as int);
    let a1 = skip_char(family, a, b, '"');
    let b1 = drop_char(family, a1, b, '"');
    let a2 = skip_char(family, a1, b1, '\'');
    let b2 = drop_char(family, a2, b1, '\'');
    family_text(family.subrange(a2, b2))
}

/// Cleans a Google Fonts family name taken from a URL.
pub fn normalize_google_family(family: &str) -> (r: String)
    ensures
        r@ == spec_normalize_family(family@),
{
    let cs = chars_of(family);
    let n = cs.len();
    let mut a: usize = 0;
    while a < n && is_space(cs[a])
        invariant
            a <= n == cs@.len(),
            skip_space(cs@, 0, n as int) == skip_space(cs@, a as int, n as int),
        decreases n - a,
    {
        a = a + 1;
    }
    assert(skip_space(cs@, a as int, n as int) == a);
    let mut b: usize = n;
    while b > a && is_space(cs[b - 1])
        invariant
            a <= b <= n == cs@.len(),
            drop_trailing_space(cs@, a as int, n as int) == drop_trailing_space(cs@, a as int, b as int),
        decreases b - a,
    {
        b = b - 1;
    }
    assert(drop_trailing_space(cs@, a as int, b as int) == b);
    let (a1, b1) = trim_char(&cs, a, b, '"');
    let (a2, b2) = trim_char(&cs, a1, b1, '\'');
    let mut out = String::new();
    let mut i: usize = a2;
    proof {
        reveal_strlit(" ");
        assert(cs@.subrange(a2 as int, b2 as int) =~= cs@.subrange(i as int, b2 as int));
    }
    while i < b2 && cs[i] != ':' && cs[i] != ';'
        invariant
            a2 <= i <= b2 <= n == cs@.len(),
            cs@ == family@,
            out@ + family_text(cs@.subrange(i as int, b2 as int)) == family_text(cs@.subrange(a2 as int, b2 as int)),
            " "@ == seq![' '],
        decreases b2 - i,
    {
        let ghost rest = cs@.subrange(i as int, b2 as int);
        let ghost before = out@;
        if cs[i] == '+' {
            out.append(" ");
            i = i + 1;
        } else if b2 - i >= 3 && cs[i] == '%' && cs[i + 1] == '2' && cs[i + 2] == '0' {
            out.append(" ");
            i = i + 3;
        } else {
            out.append(family.substring_char(i, i + 1));
            i = i + 1;
        }
        proof {
            assert(rest.subrange(rest.len() - (b2 - i), rest.len() as int) =~= cs@.subrange(i as int, b2 as int));
            assert(out@ + family_text(cs@.subrange(i as int, b2 as int)) =~= before + family_text(rest));
        }
    }
    proof {
        assert(family_text(cs@.subrange(i as int, b2 as int)) =~= seq![]);
        assert(out@ =~= out@ + seq![]);
    }
    out
}

/// `[a, b)` with copies of `c` trimmed from both ends.
fn trim_char(cs: &Vec<char>, a: usize, b: usize, c: char) -> (r: (usize, usize))
    requires
        a <= b <= cs@.len(),
    ensures
        r.0 == skip_char(cs@, a as int, b as int, c),
        r.1 == drop_char(cs@, r.0 as int, b as int, c),
        a <= r.0 <= r.1 <= b,
{
    let mut x = a;
    while x < b && cs[x] == c
        invariant
            a <= x <= b <= cs@.len(),
            skip_char(cs@, a as int, b as int, c) == skip_char(cs@, x as int, b as int, c),
        decreases b - x,
    {
        x = x + 1;
    }
    let mut y = b;
    while y > x && cs[y - 1] == c
        invariant
            x <= y <= b <= cs@.len(),
            drop_char(cs@, x as int, b as int, c) == drop_char(cs@, x as int, y as int, c),
        decreases y - x,
    {
        y = y - 1;
    }
    (x, y)
}

/// The host of `url` once parsed as an absolute URL; `None` when it does
/// not parse or has no host.
pub uninterp spec fn url_host_of(url: Seq<char>) -> Option<Seq<char>>;

/// The decoded name/value pairs of the query of `url`, in order; `None`
/// when it does not parse.
pub uninterp spec fn url_query_of(url: Seq<char>) -> Option<Seq<(Seq<char>, Seq<char>)>>;

/// Relies on `reqwest::Url::parse` and `Url::host_str`: the host of a
/// parsed URL is a function of the input string.
#[verifier::external_body]
fn url_host(url: &str) -> (r: Option<String>)
    ensures
        match r {
            Some(h) => url_host_of(url@) == Some(h@),
            None => url_host_of(url@) is None,
        },
{
    reqwest::Url::parse(url).ok().and_then(|u| u.host_str().map(|h| h.to_string()))
}

/// Relies on `reqwest::Url::parse` and `Url::query_pairs`: the decoded
/// query pairs of a parsed URL are a function of the input string.
#[verifier::external_body]
fn url_query_pairs(url: &str) -> (r: Option<Vec<(String, String)>>)
    ensures
        match r {
            Some(v) => url_query_of(url@) == Some(v@.map_values(|p: (String, String)| (p.0@, p.1@))),
            None => url_query_of(url@) is None,
        },
{
    reqwest::Url::parse(url).ok().map(
        |u| u.query_pairs().map(|(k, v)| (k.into_owned(), v.into_owned())).collect(),
    )
}

/// `s` ends with `suffix`.
pub open spec fn ends(s: Seq<char>, suffix: Seq<char>) -> bool {
    suffix.len() <= s.len() && s.subrange(s.len() - suffix.len(), s.len() as int) == suffix
}

/// Whether `s` ends with `suffix`.
fn ends_with(s: &str, suffix: &str) -> (r: bool)
    ensures
        r == ends(s@, suffix@),
{
    let cs = chars_of(s);
    let xs = chars_of(suffix);
    if xs.len() > cs.len() {
        return false;
    }
    let n = cs.len();
    let off = n - xs.len();
    let mut k: usize = 0;
    while k < xs.len()
        invariant
            n == cs@.len(),
            xs@.len() <= cs@.len(),
            cs@ == s@,
            xs@ == suffix@,
            off + xs@.len() == cs@.len(),
            k <= xs@.len(),
            forall|m: int| 0 <= m < k ==> cs@[off + m] == xs@[m],
        decreases xs@.len() - k,
    {
        if cs[off + k] != xs[k] {
            proof {
                assert(cs@.subrange(off as int, cs@.len() as int)[k as int] != xs@[k as int]);
            }
            return false;
        }
        k = k + 1;
    }
    proof {
        assert(cs@.subrange(off as int, cs@.len() as int) =~= xs@);
    }
    assert(cs@ == s@ && xs@ == suffix@);
    true
}

/// `s` with every leading copy of `prefix` removed.
pub open spec fn strip_all(s: Seq<char>, prefix: Seq<char>) -> Seq<char>
    decreases s.len(),
{
    if prefix.len() > 0 && begins(s, prefix) {
        strip_all(s.subrange(prefix.len() as int, s.len() as int), prefix)
    } else {
        s
    }
}

/// `s` without leading and trailing whitespace.
pub open spec fn trimmed(s: Seq<char>) -> Seq<char> {
    let a = skip_space(s, 0, s.len() as int);
    s.subrange(a, drop_trailing_space(s, a, s.len() as int))
}

/// The value of the first query pair named `family`.
pub open spec fn family_param(q: Seq<(Seq<char>, Seq<char>)>) -> Option<Seq<char>>
    decreases q.len(),
{
    if q.len() == 0 {
        None
    } else if q[0].0 == "family"@ {
        Some(q[0].1)
    } else {
        family_param(q.subrange(1, q.len() as int))
    }
}

/// The family a Google Fonts URL names: the `family` query parameter of a
/// `fonts.googleapis.com` URL, or the path after `/specimen/` of a
/// `fonts.google.com` URL, cleaned by `spec_normalize_family`.
pub open spec fn spec_detect_family(url: Seq<char>) -> Option<Seq<char>> {
    match url_host_of(url) {
        None => None,
        Some(host) => if !ends(host, "fonts.googleapis.com"@) {
            match url_path_of(url) {
                Some(p) => if ends(host, "fonts.google.com"@) && begins(p, "/specimen/"@) && trimmed(
                    strip_all(p, "/specimen/"@),
                ).len() > 0 {
                    Some(spec_normalize_family(trimmed(strip_all(p, "/specimen/"@))))
                } else {
                    None
                },
                None => None,
            }
        } else {
            match url_query_of(url) {
                Some(q) => match family_param(q) {
                    Some(f) => Some(spec_normalize_family(f)),
                    None => None,
                },
                None => None,
            }
        },
    }
}

/// Whether `cs[i..)` begins with `ps`.
fn prefix_at(cs: &Vec<char>, i: usize, ps: &Vec<char>) -> (r: bool)
    requires
        i <= cs@.len(),
    ensures
        r == begins(cs@.subrange(i as int, cs@.len() as int), ps@),
        r ==> i + ps@.len() <= cs@.len(),
{
    let n = cs.len();
    let m = ps.len();
    let ghost rest = cs@.subrange(i as int, n as int);
    if m > n - i {
        return false;
    }
    let mut k: usize = 0;
    while k < m
        invariant
            i + m <= n == cs@.len(),
            m == ps@.len(),
            rest == cs@.subrange(i as int, n as int),
            k <= m,
            forall|j: int| 0 <= j < k ==> cs@[i + j] == ps@[j],
        decreases m - k,
    {
        if cs[i + k] != ps[k] {
            proof {
                assert(rest.subrange(0, m as int)[k as int] != ps@[k as int]);
            }
            return false;
        }
        k = k + 1;
    }
    proof {
        assert(rest.subrange(0, m as int) =~= ps@);
    }
    true
}

/// `s` with leading copies of `prefix` removed and whitespace trimmed.
fn strip_and_trim(s: &str, prefix: &str) -> (r: String)
    requires
        prefix@.len() > 0,
    ensures
        r@ == trimmed(strip_all(s@, prefix@)),
{
    let cs = chars_of(s);
    let ps = chars_of(prefix);
    let n = cs.len();
    let m = ps.len();
    let mut i: usize = 0;
    proof {
        assert(cs@.subrange(0, n as int) =~= cs@);
    }
    while prefix_at(&cs, i, &ps)
        invariant
            i <= n == cs@.len(),
            m == ps@.len() > 0,
            cs@ == s@,
            ps@ == prefix@,
            strip_all(s@, prefix@) == strip_all(cs@.subrange(i as int, n as int), prefix@),
        decreases n - i,
    {
        let ghost rest = cs@.subrange(i as int, n as int);
        proof {
            assert(rest.subrange(m as int, rest.len() as int) =~= cs@.subrange(i + m, n as int));
        }
        i = i + m;
    }
    let mut a: usize = i;
    while a < n && is_space(cs[a])
        invariant
            i <= a <= n == cs@.len(),
            skip_space(cs@.subrange(i as int, n as int), 0, (n - i) as int) == skip_space(
                cs@.subrange(i as int, n as int),
                (a - i) as int,
                (n - i) as int,
            ),
        decreases n - a,
    {
        a = a + 1;
    }
    let ghost rest = cs@.subrange(i as int, n as int);
    assert(skip_space(rest, (a - i) as int, (n - i) as int) == a - i);
    let mut b: usize = n;
    while b > a && is_space(cs[b - 1])
        invariant
            i <= a <= b <= n == cs@.len(),
            rest == cs@.subrange(i as int, n as int),
            drop_trailing_space(rest, (a - i) as int, (n - i) as int) == drop_trailing_space(
                rest,
                (a - i) as int,
                (b - i) as int,
            ),
        decreases b - a,
    {
        b = b - 1;
    }
    assert(drop_trailing_space(rest, (a - i) as int, (b - i) as int) == b - i);
    proof {
        assert(rest.subrange((a - i) as int, (b - i) as int) =~= cs@.subrange(a as int, b as int));
    }
    String::from_str(s.substring_char(a, b))
}

/// The Google Fonts family that `url` names, if any.
pub fn detect_google_fonts_family(url: &str) -> (r: Option<String>)
    ensures
        match spec_detect_family(url@) {
            Some(f) => r matches Some(s) && s@ == f,
            None => r is None,
        },
{
    let host = match url_host(url) {
        Some(h) => h,
        None => {
            return None;
        },
    };
    if !ends_with(host.as_str(), "fonts.googleapis.com") {
        match url_path(url) {
            Some(p) => {
                if ends_with(host.as_str(), "fonts.google.com") && begins_with(p.as_str(), "/specimen/") {
                    proof {
                        reveal_strlit("/specimen/");
                    }
                    let family = strip_and_trim(p.as_str(), "/specimen/");
                    if family.unicode_len() > 0 {
                        return Some(normalize_google_family(family.as_str()));
                    }
                }
                return None;
            },
            None => {
                return None;
            },
        }
    }
    match url_query_pairs(url) {
        Some(q) => {
            let ghost qv = q@.map_values(|p: (String, String)| (p.0@, p.1@));
            let key = String::from_str("family");
            let mut k: usize = 0;
            proof {
                assert(qv.subrange(0, qv.len() as int) =~= qv);
            }
            while k < q.len()
                invariant
                    k <= q@.len(),
                    qv == q@.map_values(|p: (String, String)| (p.0@, p.1@)),
                    key@ == "family"@,
                    url_query_of(url@) == Some(qv),
                    url_host_of(url@) == Some(host@),
                    ends(host@, "fonts.googleapis.com"@),
                    family_param(qv) == family_param(qv.subrange(k as int, qv.len() as int)),
                decreases q@.len() - k,
            {
                let ghost rest = qv.subrange(k as int, qv.len() as int);
                proof {
                    assert(rest.subrange(1, rest.len() as int) =~= qv.subrange(k + 1, qv.len() as int));
                }
                if q[k].0 == key {
                    assert(rest[0] == qv[k as int]);
                    return Some(normalize_google_family(q[k].1.as_str()));
                }
                k = k + 1;
            }
            None
        },
        None => None,
    }
}

/// Relies on `String::push`: appends one character.
#[verifier::external_body]
fn push_char(s: &mut String, c: char)
    ensures
        final(s)@ == old(s)@.push(c),
{
    s.push(c)
}

/// `c` is an ASCII letter or digit.
pub open spec fn is_alnum(c: char) -> bool {
    ('a' <= c <= 'z') || ('A' <= c <= 'Z') || ('0' <= c <= '9')
}

/// Whether `c` is an ASCII letter or digit.
fn alnum(c: char) -> (r: bool)
    ensures
        r == is_alnum(c),
{
    ('a' <= c && c <= 'z') || ('A' <= c && c <= 'Z') || ('0' <= c && c <= '9')
}

/// Scan state of the splitter into ASCII alphanumeric runs: the closed
/// runs, and the start of the open one.
pub open spec fn run_scan(s: Seq<char>) -> (Seq<(int, int)>, Option<int>)
    decreases s.len(),
{
    if s.len() == 0 {
        (seq![], None)
    } else {
        let (done, open) = run_scan(s.drop_last());
        let i = s.len() - 1;
        if !is_alnum(s.last()) {
            match open {
                Some(st) => (done.push((st, i)), None),
                None => (done, None),
            }
        } else {
            match open {
                Some(st) => (done, Some(st)),
                None => (done, Some(i)),
            }
        }
    }
}

/// The `[start, end)` ranges of the maximal ASCII alphanumeric runs of `s`.
pub open spec fn alnum_runs(s: Seq<char>) -> Seq<(int, int)> {
    let (done, open) = run_scan(s);
    match open {
        Some(st) => done.push((st, s.len() as int)),
        None => done,
    }
}

proof fn lemma_run_scan_bounds(s: Seq<char>)
    ensures
        forall|k: int|
            0 <= k < run_scan(s).0.len() ==> 0 <= (#[trigger] run_scan(s).0[k]).0 < run_scan(s).0[k].1
                <= s.len(),
        run_scan(s).1 matches Some(st) ==> 0 <= st < s.len(),
    decreases s.len(),
{
    if s.len() > 0 {
        lemma_run_scan_bounds(s.drop_last());
    }
}

/// How a run appears in a file stem: as it is when all upper case or at
/// most two characters long, else capitalised.
pub open spec fn stem_piece(p: Seq<char>) -> Seq<char> {
    if (forall|i: int| 0 <= i < p.len() ==> 'A' <= #[trigger] p[i] <= 'Z') || p.len() <= 2 {
        p
    } else {
        seq![upper_char(p[0])] + p.subrange(1, p.len() as int).map_values(|c: char| lower_char(c))
    }
}

/// The pieces of the runs `runs` of `s`, concatenated.
pub open spec fn stem_of(s: Seq<char>, runs: Seq<(int, int)>) -> Seq<char>
    decreases runs.len(),
{
    if runs.len() == 0 {
        seq![]
    } else {
        stem_of(s, runs.drop_last()) + stem_piece(s.subrange(runs.last().0, runs.last().1))
    }
}

/// The file stem that the Google Fonts repository uses for a family: the
/// ASCII alphanumeric runs of the cleaned name, each capitalised unless it
/// is an acronym or short, joined without separators.
pub open spec fn spec_family_stem(family: Seq<char>) -> Seq<char> {
    let n = spec_normalize_family(family);
    stem_of(n, alnum_runs(n))
}

/// The ASCII alphanumeric runs of `cs`.
fn alnum_runs_of(cs: &Vec<char>) -> (r: Vec<(usize, usize)>)
    ensures
        r@.map_values(|p: (usize, usize)| (p.0 as int, p.1 as int)) == alnum_runs(cs@),
{
    let mut done: Vec<(usize, usize)> = Vec::new();
    let mut open: Option<usize> = None;
    let n = cs.len();
    let mut i: usize = 0;
    while i < n
        invariant
            n == cs@.len(),
            i <= n,
            done@.map_values(|p: (usize, usize)| (p.0 as int, p.1 as int)) == run_scan(cs@.subrange(0, i as int)).0,
            crate::subtitle::opt_int(open) == run_scan(cs@.subrange(0, i as int)).1,
        decreases n - i,
    {
        proof {
            assert(cs@.subrange(0, i + 1).drop_last() =~= cs@.subrange(0, i as int));
        }
        if !alnum(cs[i]) {
            match open {
                Some(st) => {
                    done.push((st, i));
                    open = None;
                },
                None => {},
            }
        } else {
            match open {
                Some(_) => {},
                None => {
                    open = Some(i);
                },
            }
        }
        proof {
            assert(done@.map_values(|p: (usize, usize)| (p.0 as int, p.1 as int)) =~= run_scan(cs@.subrange(0, i + 1)).0);
        }
        i = i + 1;
    }
    proof {
        assert(cs@.subrange(0, n as int) =~= cs@);
    }
    match open {
        Some(st) => {
            done.push((st, n));
        },
        None => {},
    }
    proof {
        assert(done@.map_values(|p: (usize, usize)| (p.0 as int, p.1 as int)) =~= alnum_runs(cs@));
    }
    done
}

/// Appends the stem piece of `cs[a..b)` to `out`.
fn append_piece(out: &mut String, cs: &Vec<char>, a: usize, b: usize)
    requires
        a < b <= cs@.len(),
    ensures
        final(out)@ == old(out)@ + stem_piece(cs@.subrange(a as int, b as int)),
{
    let ghost p = cs@.subrange(a as int, b as int);
    let mut all_upper = true;
    let mut k: usize = a;
    while k < b
        invariant
            a <= k <= b <= cs@.len(),
            p == cs@.subrange(a as int, b as int),
            all_upper == (forall|i: int| 0 <= i < k - a ==> 'A' <= #[trigger] p[i] <= 'Z'),
        decreases b - k,
    {
        let c = cs[k];
        if !('A' <= c && c <= 'Z') {
            all_upper = false;
        }
        proof {
            assert(p[k - a] == c);
        }
        k = k + 1;
    }
    if all_upper || b - a <= 2 {
        let mut j: usize = a;
        let ghost start = out@;
        while j < b
            invariant
                a <= j <= b <= cs@.len(),
                out@ == start + cs@.subrange(a as int, j as int),
            decreases b - j,
        {
            push_char(out, cs[j]);
            proof {
                assert(cs@.subrange(a as int, j + 1) =~= cs@.subrange(a as int, j as int).push(cs@[j as int]));
            }
            j = j + 1;
        }
    } else {
        let ghost start = out@;
        push_char(out, to_upper(cs[a]));
        let mut j: usize = a + 1;
        while j < b
            invariant
                a < j <= b <= cs@.len(),
                p == cs@.subrange(a as int, b as int),
                out@ == start + seq![upper_char(p[0])] + cs@.subrange(a + 1, j as int).map_values(
                    |c: char| lower_char(c),
                ),
            decreases b - j,
        {
            let c = cs[j];
            let l = if 'A' <= c && c <= 'Z' { ((c as u8) + 32) as char } else { c };
            push_char(out, l);
            proof {
                assert(cs@.subrange(a + 1, j + 1).map_values(|c: char| lower_char(c)) =~= cs@.subrange(
                    a + 1,
                    j as int,
                ).map_values(|c: char| lower_char(c)).push(lower_char(c)));
            }
            j = j + 1;
        }
        proof {
            assert(p.subrange(1, p.len() as int) =~= cs@.subrange(a + 1, b as int));
        }
    }
}

/// The repository file stem of a family name.
pub fn google_font_family_stem(family: &str) -> (r: String)
    ensures
        r@ == spec_family_stem(family@),
{
    let normalized = normalize_google_family(family);
    let cs = chars_of(normalized.as_str());
    let runs = alnum_runs_of(&cs);
    let ghost rs = runs@.map_values(|p: (usize, usize)| (p.0 as int, p.1 as int));
    proof {
        lemma_run_scan_bounds(cs@);
        assert(rs.subrange(0, 0) =~= seq![]);
    }
    let mut out = String::new();
    let mut j: usize = 0;
    while j < runs.len()
        invariant
            j <= runs@.len(),
            rs == runs@.map_values(|p: (usize, usize)| (p.0 as int, p.1 as int)),
            rs == alnum_runs(cs@),
            forall|k: int| 0 <= k < rs.len() ==> 0 <= (#[trigger] rs[k]).0 < rs[k].1 <= cs@.len(),
            out@ == stem_of(cs@, rs.subrange(0, j as int)),
        decreases runs@.len() - j,
    {
        let (a, b) = runs[j];
        proof {
            assert(rs[j as int] == (a as int, b as int));
            assert(rs.subrange(0, j + 1).drop_last() =~= rs.subrange(0, j as int));
        }
        append_piece(&mut out, &cs, a, b);
        j = j + 1;
    }
    proof {
        assert(rs.subrange(0, runs@.len() as int) =~= rs);
    }
    out
}

/// `s` in Unicode lower case, as `str::to_lowercase` gives it.
pub uninterp spec fn lower_of(s: Seq<char>) -> Seq<char>;

/// Relies on `str::to_lowercase`: the lower-case text depends on the characters alone.
#[verifier::external_body]
fn lowercase(s: &str) -> (r: String)
    ensures
        r@ == lower_of(s@),
{
    s.to_lowercase()
}

/// The ASCII alphanumeric characters of `s`, in ASCII lower case.
pub open spec fn folder_chars(s: Seq<char>) -> Seq<char>
    decreases s.len(),
{
    if s.len() == 0 {
        seq![]
    } else if is_alnum(s.last()) {
        folder_chars(s.drop_last()).push(lower_char(s.last()))
    } else {
        folder_chars(s.drop_last())
    }
}

/// `base` followed by `suffix`, a dot and `ext`.
pub open spec fn file_url(base: Seq<char>, suffix: Seq<char>, ext: Seq<char>) -> Seq<char> {
    base + suffix + "."@ + ext
}

/// The repository URLs tried for one extension.
pub open spec fn repo_urls(base: Seq<char>, ext: Seq<char>) -> Seq<Seq<char>> {
    seq![
        file_url(base, ""@, ext),
        file_url(base, "-Regular"@, ext),
        file_url(base, "-400"@, ext),
        file_url(base, "-Bold"@, ext),
        file_url(base, "-Light"@, ext),
        file_url(base, "%5Bwght%5D"@, ext),
    ]
}

/// The Noto CJK URLs tried for one extension.
pub open spec fn noto_urls(base: Seq<char>, ext: Seq<char>) -> Seq<Seq<char>> {
    seq![
        file_url(base, ""@, ext),
        file_url(base, "-Regular"@, ext),
        file_url(base, "-Thin"@, ext),
        file_url(base, "-Light"@, ext),
        file_url(base, "-Medium"@, ext),
        file_url(base, "-DemiLight"@, ext),
        file_url(base, "-Bold"@, ext),
        file_url(base, "-Black"@, ext),
    ]
}

/// The CJK region that the last word of a family name (in lower case) stands for.
pub open spec fn region_of(word: Seq<char>) -> Option<Seq<char>> {
    if word == "kr"@ {
        Some("KR"@)
    } else if word == "jp"@ {
        Some("JP"@)
    } else if word == "sc"@ {
        Some("SC"@)
    } else if word == "tc"@ {
        Some("TC"@)
    } else if word == "hk"@ {
        Some("HK"@)
    } else {
        None
    }
}

/// The Noto CJK files tried for a family whose last word names a region
/// (`KR`, `JP`, `SC`, `TC`, `HK`): OTF first, then TTF, over the weights.
pub open spec fn spec_noto_candidates(family: Seq<char>) -> Seq<Seq<char>> {
    let words = words_of(lower_of(spec_normalize_family(family)));
    if words.len() == 0 {
        seq![]
    } else {
        match region_of(lower_of(words.last())) {
            Some(region) => {
                let base = "https://raw.githubusercontent.com/notofonts/noto-cjk/main/Sans/SubsetOTF/"@ + region
                    + "/"@ + spec_family_stem(family);
                noto_urls(base, "otf"@) + noto_urls(base, "ttf"@)
            },
            None => seq![],
        }
    }
}

/// The files of a family tried in the Google Fonts repository: TTF, then
/// OTF, over the usual suffixes, then the Noto CJK candidates.
pub open spec fn spec_repo_candidates(family: Seq<char>) -> Seq<Seq<char>> {
    let base = "https://raw.githubusercontent.com/google/fonts/main/ofl/"@ + folder_chars(
        spec_normalize_family(family),
    ) + "/"@ + spec_family_stem(family);
    repo_urls(base, "ttf"@) + repo_urls(base, "otf"@) + spec_noto_candidates(family)
}

/// Appends `base`, `suffix`, a dot and `ext` as one URL.
fn push_url(out: &mut Vec<String>, base: &String, suffix: &str, ext: &str)
    ensures
        final(out)@.map_values(|u: String| u@) == old(out)@.map_values(|u: String| u@).push(
            file_url(base@, suffix@, ext@),
        ),
{
    let ghost before = out@;
    let mut s = base.clone();
    s.append(suffix);
    s.append(".");
    s.append(ext);
    out.push(s);
    proof {
        assert(out@.map_values(|u: String| u@) =~= before.map_values(|u: String| u@).push(
            file_url(base@, suffix@, ext@),
        ));
    }
}

/// Appends the Noto CJK URLs for one extension.
fn push_noto(out: &mut Vec<String>, base: &String, ext: &str)
    ensures
        final(out)@.map_values(|u: String| u@) == old(out)@.map_values(|u: String| u@) + noto_urls(base@, ext@),
{
    let ghost before = old(out)@.map_values(|u: String| u@);
    push_url(out, base, "", ext);
    push_url(out, base, "-Regular", ext);
    push_url(out, base, "-Thin", ext);
    push_url(out, base, "-Light", ext);
    push_url(out, base, "-Medium", ext);
    push_url(out, base, "-DemiLight", ext);
    push_url(out, base, "-Bold", ext);
    push_url(out, base, "-Black", ext);
    proof {
        assert(out@.map_values(|u: String| u@) =~= before + noto_urls(base@, ext@));
    }
}

/// Appends the repository URLs for one extension.
fn push_repo(out: &mut Vec<String>, base: &String, ext: &str)
    ensures
        final(out)@.map_values(|u: String| u@) == old(out)@.map_values(|u: String| u@) + repo_urls(base@, ext@),
{
    let ghost before = old(out)@.map_values(|u: String| u@);
    push_url(out, base, "", ext);
    push_url(out, base, "-Regular", ext);
    push_url(out, base, "-400", ext);
    push_url(out, base, "-Bold", ext);
    push_url(out, base, "-Light", ext);
    push_url(out, base, "%5Bwght%5D", ext);
    proof {
        assert(out@.map_values(|u: String| u@) =~= before + repo_urls(base@, ext@));
    }
}

/// The Noto CJK font URLs tried for a family.
pub fn google_font_noto_cjk_candidates(family: &str) -> (r: Vec<String>)
    ensures
        r@.map_values(|u: String| u@) == spec_noto_candidates(family@),
{
    let normalized = normalize_google_family(family);
    let lowered = lowercase(normalized.as_str());
    let ranges = word_ranges_of_str(lowered.as_str());
    let mut out: Vec<String> = Vec::new();
    if ranges.len() == 0 {
        proof {
            assert(out@.map_values(|u: String| u@) =~= spec_noto_candidates(family@));
        }
        return out;
    }
    let (a, b) = ranges[ranges.len() - 1];
    let last = lowercase(lowered.as_str().substring_char(a, b));
    let l = String::from_str(last.as_str());
    let region = if l == String::from_str("kr") {
        "KR"
    } else if l == String::from_str("jp") {
        "JP"
    } else if l == String::from_str("sc") {
        "SC"
    } else if l == String::from_str("tc") {
        "TC"
    } else if l == String::from_str("hk") {
        "HK"
    } else {
        proof {
            assert(out@.map_values(|u: String| u@) =~= spec_noto_candidates(family@));
        }
        return out;
    };
    let mut base = String::from_str("https://raw.githubusercontent.com/notofonts/noto-cjk/main/Sans/SubsetOTF/");
    base.append(region);
    base.append("/");
    let stem = google_font_family_stem(family);
    base.append(stem.as_str());
    proof {
        assert(out@.map_values(|u: String| u@) =~= seq![]);
    }
    push_noto(&mut out, &base, "otf");
    push_noto(&mut out, &base, "ttf");
    out
}

/// The font URLs tried in the Google Fonts repository for a family.
pub fn google_font_repo_candidates(family: &str) -> (r: Vec<String>)
    ensures
        r@.map_values(|u: String| u@) == spec_repo_candidates(family@),
{
    let normalized = normalize_google_family(family);
    let cs = chars_of(normalized.as_str());
    let mut base = String::from_str("https://raw.githubusercontent.com/google/fonts/main/ofl/");
    let ghost start = base@;
    let mut i: usize = 0;
    while i < cs.len()
        invariant
            i <= cs@.len(),
            base@ == start + folder_chars(cs@.subrange(0, i as int)),
        decreases cs@.len() - i,
    {
        proof {
            assert(cs@.subrange(0, i + 1).drop_last() =~= cs@.subrange(0, i as int));
        }
        let c = cs[i];
        if alnum(c) {
            let l = if 'A' <= c && c <= 'Z' { ((c as u8) + 32) as char } else { c };
            push_char(&mut base, l);
        }
        i = i + 1;
    }
    proof {
        assert(cs@.subrange(0, cs@.len() as int) =~= cs@);
    }
    base.append("/");
    let stem = google_font_family_stem(family);
    base.append(stem.as_str());
    let mut out: Vec<String> = Vec::new();
    proof {
        assert(out@.map_values(|u: String| u@) =~= seq![]);
    }
    push_repo(&mut out, &base, "ttf");
    push_repo(&mut out, &base, "otf");
    let noto = google_font_noto_cjk_candidates(family);
    let ghost before = out@.map_values(|u: String| u@);
    let mut k: usize = 0;
    while k < noto.len()
        invariant
            k <= noto@.len(),
            out@.map_values(|u: String| u@) == before + noto@.map_values(|u: String| u@).subrange(0, k as int),
        decreases noto@.len() - k,
    {
        let ghost prev = out@;
        out.push(noto[k].clone());
        proof {
            assert(out@.map_values(|u: String| u@) =~= prev.map_values(|u: String| u@).push(noto@[k as int]@));
            assert(noto@.map_values(|u: String| u@).subrange(0, k + 1) =~= noto@.map_values(|u: String| u@).subrange(0, k as int).push(noto@[k as int]@));
        }
        k = k + 1;
    }
    proof {
        assert(noto@.map_values(|u: String| u@).subrange(0, noto@.len() as int) =~= noto@.map_values(|u: String| u@));
        assert(out@.map_values(|u: String| u@) =~= spec_repo_candidates(family@));
    }
    out
}

} // verus!
