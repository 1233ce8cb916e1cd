//! Recognising font files, stylesheets and archives among downloaded
//! resources, and the URLs inside stylesheets that may lead to a font.
use vstd::prelude::*;
use vstd::string::*;
use crate::bytes::{contains, find_subslice, first_occurrence, has, lower, starts_with, to_lower};
use crate::templates::{drop_trailing_space, skip_space};
use vstd::slice::slice_subrange;
use vstd::utf8::encode_utf8;
use crate::text::{after_last_dot, chars_of, is_space, last_dot, spells, spells_ci};

verus! {

/// Whether `body` begins with the signature of a TrueType, OpenType,
/// collection or WOFF font.
pub open spec fn spec_font_signature(body: Seq<u8>) -> bool {
    body.len() >= 4 && {
        let h = body.subrange(0, 4);
        ||| h == seq![0u8, 1u8, 0u8, 0u8]
        ||| h == seq![116u8, 114, 117, 101]
        ||| h == seq![79u8, 84, 84, 79]
        ||| h == seq![116u8, 116, 99, 102]
        ||| h == seq![119u8, 79, 70, 70]
        ||| h == seq![119u8, 79, 70, 50]
    }
}

/// Whether `body` begins with a font file signature.
pub fn is_font_signature(body: &[u8]) -> (r: bool)
    ensures
        r == spec_font_signature(body@),
{
    if body.len() < 4 {
        return false;
    }
    let (a, b, c, d) = (body[0], body[1], body[2], body[3]);
    proof {
        assert(body@.subrange(0, 4) =~= seq![a, b, c, d]);
    }
    (a == 0 && b == 1 && c == 0 && d == 0) || (a == 116 && b == 114 && c == 117 && d == 101) || (a
        == 79 && b == 84 && c == 84 && d == 79) || (a == 116 && b == 116 && c == 99 && d
        == 102) || (a == 119 && b == 79 && c == 70 && d == 70) || (a == 119 && b == 79 && c
        == 70 && d == 50)
}

/// The text of an optional string.
pub open spec fn opt_text(o: Option<&str>) -> Option<Seq<char>> {
    match o {
        Some(s) => Some(s@),
        None => None,
    }
}

/// The content type, in ASCII lower case, contains `needle`.
pub open spec fn type_has(content_type: Option<Seq<char>>, needle: Seq<u8>) -> bool {
    match content_type {
        Some(ct) => contains(lower(encode_utf8(ct)), needle),
        None => false,
    }
}

/// Whether the lower-cased content type contains `needle`.
fn content_type_has(content_type: Option<&str>, needle: &Vec<u8>) -> (r: bool)
    requires
        needle@.len() > 0,
    ensures
        r == type_has(opt_text(content_type), needle@),
{
    match content_type {
        Some(ct) => {
            let l = to_lower(ct.as_bytes());
            has(l.as_slice(), needle.as_slice())
        },
        None => false,
    }
}

/// The bytes of `css`.
pub open spec fn css_word() -> Seq<u8> {
    seq![99u8, 115, 115]
}

/// The bytes of `@font-face`.
pub open spec fn font_face_word() -> Seq<u8> {
    seq![64u8, 102, 111, 110, 116, 45, 102, 97, 99, 101]
}

/// The bytes of `url(`.
pub open spec fn url_open_word() -> Seq<u8> {
    seq![117u8, 114, 108, 40]
}

/// The bytes of `woff2`.
pub open spec fn woff2_word() -> Seq<u8> {
    seq![119u8, 111, 102, 102, 50]
}

/// The bytes of `format('woff2')`.
pub open spec fn format_woff2_word() -> Seq<u8> {
    seq![102u8, 111, 114, 109, 97, 116, 40, 39, 119, 111, 102, 102, 50, 39, 41]
}

/// The bytes of `font/`.
pub open spec fn font_type_word() -> Seq<u8> {
    seq![102u8, 111, 110, 116, 47]
}

/// The bytes of `application/font`.
pub open spec fn application_font_word() -> Seq<u8> {
    seq![97u8, 112, 112, 108, 105, 99, 97, 116, 105, 111, 110, 47, 102, 111, 110, 116]
}

/// The bytes of `application/octet-stream`.
pub open spec fn octet_stream_word() -> Seq<u8> {
    seq![
        97u8, 112, 112, 108, 105, 99, 97, 116, 105, 111, 110, 47, 111, 99, 116, 101,
        116, 45, 115, 116, 114, 101, 97, 109,
    ]
}

/// The bytes of `zip`.
pub open spec fn zip_word() -> Seq<u8> {
    seq![122u8, 105, 112]
}

/// The bytes of `binary`.
pub open spec fn binary_word() -> Seq<u8> {
    seq![98u8, 105, 110, 97, 114, 121]
}

/// The zip local file header signature, `PK\x03\x04`.
pub open spec fn zip_signature() -> Seq<u8> {
    seq![80u8, 75, 3u8, 4u8]
}

/// A stylesheet: its content type mentions CSS, or its text (in ASCII lower
/// case) holds an `@font-face` rule, a `url(` or a WOFF2 reference.
pub open spec fn spec_css_like(body: Seq<u8>, content_type: Option<Seq<char>>) -> bool {
    ||| type_has(content_type, css_word())
    ||| contains(lower(body), font_face_word())
    ||| contains(lower(body), url_open_word())
    ||| contains(lower(body), woff2_word())
    ||| contains(lower(body), format_woff2_word())
}

/// Whether a downloaded resource looks like a stylesheet rather than a font.
pub fn is_css_like(body: &[u8], content_type: Option<&str>) -> (r: bool)
    ensures
        r == spec_css_like(body@, opt_text(content_type)),
{
    if content_type_has(content_type, &vec![99u8, 115, 115]) {
        return true;
    }
    let l = to_lower(body);
    has(l.as_slice(), vec![64u8, 102, 111, 110, 116, 45, 102, 97, 99, 101].as_slice())
        || has(l.as_slice(), vec![117u8, 114, 108, 40].as_slice())
        || has(l.as_slice(), vec![119u8, 111, 102, 102, 50].as_slice())
        || has(
        l.as_slice(),
        vec![102u8, 111, 114, 109, 97, 116, 40, 39, 119, 111, 102, 102, 50, 39, 41].as_slice(),
    )
}

/// A zip archive: its content type mentions zip, a byte stream or binary
/// data, or it begins with the zip signature `PK\x03\x04`.
pub open spec fn spec_zip_like(body: Seq<u8>, content_type: Option<Seq<char>>) -> bool {
    ||| type_has(content_type, zip_word())
    ||| type_has(content_type, octet_stream_word())
    ||| type_has(content_type, binary_word())
    ||| (body.len() >= 4 && body.subrange(0, 4) == zip_signature())
}

/// Whether a downloaded resource looks like a zip archive.
pub fn is_zip_like(body: &[u8], content_type: Option<&str>) -> (r: bool)
    ensures
        r == spec_zip_like(body@, opt_text(content_type)),
{
    content_type_has(content_type, &vec![122u8, 105, 112])
        || content_type_has(content_type, &octet_stream())
        || content_type_has(content_type, &vec![98u8, 105, 110, 97, 114, 121])
        || starts_with(body, vec![80u8, 75, 3u8, 4u8].as_slice())
}

/// The bytes of `application/octet-stream`.
fn octet_stream() -> (r: Vec<u8>)
    ensures
        r@ == octet_stream_word(),
{
    let r = vec![
        97u8, 112, 112, 108, 105, 99, 97, 116, 105, 111, 110, 47, 111, 99, 116, 101,
        116, 45, 115, 116, 114, 101, 97, 109,
    ];
    proof {
        assert(r@ =~= octet_stream_word());
    }
    r
}


/// The path of `url` once parsed as an absolute URL; `None` when it does not parse.
pub uninterp spec fn url_path_of(url: Seq<char>) -> Option<Seq<char>>;

/// `base` parsed as an absolute URL and `relative` resolved against it, as
/// a string; `None` when either step fails.
pub uninterp spec fn url_joined(base: Seq<char>, relative: Seq<char>) -> Option<Seq<char>>;

/// Relies on `reqwest::Url::parse` (the `url` crate's parser) and
/// `Url::path`: the path of a parsed URL is a function of the input string.
#[verifier::external_body]
pub(crate) fn url_path(url: &str) -> (r: Option<String>)
    ensures
        match r {
            Some(p) => url_path_of(url@) == Some(p@),
            None => url_path_of(url@) is None,
        },
{
    reqwest::Url::parse(url).ok().map(|u| u.path().to_string())
}

/// Relies on `reqwest::Url::parse` and `Url::join`: resolving a reference
/// against a base is a function of the two strings.
#[verifier::external_body]
fn url_join(base: &str, relative: &str) -> (r: Option<String>)
    ensures
        match r {
            Some(j) => url_joined(base@, relative@) == Some(j@),
            None => url_joined(base@, relative@) is None,
        },
{
    reqwest::Url::parse(base).ok().and_then(|b| b.join(relative).ok()).map(|u| u.to_string())
}

/// The extension of `path`: what follows its last `'.'` (all of it without one).
pub open spec fn ext_start(path: Seq<char>) -> int {
    last_dot(path, path.len() as int) + 1
}

/// `s[a..b)` is, up to ASCII case, one of `ttf`, `otf`, `ttc`.
pub open spec fn spells_sfnt(s: Seq<char>, a: int, b: int) -> bool {
    ||| spells_ci(s, a, b, seq!['t', 't', 'f'])
    ||| spells_ci(s, a, b, seq!['o', 't', 'f'])
    ||| spells_ci(s, a, b, seq!['t', 't', 'c'])
}

/// `s[a..b)` is, up to ASCII case, a font file extension.
pub open spec fn spells_font_ext(s: Seq<char>, a: int, b: int) -> bool {
    ||| spells_sfnt(s, a, b)
    ||| spells_ci(s, a, b, seq!['w', 'o', 'f', 'f'])
    ||| spells_ci(s, a, b, seq!['w', 'o', 'f', 'f', '2'])
}

/// Whether `s[a..b)` is `ttf`, `otf` or `ttc`, in any ASCII case.
fn is_sfnt(s: &Vec<char>, a: usize, b: usize) -> (r: bool)
    requires
        a <= b <= s@.len(),
    ensures
        r == spells_sfnt(s@, a as int, b as int),
{
    spells(s, a, b, &vec!['t', 't', 'f']) || spells(s, a, b, &vec!['o', 't', 'f']) || spells(
        s,
        a,
        b,
        &vec!['t', 't', 'c'],
    )
}

/// A resource is a font when its bytes carry a font signature, its content
/// type names a font or a byte stream, or the path of its URL ends in a
/// font extension.
pub open spec fn spec_font_like(body: Seq<u8>, content_type: Option<Seq<char>>, url: Seq<char>) -> bool {
    ||| spec_font_signature(body)
    ||| type_has(content_type, font_type_word())
    ||| type_has(content_type, application_font_word())
    ||| type_has(content_type, octet_stream_word())
    ||| match url_path_of(url) {
        Some(p) => spells_font_ext(p, ext_start(p), p.len() as int),
        None => false,
    }
}

/// Whether a resource downloaded from `url` is a font.
pub fn is_font_like_resource(body: &[u8], content_type: Option<&str>, url: &str) -> (r: bool)
    ensures
        r == spec_font_like(body@, opt_text(content_type), url@),
{
    if is_font_signature(body) {
        return true;
    }
    if content_type_has(content_type, &vec![102u8, 111, 110, 116, 47])
        || content_type_has(
        content_type,
        &vec![97u8, 112, 112, 108, 105, 99, 97, 116, 105, 111, 110, 47, 102, 111, 110, 116],
    ) || content_type_has(content_type, &octet_stream()) {
        return true;
    }
    match url_path(url) {
        Some(p) => {
            let cs = chars_of(p.as_str());
            let n = cs.len();
            let a = after_last_dot(&cs, n);
            is_sfnt(&cs, a, n) || spells(&cs, a, n, &vec!['w', 'o', 'f', 'f']) || spells(
                &cs,
                a,
                n,
                &vec!['w', 'o', 'f', 'f', '2'],
            )
        },
        None => false,
    }
}

/// Index of the first `'?'` or `'#'` of `s` at or after `i`, or its length.
pub open spec fn query_start(s: Seq<char>, i: int) -> int
    decreases s.len() - i,
{
    if i >= s.len() {
        s.len() as int
    } else if s[i] == '?' || s[i] == '#' {
        i
    } else {
        query_start(s, i + 1)
    }
}

/// The URL, without its query and fragment, ends in `.ttf`, `.otf` or
/// `.ttc` (any case); a URL without a dot must be just that word.
pub open spec fn spec_ttf_or_otf_url(url: Seq<char>) -> bool {
    let end = query_start(url, 0);
    spells_sfnt(url, last_dot(url, end) + 1, end)
}

/// Whether `url` points at a TrueType or OpenType font file.
pub fn is_ttf_or_otf_url(url: &str) -> (r: bool)
    ensures
        r == spec_ttf_or_otf_url(url@),
{
    let cs = chars_of(url);
    let mut end: usize = 0;
    while end < cs.len() && cs[end] != '?' && cs[end] != '#'
        invariant
            end <= cs@.len(),
            query_start(cs@, 0) == query_start(cs@, end as int),
        decreases cs@.len() - end,
    {
        end = end + 1;
    }
    let a = after_last_dot(&cs, end);
    is_sfnt(&cs, a, end)
}


/// `s` begins with `p`.
pub open spec fn begins(s: Seq<char>, p: Seq<char>) -> bool {
    p.len() <= s.len() && s.subrange(0, p.len() as int) == p
}

/// Whether `s` begins with `p`.
pub(crate) fn begins_with(s: &str, p: &str) -> (r: bool)
    ensures
        r == begins(s@, p@),
{
    let cs = chars_of(s);
    let ps = chars_of(p);
    if ps.len() > cs.len() {
        return false;
    }
    let mut k: usize = 0;
    while k < ps.len()
        invariant
            ps@.len() <= cs@.len(),
            cs@ == s@,
            ps@ == p@,
            k <= ps@.len(),
            forall|m: int| 0 <= m < k ==> cs@[m] == ps@[m],
        decreases ps@.len() - k,
    {
        if cs[k] != ps[k] {
            proof {
                assert(cs@.subrange(0, ps@.len() as int)[k as int] != ps@[k as int]);
            }
            return false;
        }
        k = k + 1;
    }
    proof {
        assert(cs@.subrange(0, ps@.len() as int) =~= ps@);
    }
    true
}

/// The URL names its scheme, or is scheme-relative (`//host/...`).
pub open spec fn spec_absolute_url(url: Seq<char>) -> bool {
    begins(url, "http://"@) || begins(url, "https://"@) || begins(url, "//"@)
}

/// Whether `url` is absolute: it starts with `http://`, `https://` or `//`.
pub fn is_absolute_url(url: &str) -> (r: bool)
    ensures
        r == spec_absolute_url(url@),
{
    begins_with(url, "http://") || begins_with(url, "https://") || begins_with(url, "//")
}

/// Index of the first `"://"` in `s` at or after `i`, or -1.
pub open spec fn scheme_sep(s: Seq<char>, i: int) -> int
    decreases s.len() - i,
{
    if i < 0 || i + 3 > s.len() {
        -1
    } else if s[i] == ':' && s[i + 1] == '/' && s[i + 2] == '/' {
        i
    } else {
        scheme_sep(s, i + 1)
    }
}

/// Index of the first `'/'` in `s` at or after `i`, or the length of `s`.
pub open spec fn slash_from(s: Seq<char>, i: int) -> int
    decreases s.len() - i,
{
    if i >= s.len() {
        s.len() as int
    } else if s[i] == '/' {
        i
    } else {
        slash_from(s, i + 1)
    }
}

/// Scheme and host of `url`: what precedes the first `"://"`, and what
/// follows it up to the next `'/'`. `None` without a `"://"`.
pub open spec fn spec_split_host(url: Seq<char>) -> Option<(Seq<char>, Seq<char>)> {
    let k = scheme_sep(url, 0);
    if k < 0 {
        None
    } else {
        Some((url.subrange(0, k), url.subrange(k + 3, slash_from(url, k + 3))))
    }
}

proof fn lemma_scheme_sep_range(s: Seq<char>, i: int)
    requires
        0 <= i,
    ensures
        scheme_sep(s, i) == -1 || (i <= scheme_sep(s, i) && scheme_sep(s, i) + 3 <= s.len()),
    decreases s.len() - i,
{
    if i + 3 <= s.len() && !(s[i] == ':' && s[i + 1] == '/' && s[i + 2] == '/') {
        lemma_scheme_sep_range(s, i + 1);
    }
}

proof fn lemma_slash_from_range(s: Seq<char>, i: int)
    requires
        0 <= i <= s.len(),
    ensures
        i <= slash_from(s, i) <= s.len(),
    decreases s.len() - i,
{
    if i < s.len() && s[i] != '/' {
        lemma_slash_from_range(s, i + 1);
    }
}

/// Splits `url` into its scheme and host.
pub fn split_host(url: &str) -> (r: Option<(String, String)>)
    ensures
        match spec_split_host(url@) {
            Some((scheme, host)) => r matches Some(p) && p.0@ == scheme && p.1@ == host,
            None => r is None,
        },
{
    let cs = chars_of(url);
    let n = cs.len();
    let mut k: usize = 0;
    proof {
        lemma_scheme_sep_range(cs@, 0);
    }
    while n >= 3 && k <= n - 3 && !(cs[k] == ':' && cs[k + 1] == '/' && cs[k + 2] == '/')
        invariant
            k <= n,
            n == cs@.len(),
            cs@ == url@,
            scheme_sep(cs@, 0) == scheme_sep(cs@, k as int),
        decreases n - k,
    {
        k = k + 1;
    }
    if n < 3 || k > n - 3 {
        return None;
    }
    let mut e: usize = k + 3;
    proof {
        lemma_slash_from_range(cs@, k + 3);
    }
    while e < n && cs[e] != '/'
        invariant
            k + 3 <= e <= n,
            n == cs@.len(),
            slash_from(cs@, k + 3) == slash_from(cs@, e as int),
        decreases n - e,
    {
        e = e + 1;
    }
    Some((String::from_str(url.substring_char(0, k)), String::from_str(url.substring_char(k + 3, e))))
}

/// Index of the last `'/'` in `s`, or -1.
pub open spec fn last_slash(s: Seq<char>, end: int) -> int
    decreases end,
{
    if end <= 0 {
        -1
    } else if s[end - 1] == '/' {
        end - 1
    } else {
        last_slash(s, end - 1)
    }
}

/// `relative` resolved against `base`: kept when empty or absolute with a
/// scheme; given `https:` when scheme-relative; else resolved by the URL
/// parser; failing that, a root-relative path goes after the base's scheme
/// and host, and any other after the base up to its last `'/'`; else it is
/// kept as it is.
pub open spec fn spec_join_with_base(base: Seq<char>, relative: Seq<char>) -> Seq<char> {
    if relative.len() == 0 || begins(relative, "http://"@) || begins(relative, "https://"@) {
        relative
    } else if begins(relative, "//"@) {
        "https:"@ + relative
    } else if url_joined(base, relative) is Some {
        url_joined(base, relative)->0
    } else if begins(relative, "/"@) && spec_split_host(base) is Some {
        let (scheme, host) = spec_split_host(base)->0;
        scheme + "://"@ + host + relative
    } else if last_slash(base, base.len() as int) >= 0 {
        base.subrange(0, last_slash(base, base.len() as int) + 1) + relative
    } else {
        relative
    }
}

/// Resolves `relative_url` against `base_url`.
pub fn join_with_base(base_url: &str, relative_url: &str) -> (r: String)
    ensures
        r@ == spec_join_with_base(base_url@, relative_url@),
{
    if relative_url.unicode_len() == 0 || begins_with(relative_url, "http://") || begins_with(
        relative_url,
        "https://",
    ) {
        return String::from_str(relative_url);
    }
    if begins_with(relative_url, "//") {
        let mut s = String::from_str("https:");
        s.append(relative_url);
        return s;
    }
    match url_join(base_url, relative_url) {
        Some(j) => {
            return j;
        },
        None => {},
    }
    if begins_with(relative_url, "/") {
        match split_host(base_url) {
            Some((scheme, host)) => {
                let mut s = scheme;
                s.append("://");
                s.append(host.as_str());
                s.append(relative_url);
                return s;
            },
            None => {},
        }
    }
    let cs = chars_of(base_url);
    let mut e = cs.len();
    while e > 0 && cs[e - 1] != '/'
        invariant
            e <= cs@.len(),
            cs@ == base_url@,
            last_slash(cs@, cs@.len() as int) == last_slash(cs@, e as int),
        decreases e,
    {
        e = e - 1;
    }
    if e > 0 {
        let mut s = String::from_str(base_url.substring_char(0, e));
        s.append(relative_url);
        return s;
    }
    String::from_str(relative_url)
}

/// Where a font URL found in a stylesheet points: itself when absolute,
/// else resolved against the stylesheet's URL.
pub open spec fn resolve_font_url(url: Seq<char>, base: Seq<char>) -> Seq<char> {
    if spec_absolute_url(url) {
        url
    } else {
        spec_join_with_base(base, url)
    }
}

/// The first of `urls` that names a TrueType or OpenType file, resolved.
pub open spec fn spec_find_ttf(urls: Seq<Seq<char>>, base: Seq<char>) -> Option<Seq<char>>
    decreases urls.len(),
{
    if urls.len() == 0 {
        None
    } else if spec_ttf_or_otf_url(urls[0]) {
        Some(resolve_font_url(urls[0], base))
    } else {
        spec_find_ttf(urls.subrange(1, urls.len() as int), base)
    }
}

/// The first URL of a stylesheet that names a TrueType or OpenType file,
/// made absolute against `base_url`.
pub fn find_ttf_font_url(css_urls: &Vec<String>, base_url: &str) -> (r: Option<String>)
    ensures
        match spec_find_ttf(css_urls@.map_values(|u: String| u@), base_url@) {
            Some(u) => r matches Some(s) && s@ == u,
            None => r is None,
        },
{
    let ghost us = css_urls@.map_values(|u: String| u@);
    let mut k: usize = 0;
    proof {
        assert(us.subrange(0, us.len() as int) =~= us);
    }
    while k < css_urls.len()
        invariant
            k <= css_urls@.len(),
            us == css_urls@.map_values(|u: String| u@),
            spec_find_ttf(us, base_url@) == spec_find_ttf(us.subrange(k as int, us.len() as int), base_url@),
        decreases css_urls@.len() - k,
    {
        let ghost rest = us.subrange(k as int, us.len() as int);
        proof {
            assert(rest.subrange(1, rest.len() as int) =~= us.subrange(k + 1, us.len() as int));
        }
        let u = css_urls[k].as_str();
        if is_ttf_or_otf_url(u) {
            if is_absolute_url(u) {
                return Some(String::from_str(u));
            }
            return Some(join_with_base(base_url, u));
        }
        k = k + 1;
    }
    None
}


/// The text of `bytes` decoded as UTF-8, each invalid sequence replaced by U+FFFD.
pub uninterp spec fn lossy_utf8(bytes: Seq<u8>) -> Seq<char>;

/// Relies on `String::from_utf8_lossy`: the decoded text depends on the bytes alone.
#[verifier::external_body]
pub(crate) fn lossy_string(bytes: &[u8]) -> (r: String)
    ensures
        r@ == lossy_utf8(bytes@),
{
    String::from_utf8_lossy(bytes).into_owned()
}

/// A double or single quote.
pub open spec fn is_quote(c: char) -> bool {
    c == '"' || c == '\''
}

/// First index in `[a, b)` that holds no quote, or `b`.
pub open spec fn skip_quotes(s: Seq<char>, a: int, b: int) -> int
    decreases b - a,
{
    if a >= b || !is_quote(s[a]) {
        a
    } else {
        skip_quotes(s, a + 1, b)
    }
}

/// End of `[a, b)` once trailing quotes are dropped.
pub open spec fn drop_quotes(s: Seq<char>, a: int, b: int) -> int
    decreases b - a,
{
    if b <= a || !is_quote(s[b - 1]) {
        b
    } else {
        drop_quotes(s, a, b - 1)
    }
}

/// End of `[a, b)` once trailing commas are dropped.
pub open spec fn drop_commas(s: Seq<char>, a: int, b: int) -> int
    decreases b - a,
{
    if b <= a || s[b - 1] != ',' {
        b
    } else {
        drop_commas(s, a, b - 1)
    }
}

/// The argument of a `url(...)` cleaned: whitespace trimmed, then quotes
/// trimmed from both ends, then trailing commas dropped.
pub open spec fn clean_token(t: Seq<char>) -> Seq<char> {
    let a = skip_space(t, 0, t.len() as int);
    let b = drop_trailing_space(t, a, t.len() as int);
    let a2 = skip_quotes(t, a, b);
    let b2 = drop_quotes(t, a2, b);
    t.subrange(a2, drop_commas(t, a2, b2))
}

/// The non-empty cleaned arguments of the `url(...)` references of `css`,
/// in order; a `url(` without a closing `)` ends the scan.
pub open spec fn css_urls_from(css: Seq<u8>) -> Seq<Seq<char>>
    decreases css.len(),
{
    match first_occurrence(css, url_open_word()) {
        None => seq![],
        Some(st) => {
            if 0 <= st && st + 4 <= css.len() {
                let after = css.subrange(st + 4, css.len() as int);
                match first_occurrence(after, seq![41u8]) {
                    None => seq![],
                    Some(e) => {
                        if 0 <= e && e + 1 <= after.len() {
                            let tok = clean_token(lossy_utf8(after.subrange(0, e)));
                            let tail = css_urls_from(after.subrange(e + 1, after.len() as int));
                            if tok.len() == 0 {
                                tail
                            } else {
                                seq![tok] + tail
                            }
                        } else {
                            seq![]
                        }
                    },
                }
            } else {
                seq![]
            }
        },
    }
}

/// `t` cleaned as a `url(...)` argument.
fn clean(t: &str) -> (r: String)
    ensures
        r@ == clean_token(t@),
{
    let cs = chars_of(t);
    let n = cs.len();
    let mut a: usize = 0;
    while a < n && is_space(cs[a])
        invariant
            a <= n == cs@.len(),
            skip_space(cs@, 0, n as int) == skip_space(cs@, a as int, n as int),
        decreases n - a,
    {
        a = a + 1;
    }
    let mut b: usize = n;
    while b > a && is_space(cs[b - 1])
        invariant
            a <= b <= n == cs@.len(),
            skip_space(cs@, 0, n as int) == a,
            drop_trailing_space(cs@, a as int, n as int) == drop_trailing_space(cs@, a as int, b as int),
        decreases b - a,
    {
        b = b - 1;
    }
    let mut a2: usize = a;
    while a2 < b && (cs[a2] == '"' || cs[a2] == '\'')
        invariant
            a <= a2 <= b <= n == cs@.len(),
            skip_quotes(cs@, a as int, b as int) == skip_quotes(cs@, a2 as int, b as int),
        decreases b - a2,
    {
        a2 = a2 + 1;
    }
    let mut b2: usize = b;
    while b2 > a2 && (cs[b2 - 1] == '"' || cs[b2 - 1] == '\'')
        invariant
            a2 <= b2 <= b <= n == cs@.len(),
            drop_quotes(cs@, a2 as int, b as int) == drop_quotes(cs@, a2 as int, b2 as int),
        decreases b2 - a2,
    {
        b2 = b2 - 1;
    }
    let b2_fixed = b2;
    let mut b3: usize = b2;
    while b3 > a2 && cs[b3 - 1] == ','
        invariant
            a2 <= b3 <= b2_fixed <= n == cs@.len(),
            drop_commas(cs@, a2 as int, b2_fixed as int) == drop_commas(cs@, a2 as int, b3 as int),
        decreases b3 - a2,
    {
        b3 = b3 - 1;
    }
    proof {
        assert(skip_space(cs@, a as int, n as int) == a);
        assert(drop_trailing_space(cs@, a as int, b as int) == b);
        assert(skip_quotes(cs@, a2 as int, b as int) == a2);
        assert(drop_quotes(cs@, a2 as int, b2 as int) == b2);
        assert(drop_commas(cs@, a2 as int, b3 as int) == b3);
    }
    String::from_str(t.substring_char(a2, b3))
}

/// The URLs referenced by `url(...)` in a stylesheet, cleaned of quotes and
/// whitespace, empty ones left out.
pub fn extract_css_urls(css: &str) -> (r: Vec<String>)
    ensures
        r@.map_values(|u: String| u@) == css_urls_from(css.spec_bytes()),
{
    let bytes = css.as_bytes();
    let n = bytes.len();
    let open = vec![117u8, 114, 108, 40];
    let close = vec![41u8];
    proof {
        assert(open@ =~= url_open_word());
        assert(close@ =~= seq![41u8]);
        assert(bytes@.subrange(0, n as int) =~= bytes@);
    }
    let mut out: Vec<String> = Vec::new();
    let mut pos: usize = 0;
    while pos <= n
        invariant
            pos <= n == bytes@.len(),
            bytes@ == css.spec_bytes(),
            open@ == url_open_word(),
            close@ == seq![41u8],
            out@.map_values(|u: String| u@) + css_urls_from(bytes@.subrange(pos as int, n as int))
                == css_urls_from(bytes@),
        decreases n - pos,
    {
        let rest = slice_subrange(bytes, pos, n);
        let ghost rs = rest@;
        let ghost before = out@.map_values(|u: String| u@);
        match find_subslice(rest, open.as_slice()) {
            None => {
                proof {
                    assert(out@.map_values(|u: String| u@) =~= before + css_urls_from(rs));
                }
                return out;
            },
            Some(st) => {
                let after = slice_subrange(rest, st + 4, rest.len());
                match find_subslice(after, close.as_slice()) {
                    None => {
                        proof {
                            assert(out@.map_values(|u: String| u@) =~= before + css_urls_from(rs));
                        }
                        return out;
                    },
                    Some(e) => {
                        let tok = clean(lossy_string(slice_subrange(after, 0, e)).as_str());
                        proof {
                            assert(after@.subrange(e + 1, after@.len() as int) =~= bytes@.subrange(
                                pos + st + 4 + e + 1,
                                n as int,
                            ));
                        }
                        if tok.unicode_len() > 0 {
                            out.push(tok);
                            proof {
                                assert(out@.map_values(|u: String| u@) =~= before.push(tok@));
                                assert(before + css_urls_from(rs) =~= before.push(tok@) + css_urls_from(
                                    after@.subrange(e + 1, after@.len() as int),
                                ));
                            }
                        }
                        pos = pos + st + 4 + e + 1;
                    },
                }
            },
        }
    }
    out
}


/// The URL, in ASCII lower case, ends in `.zip` or has `.zip?` in it.
pub open spec fn spec_zip_url(url: Seq<u8>) -> bool {
    let l = lower(url);
    let z = seq![46u8, 122, 105, 112];
    (z.len() <= l.len() && l.subrange(l.len() - z.len(), l.len() as int) == z) || contains(
        l,
        z.push(63u8),
    )
}

/// Whether `url` points at a zip archive.
pub fn is_zip_url(url: &str) -> (r: bool)
    ensures
        r == spec_zip_url(url.spec_bytes()),
{
    let l = to_lower(url.as_bytes());
    let z = vec![46u8, 122, 105, 112];
    let n = l.len();
    let ends = n >= 4 && starts_with(slice_subrange(l.as_slice(), n - 4, n), z.as_slice());
    proof {
        if n >= 4 {
            assert(l@.subrange(n - 4, n as int).subrange(0, 4) =~= l@.subrange(n - 4, n as int));
        }
    }
    let zq = vec![46u8, 122, 105, 112, 63];
    proof {
        assert(zq@ =~= seq![46u8, 122, 105, 112].push(63u8));
    }
    ends || has(l.as_slice(), zq.as_slice())
}

} // verus!
