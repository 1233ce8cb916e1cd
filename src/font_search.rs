//! Searches that stand behind a Google Fonts family: the candidate files of
//! the font repository, and the family's download archive. As for a font
//! fetch, the caller downloads and reports back; these steps decide.
use vstd::prelude::*;
use vstd::string::*;
use vstd::utf8::encode_utf8;
use crate::bytes::{lower, to_lower};
use crate::font_fetch::{opt_string, strings};
use crate::fonts::{
    css_urls_from, extract_css_urls, is_absolute_url, is_css_like, is_zip_like, is_zip_url, join_with_base,
    lossy_string, lossy_utf8, opt_text, resolve_font_url, spec_css_like, spec_zip_like, spec_zip_url,
};
use crate::google_fonts::{google_font_repo_candidates, spec_repo_candidates};
use crate::text::chars_of;

verus! {

/// Whether `bytes` parse as a font.
pub uninterp spec fn font_parses(bytes: Seq<u8>) -> bool;

/// Relies on `fontdue::Font::from_bytes` with default settings: whether the
/// bytes parse as a font depends on the bytes alone.
#[verifier::external_body]
fn parses_as_font(bytes: &[u8]) -> (r: bool)
    ensures
        r == font_parses(bytes@),
{
    fontdue::Font::from_bytes(bytes, fontdue::FontSettings::default()).is_ok()
}

/// What a download gave.
pub enum Download {
    Fetched { body: Vec<u8>, content_type: Option<String> },
    Failed,
}

/// What the caller is to do next in a search.
pub enum SearchAction {
    /// Download this URL and report the outcome.
    Fetch(String),
    /// The bytes sought.
    Found(Vec<u8>),
    /// Every candidate was tried in vain.
    Exhausted,
}

/// A download as values.
pub enum DownloadModel {
    Fetched(Seq<u8>, Option<Seq<char>>),
    Failed,
}

/// A search action as values.
pub enum SearchModel {
    Fetch(Seq<char>),
    Found(Seq<u8>),
    Exhausted,
}

pub open spec fn download_model(d: &Download) -> DownloadModel {
    match d {
        Download::Fetched { body, content_type } => DownloadModel::Fetched(body@, opt_string(*content_type)),
        Download::Failed => DownloadModel::Failed,
    }
}

pub open spec fn search_model(a: &SearchAction) -> SearchModel {
    match a {
        SearchAction::Fetch(u) => SearchModel::Fetch(u@),
        SearchAction::Found(b) => SearchModel::Found(b@),
        SearchAction::Exhausted => SearchModel::Exhausted,
    }
}

/// A walk through the repository files of a family; `next` is the index of
/// the first candidate not yet asked for.
pub struct RepoSearch {
    pub candidates: Vec<String>,
    pub next: usize,
}

/// Asks for the next candidate, if any.
pub open spec fn repo_advance(candidates: Seq<Seq<char>>, next: nat) -> (nat, SearchModel) {
    if next < candidates.len() {
        ((next + 1) as nat, SearchModel::Fetch(candidates[next as int]))
    } else {
        (next, SearchModel::Exhausted)
    }
}

/// One step of a repository search: a download that is a stylesheet or an
/// archive, does not parse as a font, or failed, moves on to the next
/// candidate; a font is the result.
pub open spec fn spec_repo_step(candidates: Seq<Seq<char>>, next: nat, d: DownloadModel) -> (nat, SearchModel) {
    match d {
        DownloadModel::Fetched(body, ct) => {
            if spec_css_like(body, ct) || spec_zip_like(body, ct) || !font_parses(body) {
                repo_advance(candidates, next)
            } else {
                (next, SearchModel::Found(body))
            }
        },
        DownloadModel::Failed => repo_advance(candidates, next),
    }
}

impl RepoSearch {
    fn advance(&mut self) -> (r: SearchAction)
        ensures
            final(self).candidates == old(self).candidates,
            (final(self).next as nat, search_model(&r)) == repo_advance(strings(old(self).candidates@), old(self).next as nat),
    {
        if self.next < self.candidates.len() {
            let url = self.candidates[self.next].clone();
            self.next = self.next + 1;
            SearchAction::Fetch(url)
        } else {
            SearchAction::Exhausted
        }
    }

    /// A search through the repository candidates of `family`; the first
    /// action asks for the first candidate.
    pub fn start(family: &str) -> (r: (RepoSearch, SearchAction))
        ensures
            strings(r.0.candidates@) == spec_repo_candidates(family@),
            (r.0.next as nat, search_model(&r.1)) == repo_advance(spec_repo_candidates(family@), 0),
    {
        let mut s = RepoSearch { candidates: google_font_repo_candidates(family), next: 0 };
        let a = s.advance();
        (s, a)
    }

    /// Advances the search by the outcome of the last download.
    pub fn step(&mut self, download: Download) -> (r: SearchAction)
        ensures
            final(self).candidates == old(self).candidates,
            (final(self).next as nat, search_model(&r)) == spec_repo_step(
                strings(old(self).candidates@),
                old(self).next as nat,
                download_model(&download),
            ),
    {
        match download {
            Download::Fetched { body, content_type } => {
                let ct: Option<&str> = match &content_type {
                    Some(c) => Some(c.as_str()),
                    None => None,
                };
                assert(opt_text(ct) == opt_string(content_type));
                if is_css_like(body.as_slice(), ct) || is_zip_like(body.as_slice(), ct) || !parses_as_font(
                    body.as_slice(),
                ) {
                    self.advance()
                } else {
                    SearchAction::Found(body)
                }
            },
            Download::Failed => self.advance(),
        }
    }
}

/// How far an archive search has come.
#[derive(Clone, Copy, Debug, PartialEq, Eq, Structural)]
pub enum ArchiveStage {
    /// Waiting for the family's download page.
    Page,
    /// Waiting for a zip link found on that page.
    Link,
    Finished,
}

/// A search for the download archive of a family: the download page, then
/// the zip links it references, from index `next` on.
pub struct ArchiveSearch {
    pub page_url: String,
    pub links: Vec<String>,
    pub next: usize,
    pub stage: ArchiveStage,
}

/// The state of an archive search as values.
pub struct ArchiveModel {
    pub page_url: Seq<char>,
    pub links: Seq<Seq<char>>,
    pub next: nat,
    pub stage: ArchiveStage,
}

pub open spec fn archive_model(a: &ArchiveSearch) -> ArchiveModel {
    ArchiveModel { page_url: a.page_url@, links: strings(a.links@), next: a.next as nat, stage: a.stage }
}

/// The family's download page: spaces in the family written as `+`.
pub open spec fn archive_page(family: Seq<char>) -> Seq<char> {
    "https://fonts.google.com/download?family="@ + family.map_values(|c: char| if c == ' ' { '+' } else { c })
}

/// Index of the first link at or after `from` that points at a zip file.
pub open spec fn next_zip_link(links: Seq<Seq<char>>, from: int) -> Option<int>
    decreases links.len() - from,
{
    if from < 0 || from >= links.len() {
        None
    } else if spec_zip_url(encode_utf8(links[from])) {
        Some(from)
    } else {
        next_zip_link(links, from + 1)
    }
}

/// Asks for the next zip link, made absolute against the page.
pub open spec fn link_advance(m: ArchiveModel) -> (ArchiveModel, SearchModel) {
    match next_zip_link(m.links, m.next as int) {
        Some(j) => (
            ArchiveModel { next: (j + 1) as nat, stage: ArchiveStage::Link, ..m },
            SearchModel::Fetch(resolve_font_url(m.links[j], m.page_url)),
        ),
        None => (ArchiveModel { stage: ArchiveStage::Finished, ..m }, SearchModel::Exhausted),
    }
}

/// One step of an archive search: a download that looks like a zip
/// archive is the result; otherwise the page's zip links are tried in turn.
pub open spec fn spec_archive_step(m: ArchiveModel, d: DownloadModel) -> (ArchiveModel, SearchModel) {
    let done = ArchiveModel { stage: ArchiveStage::Finished, ..m };
    match (m.stage, d) {
        (ArchiveStage::Page, DownloadModel::Fetched(body, ct)) => {
            if spec_zip_like(body, ct) {
                (done, SearchModel::Found(body))
            } else {
                link_advance(ArchiveModel { links: css_urls_from(encode_utf8(lossy_utf8(body))), next: 0, ..m })
            }
        },
        (ArchiveStage::Link, DownloadModel::Fetched(body, ct)) => {
            if spec_zip_like(body, ct) {
                (done, SearchModel::Found(body))
            } else {
                link_advance(m)
            }
        },
        _ => (done, SearchModel::Exhausted),
    }
}

impl ArchiveSearch {
    /// A search for the archive of `family`; the first action asks for its download page.
    pub fn start(family: &str) -> (r: (ArchiveSearch, SearchAction))
        ensures
            archive_model(&r.0) == (ArchiveModel {
                page_url: archive_page(family@),
                links: seq![],
                next: 0,
                stage: ArchiveStage::Page,
            }),
            search_model(&r.1) == SearchModel::Fetch(archive_page(family@)),
    {
        let cs = chars_of(family);
        let mut url = String::from_str("https://fonts.google.com/download?family=");
        let ghost start = url@;
        let ghost mapped = family@.map_values(|c: char| if c == ' ' { '+' } else { c });
        let mut i: usize = 0;
        while i < cs.len()
            invariant
                i <= cs@.len(),
                cs@ == family@,
                mapped == family@.map_values(|c: char| if c == ' ' { '+' } else { c }),
                url@ == start + mapped.subrange(0, i as int),
            decreases cs@.len() - i,
        {
            let ghost before = url@;
            if cs[i] == ' ' {
                url.append("+");
                proof {
                    reveal_strlit("+");
                }
            } else {
                url.append(family.substring_char(i, i + 1));
            }
            proof {
                assert(mapped.subrange(0, i + 1) =~= mapped.subrange(0, i as int).push(mapped[i as int]));
                assert(url@ =~= start + mapped.subrange(0, i + 1));
            }
            i = i + 1;
        }
        proof {
            assert(mapped.subrange(0, cs@.len() as int) =~= mapped);
        }
        let search = ArchiveSearch { page_url: url.clone(), links: Vec::new(), next: 0, stage: ArchiveStage::Page };
        proof {
            assert(strings(search.links@) =~= seq![]);
        }
        (search, SearchAction::Fetch(url))
    }

    fn advance_link(&mut self) -> (r: SearchAction)
        ensures
            (archive_model(final(self)), search_model(&r)) == link_advance(archive_model(old(self))),
    {
        let ghost ls = strings(self.links@);
        let mut j = if self.next <= self.links.len() { self.next } else { self.links.len() };
        while j < self.links.len() && !is_zip_url(self.links[j].as_str())
            invariant
                ls == strings(self.links@),
                next_zip_link(ls, self.next as int) == next_zip_link(ls, j as int),
                j <= self.links@.len(),
            decreases self.links@.len() - j,
        {
            j = j + 1;
        }
        if j < self.links.len() {
            let link = self.links[j].as_str();
            let url = if is_absolute_url(link) {
                String::from_str(link)
            } else {
                join_with_base(self.page_url.as_str(), link)
            };
            self.next = j + 1;
            self.stage = ArchiveStage::Link;
            SearchAction::Fetch(url)
        } else {
            self.stage = ArchiveStage::Finished;
            SearchAction::Exhausted
        }
    }

    /// Advances the search by the outcome of the last download.
    pub fn step(&mut self, download: Download) -> (r: SearchAction)
        ensures
            (archive_model(final(self)), search_model(&r)) == spec_archive_step(
                archive_model(old(self)),
                download_model(&download),
            ),
    {
        match (self.stage, download) {
            (ArchiveStage::Page, Download::Fetched { body, content_type }) => {
                let ct: Option<&str> = match &content_type {
                    Some(c) => Some(c.as_str()),
                    None => None,
                };
                assert(opt_text(ct) == opt_string(content_type));
                if is_zip_like(body.as_slice(), ct) {
                    self.stage = ArchiveStage::Finished;
                    return SearchAction::Found(body);
                }
                let text = lossy_string(body.as_slice());
                self.links = extract_css_urls(text.as_str());
                self.next = 0;
                self.advance_link()
            },
            (ArchiveStage::Link, Download::Fetched { body, content_type }) => {
                let ct: Option<&str> = match &content_type {
                    Some(c) => Some(c.as_str()),
                    None => None,
                };
                assert(opt_text(ct) == opt_string(content_type));
                if is_zip_like(body.as_slice(), ct) {
                    self.stage = ArchiveStage::Finished;
                    return SearchAction::Found(body);
                }
                self.advance_link()
            },
            _ => {
                self.stage = ArchiveStage::Finished;
                SearchAction::Exhausted
            },
        }
    }
}

/// `s` ends with `suffix`.
pub open spec fn ends_bytes(s: Seq<u8>, suffix: Seq<u8>) -> bool {
    suffix.len() <= s.len() && s.subrange(s.len() - suffix.len(), s.len() as int) == suffix
}

/// A file name that, in ASCII lower case, ends in `.ttf`, `.otf` or `.ttc`.
pub open spec fn is_font_file_name(name: Seq<char>) -> bool {
    let l = lower(encode_utf8(name));
    ends_bytes(l, seq![46u8, 116, 116, 102]) || ends_bytes(l, seq![46u8, 111, 116, 102]) || ends_bytes(
        l,
        seq![46u8, 116, 116, 99],
    )
}

/// Whether `s` ends with `suffix`.
fn bytes_end_with(s: &[u8], suffix: &[u8]) -> (r: bool)
    ensures
        r == ends_bytes(s@, suffix@),
{
    let n = s.len();
    let m = suffix.len();
    if m > n {
        return false;
    }
    let mut k: usize = 0;
    while k < m
        invariant
            m <= n,
            n == s@.len(),
            m == suffix@.len(),
            k <= m,
            forall|i: int| 0 <= i < k ==> s@[n - m + i] == suffix@[i],
        decreases m - k,
    {
        if s[n - m + k] != suffix[k] {
            proof {
                assert(s@.subrange(n - m, n as int)[k as int] != suffix@[k as int]);
            }
            return false;
        }
        k = k + 1;
    }
    proof {
        assert(s@.subrange(n - m, n as int) =~= suffix@);
    }
    true
}

/// Index of the first archive entry at or after `from` that is a font file.
pub open spec fn first_font_entry_from(entries: Seq<(Seq<char>, bool)>, from: int) -> Option<int>
    decreases entries.len() - from,
{
    if from < 0 || from >= entries.len() {
        None
    } else if !entries[from].1 && is_font_file_name(entries[from].0) {
        Some(from)
    } else {
        first_font_entry_from(entries, from + 1)
    }
}

/// The entry of a font archive to read: the first one, given as its name
/// and whether it is a directory, that is a TTF, OTF or TTC file.
pub fn first_font_entry(entries: &Vec<(String, bool)>) -> (r: Option<usize>)
    ensures
        match first_font_entry_from(entries@.map_values(|e: (String, bool)| (e.0@, e.1)), 0) {
            Some(i) => r == Some(i as usize),
            None => r is None,
        },
{
    let ghost es = entries@.map_values(|e: (String, bool)| (e.0@, e.1));
    let ttf = vec![46u8, 116, 116, 102];
    let otf = vec![46u8, 111, 116, 102];
    let ttc = vec![46u8, 116, 116, 99];
    let mut i: usize = 0;
    while i < entries.len()
        invariant
            i <= entries@.len(),
            es == entries@.map_values(|e: (String, bool)| (e.0@, e.1)),
            ttf@ == seq![46u8, 116, 116, 102],
            otf@ == seq![46u8, 111, 116, 102],
            ttc@ == seq![46u8, 116, 116, 99],
            first_font_entry_from(es, 0) == first_font_entry_from(es, i as int),
        decreases entries@.len() - i,
    {
        let (name, is_dir) = (&entries[i].0, entries[i].1);
        if !is_dir {
            let l = to_lower(name.as_str().as_bytes());
            if bytes_end_with(l.as_slice(), ttf.as_slice()) || bytes_end_with(l.as_slice(), otf.as_slice())
                || bytes_end_with(l.as_slice(), ttc.as_slice()) {
                return Some(i);
            }
        }
        i = i + 1;
    }
    None
}

} // verus!
