//! Fetching a font from a URL that may name a font file, a stylesheet that
//! links one, or a Google Fonts family. Each download or search is done by
//! the caller; this module decides, from what came back, what to do next.
use vstd::prelude::*;
use vstd::string::*;
use vstd::utf8::encode_utf8;
use crate::fonts::{
    css_urls_from, extract_css_urls, lossy_string, find_ttf_font_url, is_css_like, is_font_like_resource, lossy_utf8,
    opt_text, spec_css_like, spec_find_ttf, spec_font_like,
};

verus! {

/// How far a font fetch has come.
#[derive(Clone, Copy, Debug, PartialEq, Eq, Structural)]
pub enum FontStage {
    /// Waiting for the resource at the requested URL.
    Primary,
    /// Waiting for the search of the Google Fonts repository.
    Repo,
    /// Waiting for the font URL found in the stylesheet.
    Resolved,
    /// Waiting for the search of the Google Fonts download archive.
    Archive,
    /// Done: a font or an error was handed out.
    Finished,
}

/// The state of a font fetch.
pub struct FontFetch {
    /// The URL the user gave.
    pub url: String,
    /// The Google Fonts family the URL names, if any.
    pub family: Option<String>,
    pub stage: FontStage,
    /// The font URL being fetched in `FontStage::Resolved`.
    pub resolved: String,
    /// The URLs that the first resource's text references.
    pub urls: Vec<String>,
    /// Whether the first resource looked like a stylesheet.
    pub css_like: bool,
}

/// What the caller reports back.
pub enum FontEvent {
    /// The resource of the last `FontAction::Fetch`, with its content type.
    Fetched { body: Vec<u8>, content_type: Option<String> },
    /// The font that the Google Fonts repository search found, if any.
    RepoFont(Option<Vec<u8>>),
    /// The font that the Google Fonts archive held, if any.
    ArchiveFont(Option<Vec<u8>>),
}

/// Why no font came out.
#[derive(Debug)]
pub enum FontUrlError {
    /// The font URL found in the stylesheet gave something else than a font.
    ResolvedNotFont,
    /// A Google Fonts family URL exposed no downloadable TTF or OTF.
    NoFontForFamily(String),
    /// The resource was a stylesheet without any font URL.
    NoFontUrls,
    /// The stylesheet only linked other formats; these are its URLs.
    OnlyOtherFormats(Vec<String>),
    /// An event came that the current stage does not wait for.
    OutOfOrder,
}

/// What the caller is to do next.
pub enum FontAction {
    /// Download this URL and report `FontEvent::Fetched`.
    Fetch(String),
    /// Search the Google Fonts repository for this family and report `FontEvent::RepoFont`.
    SearchGoogleRepo(String),
    /// Fetch the Google Fonts archive of this family and report `FontEvent::ArchiveFont`.
    SearchGoogleArchive(String),
    /// The font's bytes.
    Done(Vec<u8>),
    Fail(FontUrlError),
}

/// The state of a fetch as values.
pub struct FetchModel {
    pub url: Seq<char>,
    pub family: Option<Seq<char>>,
    pub stage: FontStage,
    pub resolved: Seq<char>,
    pub urls: Seq<Seq<char>>,
    pub css_like: bool,
}

/// An event as values.
pub enum EventModel {
    Fetched(Seq<u8>, Option<Seq<char>>),
    RepoFont(Option<Seq<u8>>),
    ArchiveFont(Option<Seq<u8>>),
}

/// An error as values.
pub enum FailModel {
    ResolvedNotFont,
    NoFontForFamily(Seq<char>),
    NoFontUrls,
    OnlyOtherFormats(Seq<Seq<char>>),
    OutOfOrder,
}

/// An action as values.
pub enum ActionModel {
    Fetch(Seq<char>),
    SearchGoogleRepo(Seq<char>),
    SearchGoogleArchive(Seq<char>),
    Done(Seq<u8>),
    Fail(FailModel),
}

/// The text of an optional string.
pub open spec fn opt_string(o: Option<String>) -> Option<Seq<char>> {
    match o {
        Some(s) => Some(s@),
        None => None,
    }
}

/// The bytes of an optional buffer.
pub open spec fn opt_bytes(o: Option<Vec<u8>>) -> Option<Seq<u8>> {
    match o {
        Some(b) => Some(b@),
        None => None,
    }
}

/// The texts of a list of strings.
pub open spec fn strings(v: Seq<String>) -> Seq<Seq<char>> {
    v.map_values(|s: String| s@)
}

/// A fetch state as values.
pub open spec fn fetch_model(f: &FontFetch) -> FetchModel {
    FetchModel {
        url: f.url@,
        family: opt_string(f.family),
        stage: f.stage,
        resolved: f.resolved@,
        urls: strings(f.urls@),
        css_like: f.css_like,
    }
}

/// An event as values.
pub open spec fn event_model(e: &FontEvent) -> EventModel {
    match e {
        FontEvent::Fetched { body, content_type } => EventModel::Fetched(body@, opt_string(*content_type)),
        FontEvent::RepoFont(b) => EventModel::RepoFont(opt_bytes(*b)),
        FontEvent::ArchiveFont(b) => EventModel::ArchiveFont(opt_bytes(*b)),
    }
}

/// An error as values.
pub open spec fn fail_model(e: &FontUrlError) -> FailModel {
    match e {
        FontUrlError::ResolvedNotFont => FailModel::ResolvedNotFont,
        FontUrlError::NoFontForFamily(f) => FailModel::NoFontForFamily(f@),
        FontUrlError::NoFontUrls => FailModel::NoFontUrls,
        FontUrlError::OnlyOtherFormats(u) => FailModel::OnlyOtherFormats(strings(u@)),
        FontUrlError::OutOfOrder => FailModel::OutOfOrder,
    }
}

/// An action as values.
pub open spec fn action_model(a: &FontAction) -> ActionModel {
    match a {
        FontAction::Fetch(u) => ActionModel::Fetch(u@),
        FontAction::SearchGoogleRepo(f) => ActionModel::SearchGoogleRepo(f@),
        FontAction::SearchGoogleArchive(f) => ActionModel::SearchGoogleArchive(f@),
        FontAction::Done(b) => ActionModel::Done(b@),
        FontAction::Fail(e) => ActionModel::Fail(fail_model(e)),
    }
}

/// Nothing led to a font: the error says what the first resource held.
pub open spec fn fail_step(s: FetchModel) -> (FetchModel, ActionModel) {
    let err = if s.urls.len() == 0 {
        match s.family {
            Some(f) => FailModel::NoFontForFamily(f),
            None => FailModel::NoFontUrls,
        }
    } else {
        FailModel::OnlyOtherFormats(s.urls)
    };
    (FetchModel { stage: FontStage::Finished, ..s }, ActionModel::Fail(err))
}

/// Last resort: the Google Fonts archive of the family, if there is one.
pub open spec fn archive_step(s: FetchModel) -> (FetchModel, ActionModel) {
    match s.family {
        Some(f) => (FetchModel { stage: FontStage::Archive, ..s }, ActionModel::SearchGoogleArchive(f)),
        None => fail_step(s),
    }
}

/// A stylesheet (or a text with URLs) may link a TTF or OTF file: fetch it.
pub open spec fn resolve_step(s: FetchModel) -> (FetchModel, ActionModel) {
    if s.css_like || s.urls.len() > 0 {
        match spec_find_ttf(s.urls, s.url) {
            Some(r) => (FetchModel { stage: FontStage::Resolved, resolved: r, ..s }, ActionModel::Fetch(r)),
            None => archive_step(s),
        }
    } else {
        archive_step(s)
    }
}

/// One step of a font fetch: the next state and action for an event.
pub open spec fn spec_font_step(s: FetchModel, e: EventModel) -> (FetchModel, ActionModel) {
    let done = FetchModel { stage: FontStage::Finished, ..s };
    match (s.stage, e) {
        (FontStage::Primary, EventModel::Fetched(body, ct)) => {
            if spec_font_like(body, ct, s.url) {
                (done, ActionModel::Done(body))
            } else {
                let s2 = FetchModel {
                    urls: css_urls_from(encode_utf8(lossy_utf8(body))),
                    css_like: spec_css_like(body, ct),
                    ..s
                };
                match s.family {
                    Some(f) => (FetchModel { stage: FontStage::Repo, ..s2 }, ActionModel::SearchGoogleRepo(f)),
                    None => resolve_step(s2),
                }
            }
        },
        (FontStage::Repo, EventModel::RepoFont(Some(b))) => (done, ActionModel::Done(b)),
        (FontStage::Repo, EventModel::RepoFont(None)) => resolve_step(s),
        (FontStage::Resolved, EventModel::Fetched(body, ct)) => {
            if spec_font_like(body, ct, s.resolved) {
                (done, ActionModel::Done(body))
            } else {
                (done, ActionModel::Fail(FailModel::ResolvedNotFont))
            }
        },
        (FontStage::Archive, EventModel::ArchiveFont(Some(b))) => (done, ActionModel::Done(b)),
        (FontStage::Archive, EventModel::ArchiveFont(None)) => fail_step(s),
        _ => (done, ActionModel::Fail(FailModel::OutOfOrder)),
    }
}

/// A copy of a list of strings.
fn clone_strings(v: &Vec<String>) -> (r: Vec<String>)
    ensures
        strings(r@) == strings(v@),
{
    let mut out: Vec<String> = Vec::new();
    let mut i: usize = 0;
    while i < v.len()
        invariant
            i <= v@.len(),
            strings(out@) == strings(v@.subrange(0, i as int)),
        decreases v@.len() - i,
    {
        let s: &String = &v[i];
        let c = s.clone();
        assert(c@ == v@[i as int]@);
        let ghost before = out@;
        out.push(c);
        proof {
            assert(strings(out@) =~= strings(before).push(c@));
            assert(strings(v@.subrange(0, i + 1)) =~= strings(v@.subrange(0, i as int)).push(v@[i as int]@));
        }
        i = i + 1;
    }
    proof {
        assert(v@.subrange(0, v@.len() as int) =~= v@);
    }
    out
}

/// A copy of an optional string.
fn clone_opt(o: &Option<String>) -> (r: Option<String>)
    ensures
        opt_string(r) == opt_string(*o),
{
    match o {
        Some(s) => Some(s.clone()),
        None => None,
    }
}

impl FontFetch {
    /// A fetch of `url`, which names the Google Fonts family `family` if
    /// any; the first action downloads `url`.
    pub fn start(url: &str, family: Option<String>) -> (r: (FontFetch, FontAction))
        ensures
            fetch_model(&r.0) == (FetchModel {
                url: url@,
                family: opt_string(family),
                stage: FontStage::Primary,
                resolved: seq![],
                urls: seq![],
                css_like: false,
            }),
            action_model(&r.1) == ActionModel::Fetch(url@),
    {
        let f = FontFetch {
            url: String::from_str(url),
            family,
            stage: FontStage::Primary,
            resolved: String::new(),
            urls: Vec::new(),
            css_like: false,
        };
        proof {
            assert(strings(f.urls@) =~= seq![]);
        }
        (f, FontAction::Fetch(String::from_str(url)))
    }

    fn fail_now(&mut self) -> (r: FontAction)
        ensures
            (fetch_model(final(self)), action_model(&r)) == fail_step(fetch_model(old(self))),
    {
        self.stage = FontStage::Finished;
        if self.urls.len() == 0 {
            match &self.family {
                Some(f) => FontAction::Fail(FontUrlError::NoFontForFamily(f.clone())),
                None => FontAction::Fail(FontUrlError::NoFontUrls),
            }
        } else {
            FontAction::Fail(FontUrlError::OnlyOtherFormats(clone_strings(&self.urls)))
        }
    }

    fn archive_now(&mut self) -> (r: FontAction)
        ensures
            (fetch_model(final(self)), action_model(&r)) == archive_step(fetch_model(old(self))),
    {
        match clone_opt(&self.family) {
            Some(f) => {
                self.stage = FontStage::Archive;
                FontAction::SearchGoogleArchive(f)
            },
            None => self.fail_now(),
        }
    }

    fn resolve_now(&mut self) -> (r: FontAction)
        ensures
            (fetch_model(final(self)), action_model(&r)) == resolve_step(fetch_model(old(self))),
    {
        if self.css_like || self.urls.len() > 0 {
            match find_ttf_font_url(&self.urls, self.url.as_str()) {
                Some(r) => {
                    self.stage = FontStage::Resolved;
                    self.resolved = r.clone();
                    FontAction::Fetch(r)
                },
                None => self.archive_now(),
            }
        } else {
            self.archive_now()
        }
    }
}

/// Advances a font fetch by one event: the state changes as
/// `spec_font_step` says, and the returned action is the caller's next
/// task. A resource that is a font is taken at once; otherwise the Google
/// Fonts repository is searched when the URL names a family, then a TTF or
/// OTF URL that the stylesheet links is fetched, then the family's archive
/// is searched; when all fail the error says what the resource held.
pub fn load_font_from_url(fetch: &mut FontFetch, event: FontEvent) -> (r: FontAction)
    ensures
        (fetch_model(final(fetch)), action_model(&r)) == spec_font_step(fetch_model(old(fetch)), event_model(&event)),
{
    let ghost e = event_model(&event);
    match (fetch.stage, event) {
        (FontStage::Primary, FontEvent::Fetched { body, content_type }) => {
            let ct: Option<&str> = match &content_type {
                Some(c) => Some(c.as_str()),
                None => None,
            };
            assert(opt_text(ct) == opt_string(content_type));
            if is_font_like_resource(body.as_slice(), ct, fetch.url.as_str()) {
                fetch.stage = FontStage::Finished;
                return FontAction::Done(body);
            }
            let text = lossy_string(body.as_slice());
            fetch.urls = extract_css_urls(text.as_str());
            fetch.css_like = is_css_like(body.as_slice(), ct);
            match clone_opt(&fetch.family) {
                Some(f) => {
                    fetch.stage = FontStage::Repo;
                    FontAction::SearchGoogleRepo(f)
                },
                None => fetch.resolve_now(),
            }
        },
        (FontStage::Repo, FontEvent::RepoFont(Some(b))) => {
            fetch.stage = FontStage::Finished;
            FontAction::Done(b)
        },
        (FontStage::Repo, FontEvent::RepoFont(None)) => fetch.resolve_now(),
        (FontStage::Resolved, FontEvent::Fetched { body, content_type }) => {
            let ct: Option<&str> = match &content_type {
                Some(c) => Some(c.as_str()),
                None => None,
            };
            assert(opt_text(ct) == opt_string(content_type));
            fetch.stage = FontStage::Finished;
            if is_font_like_resource(body.as_slice(), ct, fetch.resolved.as_str()) {
                FontAction::Done(body)
            } else {
                FontAction::Fail(FontUrlError::ResolvedNotFont)
            }
        },
        (FontStage::Archive, FontEvent::ArchiveFont(Some(b))) => {
            fetch.stage = FontStage::Finished;
            FontAction::Done(b)
        },
        (FontStage::Archive, FontEvent::ArchiveFont(None)) => fetch.fail_now(),
        _ => {
            fetch.stage = FontStage::Finished;
            FontAction::Fail(FontUrlError::OutOfOrder)
        },
    }
}

} // verus!
