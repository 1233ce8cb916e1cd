use sonica::bytes::find_subslice;
use sonica::font_fetch::{load_font_from_url, FontAction, FontEvent, FontFetch, FontStage, FontUrlError};
use sonica::fonts::{
    extract_css_urls, find_ttf_font_url, is_absolute_url, is_css_like, is_font_like_resource,
    is_font_signature, is_ttf_or_otf_url, is_zip_like, join_with_base, split_host,
};

#[test]
fn font_signatures() {
    assert!(is_font_signature(&[0, 1, 0, 0, 9]));
    assert!(is_font_signature(b"OTTO...."));
    assert!(is_font_signature(b"wOF2"));
    assert!(is_font_signature(b"ttcf"));
    assert!(!is_font_signature(b"OTT"));
    assert!(!is_font_signature(b"<html>"));
}

#[test]
fn subslice_search() {
    assert_eq!(find_subslice(b"abcabc", b"ca"), Some(2));
    assert_eq!(find_subslice(b"abc", b"abcd"), None);
    assert_eq!(find_subslice(b"url(x) url(y)", b"url("), Some(0));
    assert_eq!(find_subslice(b"aaa", b"b"), None);
}

#[test]
fn css_detection() {
    assert!(is_css_like(b"", Some("Text/CSS; charset=utf-8")));
    assert!(is_css_like(b"@FONT-FACE { src: x }", None));
    assert!(is_css_like(b"src: URL(a.woff)", Some("text/plain")));
    assert!(!is_css_like(b"OTTO", Some("font/otf")));
}

#[test]
fn zip_detection() {
    assert!(is_zip_like(b"PK\x03\x04rest", None));
    assert!(is_zip_like(b"", Some("application/ZIP")));
    assert!(is_zip_like(b"", Some("application/octet-stream")));
    assert!(!is_zip_like(b"PK\x03", Some("text/html")));
}

#[test]
fn font_like_resources() {
    assert!(is_font_like_resource(b"true", None, "https://x.test/a"));
    assert!(is_font_like_resource(b"<", Some("Font/woff2"), "https://x.test/a"));
    assert!(is_font_like_resource(b"<", None, "https://x.test/fonts/A.TTF?v=1"));
    assert!(!is_font_like_resource(b"<", None, "https://x.test/style.css"));
    assert!(!is_font_like_resource(b"<", None, "not a url"));
}

#[test]
fn ttf_urls() {
    assert!(is_ttf_or_otf_url("https://x.test/a/Font-Regular.ttf"));
    assert!(is_ttf_or_otf_url("/f/b.OTF?x=1#frag"));
    assert!(is_ttf_or_otf_url("ttc"));
    assert!(!is_ttf_or_otf_url("https://x.test/a.woff2"));
    assert!(!is_ttf_or_otf_url("https://x.test/a.ttf.zip"));
}

#[test]
fn absolute_urls() {
    assert!(is_absolute_url("http://a"));
    assert!(is_absolute_url("https://a"));
    assert!(is_absolute_url("//cdn/a"));
    assert!(!is_absolute_url("/a/b"));
    assert!(!is_absolute_url("a.ttf"));
}

#[test]
fn host_splitting() {
    assert_eq!(
        split_host("https://example.com/path/x"),
        Some(("https".to_string(), "example.com".to_string()))
    );
    assert_eq!(split_host("ftp://host"), Some(("ftp".to_string(), "host".to_string())));
    assert_eq!(split_host("no-scheme/path"), None);
}

#[test]
fn joining_with_base() {
    assert_eq!(join_with_base("https://a.test/css/x.css", "f.ttf"), "https://a.test/css/f.ttf");
    assert_eq!(join_with_base("https://a.test/css/x.css", "/f.ttf"), "https://a.test/f.ttf");
    assert_eq!(join_with_base("https://a.test/css/x.css", "//cdn.test/f.ttf"), "https://cdn.test/f.ttf");
    assert_eq!(join_with_base("anything", "http://b.test/f.ttf"), "http://b.test/f.ttf");
    assert_eq!(join_with_base("rel/base/x.css", "f.ttf"), "rel/base/f.ttf");
    assert_eq!(join_with_base("nobase", "f.ttf"), "f.ttf");
    assert_eq!(join_with_base("https://a.test/x", ""), "");
}

#[test]
fn css_url_extraction() {
    let css = "@font-face { src: url( \"a.woff2\" ) format('woff2'), url('b.ttf',) ; } url() url(c.otf";
    // quotes are trimmed before trailing commas, so a quote before the comma stays
    assert_eq!(extract_css_urls(css), vec!["a.woff2".to_string(), "b.ttf'".to_string()]);
    assert!(extract_css_urls("no urls here").is_empty());
}

#[test]
fn first_ttf_url_is_resolved() {
    let urls = vec!["a.woff2".to_string(), "fonts/b.ttf".to_string(), "c.otf".to_string()];
    assert_eq!(
        find_ttf_font_url(&urls, "https://x.test/css/s.css"),
        Some("https://x.test/css/fonts/b.ttf".to_string())
    );
    assert_eq!(find_ttf_font_url(&vec!["a.woff".to_string()], "https://x.test/"), None);
}

#[test]
fn fetch_of_a_direct_font_is_done_at_once() {
    let (mut f, first) = FontFetch::start("https://x.test/f.ttf", None);
    assert!(matches!(first, FontAction::Fetch(ref u) if u == "https://x.test/f.ttf"));
    let r = load_font_from_url(&mut f, FontEvent::Fetched { body: b"OTTOdata".to_vec(), content_type: None });
    assert!(matches!(r, FontAction::Done(ref b) if b == b"OTTOdata"));
    assert_eq!(f.stage, FontStage::Finished);
}

#[test]
fn fetch_follows_stylesheet_link() {
    let (mut f, _) = FontFetch::start("https://x.test/css/s.css", None);
    let css = b"@font-face { src: url(../f/A.ttf); }".to_vec();
    let r = load_font_from_url(&mut f, FontEvent::Fetched { body: css, content_type: Some("text/css".to_string()) });
    assert!(matches!(r, FontAction::Fetch(ref u) if u == "https://x.test/f/A.ttf"));
    // the resolved URL ends in .ttf, which is taken as a font
    let r = load_font_from_url(&mut f, FontEvent::Fetched { body: b"data".to_vec(), content_type: None });
    assert!(matches!(r, FontAction::Done(ref b) if b == b"data"));
}

#[test]
fn fetch_rejects_resolved_resource_that_is_no_font() {
    // a base that does not parse as a URL: the link is joined textually
    let (mut f, _) = FontFetch::start("css/s.css", None);
    let r = load_font_from_url(&mut f, FontEvent::Fetched { body: b"src: url(f.ttf)".to_vec(), content_type: None });
    assert!(matches!(r, FontAction::Fetch(ref u) if u == "css/f.ttf"));
    let r = load_font_from_url(&mut f, FontEvent::Fetched { body: b"<html>".to_vec(), content_type: Some("text/html".to_string()) });
    assert!(matches!(r, FontAction::Fail(FontUrlError::ResolvedNotFont)));
}

#[test]
fn fetch_of_google_family_tries_repo_then_archive() {
    let (mut f, _) = FontFetch::start("https://fonts.googleapis.com/css2?family=Noto+Sans+KR", Some("Noto Sans KR".to_string()));
    let css = b"@font-face { src: url(https://fonts.gstatic.com/x.woff2) format('woff2'); }".to_vec();
    let r = load_font_from_url(&mut f, FontEvent::Fetched { body: css, content_type: Some("text/css".to_string()) });
    assert!(matches!(r, FontAction::SearchGoogleRepo(ref fam) if fam == "Noto Sans KR"));
    let r = load_font_from_url(&mut f, FontEvent::RepoFont(None));
    assert!(matches!(r, FontAction::SearchGoogleArchive(ref fam) if fam == "Noto Sans KR"));
    let r = load_font_from_url(&mut f, FontEvent::ArchiveFont(None));
    match r {
        FontAction::Fail(FontUrlError::OnlyOtherFormats(urls)) => {
            assert_eq!(urls, vec!["https://fonts.gstatic.com/x.woff2".to_string()])
        }
        _ => panic!("expected a failure listing the stylesheet's URLs"),
    }
}

#[test]
fn fetch_errors() {
    let (mut f, _) = FontFetch::start("https://x.test/page", None);
    let r = load_font_from_url(&mut f, FontEvent::Fetched { body: b"@font-face {}".to_vec(), content_type: None });
    assert!(matches!(r, FontAction::Fail(FontUrlError::NoFontUrls)));

    let (mut g, _) = FontFetch::start("https://fonts.google.com/specimen/Inter", Some("Inter".to_string()));
    let r = load_font_from_url(&mut g, FontEvent::Fetched { body: b"<html></html>".to_vec(), content_type: Some("text/html".to_string()) });
    assert!(matches!(r, FontAction::SearchGoogleRepo(_)));
    let r = load_font_from_url(&mut g, FontEvent::RepoFont(Some(b"font".to_vec())));
    assert!(matches!(r, FontAction::Done(ref b) if b == b"font"));

    let (mut h, _) = FontFetch::start("https://x.test/a", None);
    let r = load_font_from_url(&mut h, FontEvent::RepoFont(None));
    assert!(matches!(r, FontAction::Fail(FontUrlError::OutOfOrder)));
}
