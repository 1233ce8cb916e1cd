use sonica::font_search::{first_font_entry, ArchiveSearch, ArchiveStage, Download, RepoSearch, SearchAction};

fn fetched(body: &[u8], content_type: Option<&str>) -> Download {
    Download::Fetched { body: body.to_vec(), content_type: content_type.map(|s| s.to_string()) }
}

#[test]
fn repo_search_walks_candidates() {
    let (mut s, first) = RepoSearch::start("Open Sans");
    assert_eq!(s.candidates.len(), 12);
    assert!(matches!(first, SearchAction::Fetch(ref u) if u == &s.candidates[0]));
    // a stylesheet, a failed download and garbage are all skipped
    let a = s.step(fetched(b"@font-face {}", Some("text/css")));
    assert!(matches!(a, SearchAction::Fetch(ref u) if u == &s.candidates[1]));
    let a = s.step(Download::Failed);
    assert!(matches!(a, SearchAction::Fetch(ref u) if u == &s.candidates[2]));
    let a = s.step(fetched(b"not a font", None));
    assert!(matches!(a, SearchAction::Fetch(ref u) if u == &s.candidates[3]));
    assert_eq!(s.next, 4);
}

#[test]
fn repo_search_ends_when_candidates_run_out() {
    let (mut s, _) = RepoSearch::start("Open Sans");
    let mut last = SearchAction::Exhausted;
    for _ in 0..12 {
        last = s.step(Download::Failed);
    }
    assert!(matches!(last, SearchAction::Exhausted));
}

#[test]
fn archive_search_page_is_the_archive() {
    let (mut s, first) = ArchiveSearch::start("Noto Sans KR");
    assert!(matches!(first, SearchAction::Fetch(ref u) if u == "https://fonts.google.com/download?family=Noto+Sans+KR"));
    let a = s.step(fetched(b"PK\x03\x04...", None));
    assert!(matches!(a, SearchAction::Found(ref b) if b.starts_with(b"PK")));
    assert_eq!(s.stage, ArchiveStage::Finished);
}

#[test]
fn archive_search_follows_zip_links() {
    let (mut s, _) = ArchiveSearch::start("Inter");
    let page = b"<a href=x> url(/a/readme.txt) url(/dl/inter.zip?v=2) url(other.zip)".to_vec();
    let a = s.step(Download::Fetched { body: page, content_type: Some("text/html".to_string()) });
    assert!(matches!(a, SearchAction::Fetch(ref u) if u == "https://fonts.google.com/dl/inter.zip?v=2"));
    let a = s.step(fetched(b"<html>", Some("text/html")));
    assert!(matches!(a, SearchAction::Fetch(ref u) if u == "https://fonts.google.com/other.zip"));
    let a = s.step(fetched(b"<html>", Some("text/html")));
    assert!(matches!(a, SearchAction::Exhausted));
}

#[test]
fn first_font_entry_skips_directories_and_other_files() {
    let entries = vec![
        ("fonts/".to_string(), true),
        ("README.txt".to_string(), false),
        ("static/Inter-Bold.TTF".to_string(), false),
        ("static/Inter-Regular.otf".to_string(), false),
    ];
    assert_eq!(first_font_entry(&entries), Some(2));
    assert_eq!(first_font_entry(&vec![("a.ttf/".to_string(), true)]), None);
    assert_eq!(first_font_entry(&Vec::new()), None);
}
