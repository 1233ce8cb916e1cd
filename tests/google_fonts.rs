use sonica::fonts::is_zip_url;
use sonica::google_fonts::{
    detect_google_fonts_family, google_font_family_stem, google_font_noto_cjk_candidates,
    google_font_repo_candidates, normalize_google_family,
};

#[test]
fn family_names_are_cleaned() {
    assert_eq!(normalize_google_family("Noto+Sans+KR"), "Noto Sans KR");
    assert_eq!(normalize_google_family("  \"Open%20Sans:wght@400;700\" "), "Open Sans");
    assert_eq!(normalize_google_family("'Roboto'"), "Roboto");
    // quotes are trimmed before the options are cut off
    assert_eq!(normalize_google_family("'Roboto';x"), "Roboto'");
    assert_eq!(normalize_google_family(""), "");
}

#[test]
fn family_stems() {
    assert_eq!(google_font_family_stem("open sans"), "OpenSans");
    assert_eq!(google_font_family_stem("Noto Sans KR"), "NotoSansKR");
    assert_eq!(google_font_family_stem("IBM plex-MONO"), "IBMPlexMONO");
    assert_eq!(google_font_family_stem("ab cd"), "abcd");
}

#[test]
fn families_from_urls() {
    assert_eq!(
        detect_google_fonts_family("https://fonts.googleapis.com/css2?family=Noto+Sans+KR:wght@400&display=swap"),
        Some("Noto Sans KR".to_string())
    );
    assert_eq!(
        detect_google_fonts_family("https://fonts.google.com/specimen/Inter+Tight"),
        Some("Inter Tight".to_string())
    );
    assert_eq!(detect_google_fonts_family("https://fonts.google.com/about"), None);
    assert_eq!(detect_google_fonts_family("https://example.com/f.ttf"), None);
    assert_eq!(detect_google_fonts_family("https://fonts.googleapis.com/css?x=1"), None);
    assert_eq!(detect_google_fonts_family("not a url"), None);
}

#[test]
fn repo_candidates() {
    let c = google_font_repo_candidates("Open Sans");
    assert_eq!(c.len(), 12);
    assert_eq!(c[0], "https://raw.githubusercontent.com/google/fonts/main/ofl/opensans/OpenSans.ttf");
    assert_eq!(c[1], "https://raw.githubusercontent.com/google/fonts/main/ofl/opensans/OpenSans-Regular.ttf");
    assert_eq!(c[5], "https://raw.githubusercontent.com/google/fonts/main/ofl/opensans/OpenSans%5Bwght%5D.ttf");
    assert_eq!(c[6], "https://raw.githubusercontent.com/google/fonts/main/ofl/opensans/OpenSans.otf");
}

#[test]
fn noto_cjk_candidates() {
    let c = google_font_noto_cjk_candidates("Noto Sans KR");
    assert_eq!(c.len(), 16);
    assert_eq!(
        c[0],
        "https://raw.githubusercontent.com/notofonts/noto-cjk/main/Sans/SubsetOTF/KR/NotoSansKR.otf"
    );
    assert_eq!(
        c[15],
        "https://raw.githubusercontent.com/notofonts/noto-cjk/main/Sans/SubsetOTF/KR/NotoSansKR-Black.ttf"
    );
    assert!(google_font_noto_cjk_candidates("Roboto").is_empty());
    assert_eq!(google_font_repo_candidates("Noto Sans JP").len(), 28);
}

#[test]
fn zip_urls() {
    assert!(is_zip_url("https://x.test/a.ZIP"));
    assert!(is_zip_url("https://x.test/a.zip?dl=1"));
    assert!(!is_zip_url("https://x.test/a.zipx"));
}
