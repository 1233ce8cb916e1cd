use sonica::config::{
    default_codec, default_crf, default_fps, default_height, default_subtitle_max_chars,
    default_whisper_model, default_width, OutputConfig,
};

#[test]
fn output_defaults() {
    let c = OutputConfig::default();
    assert_eq!(c.width, 1920);
    assert_eq!(c.height, 1080);
    assert_eq!(c.fps, 30);
    assert_eq!(c.crf, 18);
    assert_eq!(c.codec, "libx264");
    assert!(c.font.is_none());
    assert!(c.font_url.is_none());
}

#[test]
fn default_functions() {
    assert_eq!(default_width(), 1920);
    assert_eq!(default_height(), 1080);
    assert_eq!(default_fps(), 30);
    assert_eq!(default_crf(), 18);
    assert_eq!(default_codec(), "libx264");
    assert_eq!(default_whisper_model(), "base");
    assert_eq!(default_subtitle_max_chars(), 42);
}
