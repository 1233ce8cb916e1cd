//! Output settings of a render and their defaults.
use vstd::prelude::*;
use vstd::string::*;

verus! {

/// Settings of the rendered video. `font` is a path to a font file and
/// `font_url` a URL to fetch one from.
#[derive(Debug)]
pub struct OutputConfig {
    pub width: u32,
    pub height: u32,
    pub fps: u32,
    pub crf: u32,
    pub codec: String,
    pub font: Option<String>,
    pub font_url: Option<String>,
}

/// Default frame width in pixels.
pub fn default_width() -> (r: u32)
    ensures
        r == 1920,
{
    1920
}

/// Default frame height in pixels.
pub fn default_height() -> (r: u32)
    ensures
        r == 1080,
{
    1080
}

/// Default frame rate.
pub fn default_fps() -> (r: u32)
    ensures
        r == 30,
{
    30
}

/// Default constant rate factor of the encoder.
pub fn default_crf() -> (r: u32)
    ensures
        r == 18,
{
    18
}

/// Default video codec.
pub fn default_codec() -> (r: String)
    ensures
        r@ == "libx264"@,
{
    String::from_str("libx264")
}

/// Default speech recognition model.
pub fn default_whisper_model() -> (r: String)
    ensures
        r@ == "base"@,
{
    String::from_str("base")
}

/// Default number of characters on a subtitle line.
pub fn default_subtitle_max_chars() -> (r: usize)
    ensures
        r == 42,
{
    42
}

impl Default for OutputConfig {
    fn default() -> (r: OutputConfig)
        ensures
            r.width == 1920,
            r.height == 1080,
            r.fps == 30,
            r.crf == 18,
            r.codec@ == "libx264"@,
            r.font is None,
            r.font_url is None,
    {
        OutputConfig {
            width: default_width(),
            height: default_height(),
            fps: default_fps(),
            crf: default_crf(),
            codec: default_codec(),
            font: None,
            font_url: None,
        }
    }
}

} // verus!
