//! Audio feature analysis for music visualisation: the frame grid, the
//! analysis windows, beat selection, tempo and beat tracking, together with
//! the text and configuration helpers of the renderer around it.
pub mod frames;
pub mod spectrum;
pub mod onset;
pub mod beats;
pub mod text;
pub mod subtitle;
pub mod config;
pub mod effects;
pub mod templates;
pub mod models;
pub mod bytes;
pub mod fonts;
pub mod font_fetch;
pub mod google_fonts;
pub mod font_search;
