//! Caption discovery and transcript parsing for video pages.
//!
//! The crate has two independent halves. The locator finds the caption-track
//! list that a video page embeds between two anchor strings and picks the
//! track of a requested language. The parser turns a timed-text document into
//! an ordered list of timestamped segments, which can then be rendered as
//! text. Every function states its behaviour in a contract over the character
//! sequences of its inputs.

pub mod clock;
pub mod config;
pub mod error;
pub mod format;
pub mod json;
pub mod locator;
pub mod markup;
pub mod parser;
pub mod text;
pub mod time;

pub use config::{Config, HTMLParserConfig, LangCode};
pub use error::ParseError;
pub use format::{format_lang_code, format_parser, Format};
pub use json::Json;
pub use locator::{locate_caption_track, Caption};
pub use markup::MarkupDocument;
pub use parser::{
    parse_transcript, render_human_readable, Transcript, TranscriptCore, TranscriptParser,
};
pub use time::TimeOffset;
