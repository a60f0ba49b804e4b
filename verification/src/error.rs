//! The errors that locating a caption track and parsing a transcript report.

use crate::config::LangCode;
use vstd::prelude::*;

verus! {

/// One of the two anchor strings that bound the embedded caption-track list.
#[derive(Clone, Copy, Debug, PartialEq, Eq, Structural)]
pub enum Anchor {
    /// The anchor that precedes the list.
    From,
    /// The anchor that follows the list.
    To,
}

/// One of the two numeric attributes of a timed-text element.
#[derive(Clone, Copy, Debug, PartialEq, Eq, Structural)]
pub enum TimeAttribute {
    /// The attribute `start`: when the segment begins.
    Start,
    /// The attribute `dur`: how long the segment lasts.
    Dur,
}

impl TimeAttribute {
    /// The attribute's name as it is written in a timed-text document.
    pub open spec fn name(self) -> Seq<char> {
        match self {
            TimeAttribute::Start => "start"@,
            TimeAttribute::Dur => "dur"@,
        }
    }

    /// Returns the attribute's name as it is written in a timed-text document.
    pub fn as_str(self) -> (r: &'static str)
        ensures
            r@ == self.name(),
    {
        match self {
            TimeAttribute::Start => "start",
            TimeAttribute::Dur => "dur",
        }
    }
}

/// Why a caption track could not be located, or a transcript not be parsed.
#[derive(Clone, Copy, Debug, PartialEq, Eq, Structural)]
pub enum ParseError {
    /// The page does not hold the anchor.
    AnchorNotFound { which: Anchor },
    /// What stands between the anchors is not JSON, or is not an object whose
    /// member `captionTracks` lists records with a `baseUrl` and a
    /// `languageCode`.
    MalformedEmbeddedPayload,
    /// No track of the list is in the requested language.
    LanguageNotAvailable { requested: LangCode },
    /// The timed-text document is not well-formed markup.
    MalformedDocument,
    /// A timed-text element lacks the attribute.
    MissingAttribute { name: TimeAttribute },
    /// The attribute of a timed-text element is not a decimal number of
    /// seconds, or is one too large to hold.
    InvalidNumericAttribute { name: TimeAttribute },
    /// A timed-text element has no last child, or one without text.
    MissingText,
}

impl ParseError {
    /// What the error says, in words.
    pub open spec fn description(self) -> Seq<char> {
        match self {
            ParseError::AnchorNotFound { which: Anchor::From } => "opening anchor not found"@,
            ParseError::AnchorNotFound { which: Anchor::To } => "closing anchor not found"@,
            ParseError::MalformedEmbeddedPayload => "caption tracks cannot be read"@,
            ParseError::LanguageNotAvailable { requested } => "no captions in this language"@,
            ParseError::MalformedDocument => "transcript is not well-formed"@,
            ParseError::MissingAttribute { name: TimeAttribute::Start } => "start is missing"@,
            ParseError::MissingAttribute { name: TimeAttribute::Dur } => "dur is missing"@,
            ParseError::InvalidNumericAttribute { name: TimeAttribute::Start } => {
                "start is no number"@
            },
            ParseError::InvalidNumericAttribute { name: TimeAttribute::Dur } => {
                "dur is no number"@
            },
            ParseError::MissingText => "text is missing"@,
        }
    }

    /// Returns what the error says, in words.
    pub fn as_str(&self) -> (r: &'static str)
        ensures
            r@ == self.description(),
    {
        match self {
            ParseError::AnchorNotFound { which: Anchor::From } => "opening anchor not found",
            ParseError::AnchorNotFound { which: Anchor::To } => "closing anchor not found",
            ParseError::MalformedEmbeddedPayload => "caption tracks cannot be read",
            ParseError::LanguageNotAvailable { requested } => "no captions in this language",
            ParseError::MalformedDocument => "transcript is not well-formed",
            ParseError::MissingAttribute { name: TimeAttribute::Start } => "start is missing",
            ParseError::MissingAttribute { name: TimeAttribute::Dur } => "dur is missing",
            ParseError::InvalidNumericAttribute { name: TimeAttribute::Start } => {
                "start is no number"
            },
            ParseError::InvalidNumericAttribute { name: TimeAttribute::Dur } => {
                "dur is no number"
            },
            ParseError::MissingText => "text is missing",
        }
    }
}

} // verus!
