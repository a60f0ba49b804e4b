//! How a command line names the output format and the language.

use crate::config::LangCode;
use crate::text::same_text;
use vstd::prelude::*;
use vstd::string::StringExecFns;

verus! {

/// The form in which a transcript is written out.
#[derive(Clone, Copy, Debug, PartialEq, Eq, Structural)]
pub enum Format {
    /// As JSON.
    Json,
    /// As text for reading.
    Text,
}

/// What the refusal of a text that names no format begins with; the text follows.
pub open spec fn unknown_format_prefix() -> Seq<char> {
    "Cannot find json / text as format definition. Recieved "@
}

/// `r` is what reading `text` as the name of a format gives: the format
/// that `text` names, or the refusal of `text` where it names none.
pub open spec fn reads_format(text: Seq<char>, r: Result<Format, String>) -> bool {
    match r {
        Ok(format) => format.name() == text,
        Err(message) => text != Format::Json.name() && text != Format::Text.name() && message@
            == unknown_format_prefix() + text,
    }
}

impl Format {
    /// The name of the format.
    pub open spec fn name(self) -> Seq<char> {
        match self {
            Format::Json => "json"@,
            Format::Text => "text"@,
        }
    }

    /// Returns the name of the format.
    pub fn as_str(&self) -> (r: &'static str)
        ensures
            r@ == self.name(),
    {
        match self {
            Format::Json => "json",
            Format::Text => "text",
        }
    }

    /// Returns the name of the format as a string of its own.
    pub fn to_string(&self) -> (r: String)
        ensures
            r@ == self.name(),
    {
        String::from_str(self.as_str())
    }

    /// Reads the name of a format: `json` or `text`, in lower case. Any
    /// other text is refused with a message that ends in that text.
    pub fn try_from(value: &str) -> (r: Result<Format, String>)
        ensures
            reads_format(value@, r),
    {
        if same_text(value, "json") {
            Ok(Format::Json)
        } else if same_text(value, "text") {
            Ok(Format::Text)
        } else {
            let mut message = String::from_str(
                "Cannot find json / text as format definition. Recieved ",
            );
            message.append(value);
            Err(message)
        }
    }
}

/// The two formats have different names.
pub proof fn lemma_format_names_distinct(a: Format, b: Format)
    requires
        a.name() == b.name(),
    ensures
        a == b,
{
    reveal_strlit("json");
    reveal_strlit("text");
    assert("json"@[0] == 'j');
    assert("text"@[0] == 't');
}

/// Names and formats map to each other both ways: reading the name of a
/// format gives that format.
pub proof fn lemma_format_round_trip(format: Format, r: Result<Format, String>)
    requires
        reads_format(format.name(), r),
    ensures
        r == Ok::<Format, String>(format),
{
    match r {
        Ok(read) => {
            lemma_format_names_distinct(read, format);
        },
        Err(_) => {},
    }
}

/// Reads the output format that a command line names.
pub fn format_parser(arg: &str) -> (r: Result<Format, String>)
    ensures
        reads_format(arg@, r),
{
    Format::try_from(arg)
}

/// Reads the language code that a command line names. A text that is the
/// code of no language is refused with the message `VariantNotFound`.
pub fn format_lang_code(arg: &str) -> (r: Result<LangCode, String>)
    ensures
        match r {
            Ok(lang) => lang.code() == arg@,
            Err(message) => (forall|lang: LangCode| lang.code() != arg@) && message@
                == "VariantNotFound"@,
        },
{
    match LangCode::from_str(arg) {
        Ok(lang) => Ok(lang),
        Err(_) => Err(String::from_str("VariantNotFound")),
    }
}

} // verus!
