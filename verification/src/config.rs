//! What the locator is configured with: the two anchors that bound the
//! caption-track list in a video page, and the language codes that can be asked for.

use crate::text::same_text;
use vstd::prelude::*;

verus! {

/// The anchors between which a video page embeds its caption-track list.
pub struct HTMLParserConfig {
    /// The text that precedes the list.
    pub from: &'static str,
    /// The text that follows the list.
    pub to: &'static str,
}

impl Default for HTMLParserConfig {
    /// The anchors of the pages as they are served today.
    fn default() -> (r: Self)
        ensures
            r.from@ == "playerCaptionsTracklistRenderer\":"@,
            r.to@ == "},\"videoDetails\""@,
    {
        Self { from: "playerCaptionsTracklistRenderer\":", to: "},\"videoDetails\"" }
    }
}

/// A language that a transcript can be asked in, named by its code.
#[allow(non_camel_case_types)]
#[derive(Debug, Clone, Copy, PartialEq, Eq, Structural)]
pub enum LangCode {
    /// Arabic
    ar,
    /// Bengali
    bn,
    /// Bulgarian
    bg,
    /// Catalan
    ca,
    /// Chinese, Simplified
    zh,
    /// Croatian
    hr,
    /// Czech
    cs,
    /// Danish
    da,
    /// Dutch
    nl,
    /// English
    en,
    /// Filipino
    fil,
    /// Finnish
    fi,
    /// French
    fr,
    /// German
    de,
    /// Greek
    el,
    /// Gujarati
    gu,
    /// Hebrew
    iw,
    /// Hindi
    hi,
    /// Hungarian
    hu,
    /// Indonesian
    id,
    /// Italian
    it,
    /// Japanese
    ja,
    /// Kannada
    kn,
    /// Korean
    ko,
    /// Latvian
    lv,
    /// Lithuanian
    lt,
    /// Malay
    ms,
    /// Malayalam
    ml,
    /// Marathi
    mr,
    /// Norwegian
    no,
    /// Polish
    pl,
    /// Portuguese
    pt,
    /// Romanian
    ro,
    /// Russian
    ru,
    /// Serbian
    sr,
    /// Slovak
    sk,
    /// Slovenian
    sl,
    /// Spanish
    es,
    /// Swahili
    sw,
    /// Swedish
    sv,
    /// Tamil
    ta,
    /// Telugu
    te,
    /// Thai
    th,
    /// Turkish
    tr,
    /// Ukrainian
    uk,
    /// Urdu
    ur,
    /// Vietnamese
    vi,
}

/// Why a text is no language code.
#[derive(Debug, Clone, Copy, PartialEq, Eq, Structural)]
pub enum UnknownLangCode {
    /// No language has the text as its code.
    VariantNotFound,
}

/// `r` is what reading `text` as a language code gives: the language whose
/// code `text` is, or a refusal where `text` is the code of no language.
pub open spec fn reads_code(text: Seq<char>, r: Result<LangCode, UnknownLangCode>) -> bool {
    match r {
        Ok(lang) => lang.code() == text,
        Err(_) => forall|lang: LangCode| lang.code() != text,
    }
}

impl LangCode {
    /// The code of the language: the text that names it in a caption-track list.
    pub open spec fn code(self) -> Seq<char> {
        match self {
            LangCode::ar => "ar"@,
            LangCode::bn => "bn"@,
            LangCode::bg => "bg"@,
            LangCode::ca => "ca"@,
            LangCode::zh => "zh"@,
            LangCode::hr => "hr"@,
            LangCode::cs => "cs"@,
            LangCode::da => "da"@,
            LangCode::nl => "nl"@,
            LangCode::en => "en"@,
            LangCode::fil => "fil"@,
            LangCode::fi => "fi"@,
            LangCode::fr => "fr"@,
            LangCode::de => "de"@,
            LangCode::el => "el"@,
            LangCode::gu => "gu"@,
            LangCode::iw => "iw"@,
            LangCode::hi => "hi"@,
            LangCode::hu => "hu"@,
            LangCode::id => "id"@,
            LangCode::it => "it"@,
            LangCode::ja => "ja"@,
            LangCode::kn => "kn"@,
            LangCode::ko => "ko"@,
            LangCode::lv => "lv"@,
            LangCode::lt => "lt"@,
            LangCode::ms => "ms"@,
            LangCode::ml => "ml"@,
            LangCode::mr => "mr"@,
            LangCode::no => "no"@,
            LangCode::pl => "pl"@,
            LangCode::pt => "pt"@,
            LangCode::ro => "ro"@,
            LangCode::ru => "ru"@,
            LangCode::sr => "sr"@,
            LangCode::sk => "sk"@,
            LangCode::sl => "sl"@,
            LangCode::es => "es"@,
            LangCode::sw => "sw"@,
            LangCode::sv => "sv"@,
            LangCode::ta => "ta"@,
            LangCode::te => "te"@,
            LangCode::th => "th"@,
            LangCode::tr => "tr"@,
            LangCode::uk => "uk"@,
            LangCode::ur => "ur"@,
            LangCode::vi => "vi"@,
        }
    }

    /// Returns the code of the language.
    pub fn as_str(self) -> (r: &'static str)
        ensures
            r@ == self.code(),
    {
        match self {
            LangCode::ar => "ar",
            LangCode::bn => "bn",
            LangCode::bg => "bg",
            LangCode::ca => "ca",
            LangCode::zh => "zh",
            LangCode::hr => "hr",
            LangCode::cs => "cs",
            LangCode::da => "da",
            LangCode::nl => "nl",
            LangCode::en => "en",
            LangCode::fil => "fil",
            LangCode::fi => "fi",
            LangCode::fr => "fr",
            LangCode::de => "de",
            LangCode::el => "el",
            LangCode::gu => "gu",
            LangCode::iw => "iw",
            LangCode::hi => "hi",
            LangCode::hu => "hu",
            LangCode::id => "id",
            LangCode::it => "it",
            LangCode::ja => "ja",
            LangCode::kn => "kn",
            LangCode::ko => "ko",
            LangCode::lv => "lv",
            LangCode::lt => "lt",
            LangCode::ms => "ms",
            LangCode::ml => "ml",
            LangCode::mr => "mr",
            LangCode::no => "no",
            LangCode::pl => "pl",
            LangCode::pt => "pt",
            LangCode::ro => "ro",
            LangCode::ru => "ru",
            LangCode::sr => "sr",
            LangCode::sk => "sk",
            LangCode::sl => "sl",
            LangCode::es => "es",
            LangCode::sw => "sw",
            LangCode::sv => "sv",
            LangCode::ta => "ta",
            LangCode::te => "te",
            LangCode::th => "th",
            LangCode::tr => "tr",
            LangCode::uk => "uk",
            LangCode::ur => "ur",
            LangCode::vi => "vi",
        }
    }

    /// Reads a language code. Succeeds exactly on the codes of the languages
    /// of this type, and returns the language that has the code.
    pub fn from_str(s: &str) -> (r: Result<LangCode, UnknownLangCode>)
        ensures
            reads_code(s@, r),
    {
        if same_text(s, "ar") {
            Ok(LangCode::ar)
        } else if same_text(s, "bn") {
            Ok(LangCode::bn)
        } else if same_text(s, "bg") {
            Ok(LangCode::bg)
        } else if same_text(s, "ca") {
            Ok(LangCode::ca)
        } else if same_text(s, "zh") {
            Ok(LangCode::zh)
        } else if same_text(s, "hr") {
            Ok(LangCode::hr)
        } else if same_text(s, "cs") {
            Ok(LangCode::cs)
        } else if same_text(s, "da") {
            Ok(LangCode::da)
        } else if same_text(s, "nl") {
            Ok(LangCode::nl)
        } else if same_text(s, "en") {
            Ok(LangCode::en)
        } else if same_text(s, "fil") {
            Ok(LangCode::fil)
        } else if same_text(s, "fi") {
            Ok(LangCode::fi)
        } else if same_text(s, "fr") {
            Ok(LangCode::fr)
        } else if same_text(s, "de") {
            Ok(LangCode::de)
        } else if same_text(s, "el") {
            Ok(LangCode::el)
        } else if same_text(s, "gu") {
            Ok(LangCode::gu)
        } else if same_text(s, "iw") {
            Ok(LangCode::iw)
        } else if same_text(s, "hi") {
            Ok(LangCode::hi)
        } else if same_text(s, "hu") {
            Ok(LangCode::hu)
        } else if same_text(s, "id") {
            Ok(LangCode::id)
        } else if same_text(s, "it") {
            Ok(LangCode::it)
        } else if same_text(s, "ja") {
            Ok(LangCode::ja)
        } else if same_text(s, "kn") {
            Ok(LangCode::kn)
        } else if same_text(s, "ko") {
            Ok(LangCode::ko)
        } else if same_text(s, "lv") {
            Ok(LangCode::lv)
        } else if same_text(s, "lt") {
            Ok(LangCode::lt)
        } else if same_text(s, "ms") {
            Ok(LangCode::ms)
        } else if same_text(s, "ml") {
            Ok(LangCode::ml)
        } else if same_text(s, "mr") {
            Ok(LangCode::mr)
        } else if same_text(s, "no") {
            Ok(LangCode::no)
        } else if same_text(s, "pl") {
            Ok(LangCode::pl)
        } else if same_text(s, "pt") {
            Ok(LangCode::pt)
        } else if same_text(s, "ro") {
            Ok(LangCode::ro)
        } else if same_text(s, "ru") {
            Ok(LangCode::ru)
        } else if same_text(s, "sr") {
            Ok(LangCode::sr)
        } else if same_text(s, "sk") {
            Ok(LangCode::sk)
        } else if same_text(s, "sl") {
            Ok(LangCode::sl)
        } else if same_text(s, "es") {
            Ok(LangCode::es)
        } else if same_text(s, "sw") {
            Ok(LangCode::sw)
        } else if same_text(s, "sv") {
            Ok(LangCode::sv)
        } else if same_text(s, "ta") {
            Ok(LangCode::ta)
        } else if same_text(s, "te") {
            Ok(LangCode::te)
        } else if same_text(s, "th") {
            Ok(LangCode::th)
        } else if same_text(s, "tr") {
            Ok(LangCode::tr)
        } else if same_text(s, "uk") {
            Ok(LangCode::uk)
        } else if same_text(s, "ur") {
            Ok(LangCode::ur)
        } else if same_text(s, "vi") {
            Ok(LangCode::vi)
        } else {
            Err(UnknownLangCode::VariantNotFound)
        }
    }
}

impl std::str::FromStr for LangCode {
    type Err = UnknownLangCode;

    /// Reads a language code, as `LangCode::from_str` does.
    fn from_str(s: &str) -> (r: Result<LangCode, UnknownLangCode>)
        ensures
            reads_code(s@, r),
    {
        LangCode::from_str(s)
    }
}

impl Default for LangCode {
    /// English.
    fn default() -> (r: Self)
        ensures
            r == LangCode::en,
    {
        LangCode::en
    }
}

/// No two languages share a code.
pub proof fn lemma_codes_distinct(a: LangCode, b: LangCode)
    requires
        a.code() == b.code(),
    ensures
        a == b,
{
    reveal_strlit("ar");
    reveal_strlit("bn");
    reveal_strlit("bg");
    reveal_strlit("ca");
    reveal_strlit("zh");
    reveal_strlit("hr");
    reveal_strlit("cs");
    reveal_strlit("da");
    reveal_strlit("nl");
    reveal_strlit("en");
    reveal_strlit("fil");
    reveal_strlit("fi");
    reveal_strlit("fr");
    reveal_strlit("de");
    reveal_strlit("el");
    reveal_strlit("gu");
    reveal_strlit("iw");
    reveal_strlit("hi");
    reveal_strlit("hu");
    reveal_strlit("id");
    reveal_strlit("it");
    reveal_strlit("ja");
    reveal_strlit("kn");
    reveal_strlit("ko");
    reveal_strlit("lv");
    reveal_strlit("lt");
    reveal_strlit("ms");
    reveal_strlit("ml");
    reveal_strlit("mr");
    reveal_strlit("no");
    reveal_strlit("pl");
    reveal_strlit("pt");
    reveal_strlit("ro");
    reveal_strlit("ru");
    reveal_strlit("sr");
    reveal_strlit("sk");
    reveal_strlit("sl");
    reveal_strlit("es");
    reveal_strlit("sw");
    reveal_strlit("sv");
    reveal_strlit("ta");
    reveal_strlit("te");
    reveal_strlit("th");
    reveal_strlit("tr");
    reveal_strlit("uk");
    reveal_strlit("ur");
    reveal_strlit("vi");
    let key = a.code();
    assert(key.len() == b.code().len());
    assert(key[0] == b.code()[0]);
    assert(key[1] == b.code()[1]);
}

/// Codes and languages map to each other both ways: reading the code of a
/// language gives that language.
pub proof fn lemma_code_round_trip(lang: LangCode, r: Result<LangCode, UnknownLangCode>)
    requires
        reads_code(lang.code(), r),
    ensures
        r == Ok::<LangCode, UnknownLangCode>(lang),
{
    match r {
        Ok(read) => {
            lemma_codes_distinct(read, lang);
        },
        Err(_) => {},
    }
}

/// What a locator works with: the anchors and the language to look for.
pub struct Config {
    /// The anchors that bound the caption-track list.
    pub parser: HTMLParserConfig,
    /// The language whose track is wanted.
    pub lang_code: LangCode,
}

impl Default for Config {
    /// The default anchors and the default language.
    fn default() -> (r: Self)
        ensures
            r.parser.from@ == "playerCaptionsTracklistRenderer\":"@,
            r.parser.to@ == "},\"videoDetails\""@,
            r.lang_code == LangCode::en,
    {
        Self { parser: HTMLParserConfig::default(), lang_code: LangCode::default() }
    }
}

} // verus!
