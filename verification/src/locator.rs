//! The caption locator: from a video page to the caption track of one language.
//!
//! A page embeds a JSON object between two anchors. The object's member
//! `captionTracks` lists the tracks, each a record with a `baseUrl` and a
//! `languageCode`. The locator cuts the object out of the page, reads the
//! list and returns the first track in the requested language.

use crate::config::LangCode;
use crate::error::{Anchor, ParseError};
use crate::json::{json_document, Json};
use crate::text::{
    find_after, first_occurrence, is_absent, is_first_occurrence, lemma_first_occurrence_found,
    lemma_first_occurrence_is, same_text, to_chars,
};
use vstd::prelude::*;
use vstd::string::StrSliceExecFns;

verus! {

/// A caption track as a page lists it.
#[derive(Debug)]
pub struct Caption {
    /// Where the track's timed-text document is fetched from.
    pub base_url: String,
    /// The code of the track's language.
    pub lang_code: String,
}

/// What a caption track holds, as sequences of characters.
pub ghost struct CaptionView {
    /// The characters of the address.
    pub base_url: Seq<char>,
    /// The characters of the language code.
    pub lang_code: Seq<char>,
}

impl View for Caption {
    type V = CaptionView;

    open spec fn view(&self) -> CaptionView {
        CaptionView { base_url: self.base_url@, lang_code: self.lang_code@ }
    }
}

/// What follows, in `document`, the `anchor` that stands at index `at`.
pub open spec fn after_anchor(document: Seq<char>, anchor: Seq<char>, at: int) -> Seq<char> {
    document.skip(at + anchor.len())
}

/// What stands in `document` between the first `from` and the first `to`
/// after it, or the anchor that is not found.
pub open spec fn payload_between(document: Seq<char>, from: Seq<char>, to: Seq<char>) -> Result<
    Seq<char>,
    Anchor,
> {
    match first_occurrence(document, from) {
        None => Err(Anchor::From),
        Some(at) => {
            let rest = after_anchor(document, from, at);
            match first_occurrence(rest, to) {
                None => Err(Anchor::To),
                Some(end) => Ok(rest.take(end)),
            }
        },
    }
}

/// The track that a record describes: a JSON object whose members `baseUrl`
/// and `languageCode` are strings. Its other members do not count.
pub open spec fn caption_of(item: Json) -> Option<CaptionView> {
    match item.member_text("baseUrl"@) {
        None => None,
        Some(base_url) => match item.member_text("languageCode"@) {
            None => None,
            Some(lang_code) => Some(CaptionView { base_url, lang_code }),
        },
    }
}

/// The tracks that a payload lists: the payload is a JSON object whose
/// member `captionTracks` is an array, and each item of the array describes
/// a track.
pub open spec fn captions_of(root: Json) -> Option<Seq<CaptionView>> {
    match root.member("captionTracks"@) {
        Some(Json::List(items)) => if forall|i: int|
            0 <= i < items@.len() ==> (#[trigger] caption_of(items@[i])) is Some {
            Some(items@.map_values(|item: Json| caption_of(item)->0))
        } else {
            None
        },
        _ => None,
    }
}

/// The first of `tracks` whose language code is `code`.
pub open spec fn first_in_language(tracks: Seq<CaptionView>, code: Seq<char>) -> Option<
    CaptionView,
>
    decreases tracks.len(),
{
    if tracks.len() == 0 {
        None
    } else if tracks[0].lang_code == code {
        Some(tracks[0])
    } else {
        first_in_language(tracks.drop_first(), code)
    }
}

/// The track of `language` among `tracks`, or the error that there is none.
pub open spec fn selected(tracks: Seq<CaptionView>, language: LangCode) -> Result<
    CaptionView,
    ParseError,
> {
    match first_in_language(tracks, language.code()) {
        Some(track) => Ok(track),
        None => Err(ParseError::LanguageNotAvailable { requested: language }),
    }
}

/// The track of `language` that a decoded payload lists.
pub open spec fn caption_in(root: Json, language: LangCode) -> Result<CaptionView, ParseError> {
    match captions_of(root) {
        None => Err(ParseError::MalformedEmbeddedPayload),
        Some(tracks) => selected(tracks, language),
    }
}

/// The track of `language` that a page embeds between `from` and `to`.
pub open spec fn located(
    document: Seq<char>,
    from: Seq<char>,
    to: Seq<char>,
    language: LangCode,
) -> Result<CaptionView, ParseError> {
    match payload_between(document, from, to) {
        Err(which) => anchor_error(which),
        Ok(payload) => match json_document(payload) {
            None => Err(ParseError::MalformedEmbeddedPayload),
            Some(root) => caption_in(root, language),
        },
    }
}

/// The outcome of a search that fails on the anchor `which`.
pub open spec fn anchor_error(which: Anchor) -> Result<CaptionView, ParseError> {
    Err(ParseError::AnchorNotFound { which })
}

/// `r` is `outcome`: the same error, or a caption that holds this track.
pub open spec fn is_caption(
    r: Result<Caption, ParseError>,
    outcome: Result<CaptionView, ParseError>,
) -> bool {
    match outcome {
        Ok(track) => r matches Ok(caption) && caption@ == track,
        Err(e) => r == Err::<Caption, ParseError>(e),
    }
}

/// First match wins: the selected track is in the requested language and
/// no track before it is; where none is selected, no track is in that language.
pub proof fn lemma_first_in_language(tracks: Seq<CaptionView>, code: Seq<char>)
    ensures
        match first_in_language(tracks, code) {
            Some(track) => exists|i: int|
                0 <= i < tracks.len() && tracks[i] == track && track.lang_code == code
                    && forall|k: int| 0 <= k < i ==> (#[trigger] tracks[k]).lang_code != code,
            None => forall|k: int|
                0 <= k < tracks.len() ==> (#[trigger] tracks[k]).lang_code != code,
        },
    decreases tracks.len(),
{
    if tracks.len() == 0 {
    } else if tracks[0].lang_code == code {
        assert(tracks[0] == first_in_language(tracks, code)->0);
    } else {
        let rest = tracks.drop_first();
        lemma_first_in_language(rest, code);
        match first_in_language(rest, code) {
            Some(track) => {
                let i = choose|i: int|
                    0 <= i < rest.len() && rest[i] == track && track.lang_code == code
                        && forall|k: int| 0 <= k < i ==> (#[trigger] rest[k]).lang_code != code;
                assert(tracks[i + 1] == rest[i]);
                assert forall|k: int| 0 <= k < i + 1 implies (#[trigger] tracks[k]).lang_code
                    != code by {
                    if k > 0 {
                        assert(tracks[k] == rest[k - 1]);
                    }
                }
            },
            None => {
                assert forall|k: int| 0 <= k < tracks.len() implies (#[trigger] tracks[k]).lang_code
                    != code by {
                    if k > 0 {
                        assert(tracks[k] == rest[k - 1]);
                    }
                }
            },
        }
    }
}

/// The payload stands between the anchors: the page is what precedes the
/// first `from`, then `from`, the payload, `to`, and what follows.
pub proof fn lemma_payload_stands_between(document: Seq<char>, from: Seq<char>, to: Seq<char>)
    requires
        payload_between(document, from, to) is Ok,
    ensures
        ({
            let payload = payload_between(document, from, to)->Ok_0;
            let at = first_occurrence(document, from)->0;
            let rest = after_anchor(document, from, at);
            let end = first_occurrence(rest, to)->0;
            &&& is_first_occurrence(document, from, at)
            &&& is_first_occurrence(rest, to, end)
            &&& payload.len() == end
            &&& document == document.take(at) + from + payload + to + rest.skip(end + to.len())
        }),
{
    let payload = payload_between(document, from, to)->Ok_0;
    let at = first_occurrence(document, from)->0;
    let rest = after_anchor(document, from, at);
    let end = first_occurrence(rest, to)->0;
    lemma_first_occurrence_found(document, from);
    lemma_first_occurrence_found(rest, to);
    assert(document.subrange(at, at + from.len()) == from);
    assert(rest.subrange(end, end + to.len()) == to);
    assert(document =~= document.take(at) + document.subrange(at, at + from.len()) + rest.take(end)
        + rest.subrange(end, end + to.len()) + rest.skip(end + to.len()));
}

/// Where the anchors are found and what stands between them lists tracks,
/// the outcome is the first listed track in the requested language; and
/// where no listed track is in that language, it is the error that says so.
pub proof fn lemma_located_track(
    document: Seq<char>,
    from: Seq<char>,
    to: Seq<char>,
    language: LangCode,
)
    requires
        payload_between(document, from, to) is Ok,
        json_document(payload_between(document, from, to)->Ok_0) is Some,
        captions_of(json_document(payload_between(document, from, to)->Ok_0)->0) is Some,
    ensures
        ({
            let root = json_document(payload_between(document, from, to)->Ok_0)->0;
            let tracks = captions_of(root)->0;
            match located(document, from, to, language) {
                Ok(track) => exists|i: int|
                    0 <= i < tracks.len() && tracks[i] == track && track.lang_code
                        == language.code() && forall|k: int|
                        0 <= k < i ==> (#[trigger] tracks[k]).lang_code != language.code(),
                Err(e) => e == (ParseError::LanguageNotAvailable { requested: language })
                    && forall|k: int|
                    0 <= k < tracks.len() ==> (#[trigger] tracks[k]).lang_code != language.code(),
            }
        }),
{
    let root = json_document(payload_between(document, from, to)->Ok_0)->0;
    lemma_first_in_language(captions_of(root)->0, language.code());
}

/// A missing anchor is reported as such, and `from` is looked for first: a
/// page without `from` fails on `from` whatever else it holds, and a page
/// whose first `from` stands at `at` fails on `to` exactly where no `to`
/// follows that `from`.
pub proof fn lemma_anchor_order(
    document: Seq<char>,
    from: Seq<char>,
    to: Seq<char>,
    language: LangCode,
)
    ensures
        is_absent(document, from) <==> located(document, from, to, language) == anchor_error(
            Anchor::From,
        ),
        forall|at: int| #[trigger]
            is_first_occurrence(document, from, at) ==> (is_absent(
                after_anchor(document, from, at),
                to,
            ) <==> located(document, from, to, language) == anchor_error(Anchor::To)),
{
    lemma_first_occurrence_found(document, from);
    assert forall|at: int| #[trigger] is_first_occurrence(document, from, at) implies (is_absent(
        after_anchor(document, from, at),
        to,
    ) <==> located(document, from, to, language) == anchor_error(Anchor::To)) by {
        lemma_first_occurrence_is(document, from, at);
        lemma_first_occurrence_found(after_anchor(document, from, at), to);
    }
}

/// Cuts out of `document` what stands between the first `from` and the first
/// `to` after it. Fails with the anchor that is not found: `from` where
/// `document` does not hold it, else `to`.
pub fn embedded_payload<'a>(document: &'a str, from: &str, to: &str) -> (r: Result<&'a str, Anchor>)
    ensures
        match payload_between(document@, from@, to@) {
            Ok(payload) => r matches Ok(found) && found@ == payload,
            Err(which) => r == Err::<&str, Anchor>(which),
        },
{
    let text = to_chars(document);
    let opening = to_chars(from);
    let closing = to_chars(to);
    assert(text@.skip(0) =~= text@);
    let at = match find_after(&text, &opening, 0) {
        Some(at) => at,
        None => {
            return Err(Anchor::From);
        },
    };
    proof {
        lemma_first_occurrence_found(text@, opening@);
    }
    let start = at + opening.len();
    let end = match find_after(&text, &closing, start) {
        Some(end) => end,
        None => {
            return Err(Anchor::To);
        },
    };
    proof {
        let rest = after_anchor(text@, opening@, at as int);
        lemma_first_occurrence_found(rest, closing@);
        assert(rest.take(end - start) =~= text@.subrange(start as int, end as int));
    }
    Ok(document.substring_char(start, end))
}

/// Reads the track that a record describes.
pub fn read_caption(item: &Json) -> (r: Option<Caption>)
    ensures
        match caption_of(*item) {
            Some(track) => r matches Some(caption) && caption@ == track,
            None => r is None,
        },
{
    let base_url = match item.get("baseUrl") {
        Some(value) => match value.as_str() {
            Some(text) => text,
            None => {
                return None;
            },
        },
        None => {
            return None;
        },
    };
    let lang_code = match item.get("languageCode") {
        Some(value) => match value.as_str() {
            Some(text) => text,
            None => {
                return None;
            },
        },
        None => {
            return None;
        },
    };
    Some(Caption { base_url: base_url.to_owned(), lang_code: lang_code.to_owned() })
}

/// Reads the tracks that a decoded payload lists. One item that describes
/// no track fails the whole list.
pub fn caption_tracks(root: &Json) -> (r: Option<Vec<Caption>>)
    ensures
        match captions_of(*root) {
            Some(tracks) => r matches Some(captions) && captions@.map_values(|c: Caption| c@)
                == tracks,
            None => r is None,
        },
{
    let items = match root.get("captionTracks") {
        Some(value) => match value.as_array() {
            Some(items) => items,
            None => {
                return None;
            },
        },
        None => {
            return None;
        },
    };
    let mut captions: Vec<Caption> = Vec::new();
    let mut i: usize = 0;
    while i < items.len()
        invariant
            i <= items.len(),
            root.member("captionTracks"@) matches Some(Json::List(list)) && list@ == items@,
            captions@.len() == i,
            forall|k: int| 0 <= k < i ==> (#[trigger] caption_of(items@[k])) == Some(captions@[k]@),
        decreases items.len() - i,
    {
        match read_caption(&items[i]) {
            Some(caption) => {
                captions.push(caption);
            },
            None => {
                return None;
            },
        }
        i += 1;
    }
    assert(captions@.map_values(|c: Caption| c@) =~= items@.map_values(
        |item: Json| caption_of(item)->0,
    ));
    Some(captions)
}

/// Selects the first of `tracks` that is in `language`.
pub fn select_caption(tracks: &Vec<Caption>, language: LangCode) -> (r: Result<Caption, ParseError>)
    ensures
        is_caption(r, selected(tracks@.map_values(|c: Caption| c@), language)),
        r matches Ok(caption) ==> caption.lang_code@ == language.code(),
{
    let code = language.as_str();
    let ghost views = tracks@.map_values(|c: Caption| c@);
    let mut i: usize = 0;
    assert(views.skip(0) =~= views);
    while i < tracks.len()
        invariant
            i <= tracks.len(),
            code@ == language.code(),
            views == tracks@.map_values(|c: Caption| c@),
            first_in_language(views, code@) == first_in_language(views.skip(i as int), code@),
        decreases tracks.len() - i,
    {
        proof {
            let rest = views.skip(i as int);
            assert(rest[0] == tracks@[i as int]@);
            assert(rest.drop_first() =~= views.skip(i + 1));
        }
        if same_text(tracks[i].lang_code.as_str(), code) {
            let found = &tracks[i];
            return Ok(
                Caption { base_url: found.base_url.clone(), lang_code: found.lang_code.clone() },
            );
        }
        i += 1;
    }
    Err(ParseError::LanguageNotAvailable { requested: language })
}

/// Finds the track of `language` in a decoded payload.
pub fn caption_from_json(root: &Json, language: LangCode) -> (r: Result<Caption, ParseError>)
    ensures
        is_caption(r, caption_in(*root, language)),
        r matches Ok(caption) ==> caption.lang_code@ == language.code(),
{
    match caption_tracks(root) {
        None => Err(ParseError::MalformedEmbeddedPayload),
        Some(tracks) => select_caption(&tracks, language),
    }
}

/// Locates the caption track of `language` in a video page: cuts out what
/// stands between the anchors, reads it as a list of tracks and selects the
/// first track in that language.
///
/// The anchors are looked for in this order: `from` in the page, then `to`
/// in what follows `from`. Whatever stands between them is read as a whole
/// before a track is selected.
pub fn locate_caption_track(document: &str, from: &str, to: &str, language: LangCode) -> (r: Result<
    Caption,
    ParseError,
>)
    ensures
        is_caption(r, located(document@, from@, to@, language)),
        r matches Ok(caption) ==> caption.lang_code@ == language.code(),
{
    let payload = match embedded_payload(document, from, to) {
        Ok(payload) => payload,
        Err(which) => {
            return Err(ParseError::AnchorNotFound { which });
        },
    };
    match Json::decode(payload) {
        None => Err(ParseError::MalformedEmbeddedPayload),
        Some(root) => caption_from_json(&root, language),
    }
}

} // verus!
