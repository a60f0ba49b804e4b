//! The transcript parser: from a timed-text document to its segments, and
//! from the segments to a readable text.

use crate::clock::{clock_text, to_human_readable};
use crate::error::{ParseError, TimeAttribute};
use crate::markup::{markup_document, MarkupDocument, MarkupNode};
use crate::time::{
    fraction_part, lemma_fraction_nanos_bound, parse_seconds, seconds_of, TimeOffset,
};
use vstd::prelude::*;
use vstd::std_specs::iter::IteratorSpec;
use vstd::string::StringExecFns;

verus! {

/// One segment of a transcript: a text, when it begins and how long it lasts.
#[derive(Debug)]
pub struct TranscriptCore {
    /// The text that is spoken.
    pub text: String,
    /// When the text begins, counted from the start of the video.
    pub start: TimeOffset,
    /// How long the text lasts.
    pub duration: TimeOffset,
}

/// A transcript: its segments, in the order of the document they were read from.
#[derive(Debug)]
pub struct Transcript {
    /// The segments.
    pub transcripts: Vec<TranscriptCore>,
}

/// What a segment holds, with its text as a sequence of characters.
pub ghost struct Segment {
    /// The characters of the text.
    pub text: Seq<char>,
    /// When the text begins.
    pub start: TimeOffset,
    /// How long the text lasts.
    pub duration: TimeOffset,
}

impl View for TranscriptCore {
    type V = Segment;

    open spec fn view(&self) -> Segment {
        Segment { text: self.text@, start: self.start, duration: self.duration }
    }
}

impl View for Transcript {
    type V = Seq<Segment>;

    open spec fn view(&self) -> Seq<Segment> {
        self.transcripts@.map_values(|core: TranscriptCore| core@)
    }
}

impl PartialEq for TranscriptCore {
    /// Two segments are equal where their texts, starts and durations are.
    fn eq(&self, other: &Self) -> (r: bool) {
        self.text == other.text && self.start == other.start && self.duration == other.duration
    }
}

impl vstd::std_specs::cmp::PartialEqSpecImpl for TranscriptCore {
    open spec fn obeys_eq_spec() -> bool {
        true
    }

    open spec fn eq_spec(&self, other: &Self) -> bool {
        self@ == other@
    }
}

impl IntoIterator for Transcript {
    type Item = TranscriptCore;

    type IntoIter = std::vec::IntoIter<TranscriptCore>;

    /// Hands out the segments, in order.
    fn into_iter(self) -> (r: std::vec::IntoIter<TranscriptCore>)
        ensures
            IteratorSpec::remaining(&r) == self.transcripts@,
    {
        broadcast use vstd::std_specs::vec::axiom_spec_into_iter;

        self.transcripts.into_iter()
    }
}

/// The node is a timed-text element: an element `text` outside any namespace.
pub open spec fn is_timed_text(node: MarkupNode) -> bool {
    node.has_plain_tag("text"@)
}

/// The time that an attribute of a timed-text element gives, or what is
/// wrong with the attribute.
pub open spec fn time_of(node: MarkupNode, which: TimeAttribute) -> Result<TimeOffset, ParseError> {
    match node.plain_attribute(which.name()) {
        None => Err(ParseError::MissingAttribute { name: which }),
        Some(value) => match seconds_of(value) {
            None => Err(ParseError::InvalidNumericAttribute { name: which }),
            Some(offset) => Ok(offset),
        },
    }
}

/// The text of a timed-text element: that of its last child.
pub open spec fn text_of(node: MarkupNode) -> Result<Seq<char>, ParseError> {
    match node.last_child {
        None => Err(ParseError::MissingText),
        Some(child) => match child.text {
            None => Err(ParseError::MissingText),
            Some(text) => Ok(text@),
        },
    }
}

/// The segment that a timed-text element describes, or the first thing that
/// is wrong with the element: its start is looked at first, then its
/// duration, then its text.
pub open spec fn segment_of(node: MarkupNode) -> Result<Segment, ParseError> {
    match time_of(node, TimeAttribute::Start) {
        Err(e) => Err(e),
        Ok(start) => match time_of(node, TimeAttribute::Dur) {
            Err(e) => Err(e),
            Ok(duration) => match text_of(node) {
                Err(e) => Err(e),
                Ok(text) => Ok(Segment { text, start, duration }),
            },
        },
    }
}

/// The segments of the timed-text elements among `nodes`, in the order of
/// the nodes; or, where one of these elements is wrong, what is wrong with
/// the first such element.
pub open spec fn segments_of(nodes: Seq<MarkupNode>) -> Result<Seq<Segment>, ParseError>
    decreases nodes.len(),
{
    if nodes.len() == 0 {
        Ok(Seq::empty())
    } else {
        match segments_of(nodes.drop_last()) {
            Err(e) => Err(e),
            Ok(before) => if is_timed_text(nodes.last()) {
                match segment_of(nodes.last()) {
                    Err(e) => Err(e),
                    Ok(segment) => Ok(before.push(segment)),
                }
            } else {
                Ok(before)
            },
        }
    }
}

/// The segments that a timed-text document holds, or why it holds none.
pub open spec fn transcript_of(document: Seq<char>) -> Result<Seq<Segment>, ParseError> {
    match markup_document(document) {
        None => Err(ParseError::MalformedDocument),
        Some(parsed) => segments_of(parsed.nodes@),
    }
}

/// `r` is `outcome`: the same error, or a transcript with these segments.
pub open spec fn is_transcript(
    r: Result<Transcript, ParseError>,
    outcome: Result<Seq<Segment>, ParseError>,
) -> bool {
    match outcome {
        Ok(segments) => r matches Ok(parsed) && parsed@ == segments,
        Err(e) => r == Err::<Transcript, ParseError>(e),
    }
}

/// What is wrong with the first nodes of a document is wrong with the document.
pub proof fn lemma_segments_error_stays(nodes: Seq<MarkupNode>, k: int)
    requires
        0 <= k <= nodes.len(),
        segments_of(nodes.take(k)) is Err,
    ensures
        segments_of(nodes) == segments_of(nodes.take(k)),
    decreases nodes.len() - k,
{
    if k == nodes.len() {
        assert(nodes.take(k) =~= nodes);
    } else {
        assert(nodes.take(k + 1).drop_last() =~= nodes.take(k));
        lemma_segments_error_stays(nodes, k + 1);
    }
}

/// The times of a transcript are well formed: in each, the nanoseconds stay
/// below one second.
pub proof fn lemma_segments_well_formed(nodes: Seq<MarkupNode>)
    requires
        segments_of(nodes) is Ok,
    ensures
        forall|i: int|
            0 <= i < segments_of(nodes)->Ok_0.len() ==> {
                let segment = #[trigger] segments_of(nodes)->Ok_0[i];
                segment.start.wf() && segment.duration.wf()
            },
    decreases nodes.len(),
{
    if nodes.len() > 0 {
        lemma_segments_well_formed(nodes.drop_last());
        let node = nodes.last();
        if is_timed_text(node) {
            lemma_fraction_nanos_bound(fraction_part(node.plain_attribute("start"@)->0));
            lemma_fraction_nanos_bound(fraction_part(node.plain_attribute("dur"@)->0));
        }
    }
}

/// A transcript follows its document: it has one segment for each
/// timed-text element, and its segments stand in the order of their elements.
pub proof fn lemma_segments_follow_document(nodes: Seq<MarkupNode>)
    requires
        segments_of(nodes) is Ok,
    ensures
        ({
            let timed = nodes.filter(|node: MarkupNode| is_timed_text(node));
            let segments = segments_of(nodes)->Ok_0;
            &&& segments.len() == timed.len()
            &&& forall|i: int|
                0 <= i < timed.len() ==> segment_of(#[trigger] timed[i]) == Ok::<
                    Segment,
                    ParseError,
                >(segments[i])
        }),
    decreases nodes.len(),
{
    reveal(Seq::filter);
    if nodes.len() > 0 {
        lemma_segments_follow_document(nodes.drop_last());
    }
}

/// The transcript of a document follows the document: where the document is
/// read as nodes and yields a transcript, the transcript has one segment for
/// each timed-text element among the nodes, in the order of these elements.
pub proof fn lemma_transcript_follows_document(document: Seq<char>)
    requires
        transcript_of(document) is Ok,
    ensures
        markup_document(document) is Some,
        ({
            let nodes = markup_document(document)->0.nodes@;
            let timed = nodes.filter(|node: MarkupNode| is_timed_text(node));
            let segments = transcript_of(document)->Ok_0;
            &&& segments.len() == timed.len()
            &&& forall|i: int|
                0 <= i < timed.len() ==> segment_of(#[trigger] timed[i]) == Ok::<
                    Segment,
                    ParseError,
                >(segments[i])
        }),
{
    lemma_segments_follow_document(markup_document(document)->0.nodes@);
}

/// Reading one document twice gives the same outcome both times: the same
/// error, or two transcripts of one length with equal segments at every place.
pub proof fn lemma_reparse_equal(
    document: Seq<char>,
    first: Result<Transcript, ParseError>,
    second: Result<Transcript, ParseError>,
)
    requires
        is_transcript(first, transcript_of(document)),
        is_transcript(second, transcript_of(document)),
    ensures
        match first {
            Ok(a) => second matches Ok(b) && a@.len() == b@.len() && forall|i: int|
                0 <= i < a@.len() ==> a@[i] == b@[i],
            Err(e) => second == Err::<Transcript, ParseError>(e),
        },
{
}

/// Rendering keeps the order of the segments: the text of two runs of
/// segments, one after the other, is the text of the first, then that of
/// the second.
pub proof fn lemma_rendered_concat(a: Seq<Segment>, b: Seq<Segment>)
    ensures
        rendered(a + b) == rendered(a) + rendered(b),
    decreases b.len(),
{
    if b.len() == 0 {
        assert(a + b =~= a);
        assert(rendered(a) + rendered(b) =~= rendered(a));
    } else {
        lemma_rendered_concat(a, b.drop_last());
        assert((a + b).drop_last() =~= a + b.drop_last());
        assert((a + b).last() == b.last());
        let head = rendered(a);
        let middle = rendered(b.drop_last());
        let block = block_text(b.last());
        assert((head + middle) + block =~= head + (middle + block));
    }
}

/// Reads one of the two times of a timed-text element.
fn read_time(node: &MarkupNode, which: TimeAttribute) -> (r: Result<TimeOffset, ParseError>)
    ensures
        r == time_of(*node, which),
        r matches Ok(offset) ==> offset.wf(),
{
    match node.attribute(which.as_str()) {
        None => Err(ParseError::MissingAttribute { name: which }),
        Some(value) => match parse_seconds(value) {
            None => Err(ParseError::InvalidNumericAttribute { name: which }),
            Some(offset) => Ok(offset),
        },
    }
}

/// Reads the segment that a timed-text element describes.
pub fn read_segment(node: &MarkupNode) -> (r: Result<TranscriptCore, ParseError>)
    ensures
        match segment_of(*node) {
            Ok(segment) => r matches Ok(core) && core@ == segment,
            Err(e) => r == Err::<TranscriptCore, ParseError>(e),
        },
        r matches Ok(core) ==> core.start.wf() && core.duration.wf(),
{
    let start = match read_time(node, TimeAttribute::Start) {
        Ok(offset) => offset,
        Err(e) => {
            return Err(e);
        },
    };
    let duration = match read_time(node, TimeAttribute::Dur) {
        Ok(offset) => offset,
        Err(e) => {
            return Err(e);
        },
    };
    let text = match &node.last_child {
        None => {
            return Err(ParseError::MissingText);
        },
        Some(child) => match &child.text {
            None => {
                return Err(ParseError::MissingText);
            },
            Some(text) => text.clone(),
        },
    };
    Ok(TranscriptCore { text, start, duration })
}

/// The parser of timed-text documents.
pub struct TranscriptParser;

impl TranscriptParser {
    /// Reads the segments of a document: one for each element `text`, in
    /// document order. One element that lacks a time or a text, or has a
    /// time that is no decimal number, fails the whole document.
    pub fn parse(transcript: &MarkupDocument) -> (r: Result<Transcript, ParseError>)
        ensures
            is_transcript(r, segments_of(transcript.nodes@)),
            r matches Ok(parsed) ==> parsed@.len() == transcript.nodes@.filter(
                |node: MarkupNode| is_timed_text(node),
            ).len(),
            r matches Ok(parsed) ==> forall|i: int|
                0 <= i < parsed@.len() ==> (#[trigger] parsed@[i]).start.wf()
                    && parsed@[i].duration.wf(),
    {
        let nodes = &transcript.nodes;
        let mut transcripts: Vec<TranscriptCore> = Vec::new();
        let mut i: usize = 0;
        assert(transcripts@.map_values(|core: TranscriptCore| core@) =~= Seq::<Segment>::empty());
        while i < nodes.len()
            invariant
                i <= nodes.len(),
                *nodes == transcript.nodes,
                segments_of(nodes@.take(i as int)) matches Ok(segments) && segments
                    == transcripts@.map_values(|core: TranscriptCore| core@),
            decreases nodes.len() - i,
        {
            let node = &nodes[i];
            proof {
                assert(nodes@.take(i + 1).drop_last() =~= nodes@.take(i as int));
                assert(nodes@.take(i + 1).last() == nodes@[i as int]);
            }
            if node.is_plain_tag("text") {
                match read_segment(node) {
                    Ok(core) => {
                        let ghost before = transcripts@.map_values(|core: TranscriptCore| core@);
                        transcripts.push(core);
                        assert(transcripts@.map_values(|core: TranscriptCore| core@)
                            =~= before.push(core@));
                    },
                    Err(e) => {
                        proof {
                            lemma_segments_error_stays(nodes@, i + 1);
                        }
                        return Err(e);
                    },
                }
            }
            i += 1;
        }
        proof {
            assert(nodes@.take(i as int) =~= nodes@);
            lemma_segments_follow_document(nodes@);
            lemma_segments_well_formed(nodes@);
        }
        Ok(Transcript { transcripts })
    }
}

/// Reads a timed-text document and returns its transcript.
pub fn parse_transcript(document: &str) -> (r: Result<Transcript, ParseError>)
    ensures
        is_transcript(r, transcript_of(document@)),
        r matches Ok(parsed) ==> forall|i: int|
            0 <= i < parsed@.len() ==> (#[trigger] parsed@[i]).start.wf()
                && parsed@[i].duration.wf(),
{
    match MarkupDocument::read(document) {
        None => Err(ParseError::MalformedDocument),
        Some(parsed) => TranscriptParser::parse(&parsed),
    }
}

/// One segment as a block of text: a line with its start and its duration
/// as clocks, a line with its text, and a line that closes the block.
pub open spec fn block_text(segment: Segment) -> Seq<char> {
    "\nstart at: "@ + clock_text(segment.start.secs as nat) + " for duration "@ + clock_text(
        segment.duration.secs as nat,
    ) + "\n"@ + segment.text + "\n==========\n\n"@
}

/// The blocks of the segments, one after the other.
pub open spec fn rendered(segments: Seq<Segment>) -> Seq<char>
    decreases segments.len(),
{
    if segments.len() == 0 {
        Seq::empty()
    } else {
        rendered(segments.drop_last()) + block_text(segments.last())
    }
}

/// Appends the block of one segment to `out`.
fn push_block(out: &mut String, core: &TranscriptCore)
    ensures
        final(out)@ == old(out)@ + block_text(core@),
{
    let start = to_human_readable(&core.start);
    let duration = to_human_readable(&core.duration);
    let mut block = String::new();
    block.append("\nstart at: ");
    block.append(start.as_str());
    block.append(" for duration ");
    block.append(duration.as_str());
    block.append("\n");
    block.append(core.text.as_str());
    block.append("\n==========\n\n");
    assert(block@ =~= block_text(core@));
    out.append(block.as_str());
}

/// Renders a transcript for reading: the block of each segment, in order.
/// Every transcript can be rendered; the empty one gives the empty text.
pub fn render_human_readable(transcript: &Transcript) -> (r: String)
    ensures
        r@ == rendered(transcript@),
        transcript@.len() == 0 ==> r@.len() == 0,
{
    let mut out = String::new();
    let mut i: usize = 0;
    while i < transcript.transcripts.len()
        invariant
            i <= transcript.transcripts.len(),
            out@ == rendered(transcript@.take(i as int)),
        decreases transcript.transcripts.len() - i,
    {
        proof {
            assert(transcript@.take(i + 1).drop_last() =~= transcript@.take(i as int));
            assert(transcript@.take(i + 1).last() == transcript.transcripts@[i as int]@);
        }
        push_block(&mut out, &transcript.transcripts[i]);
        i += 1;
    }
    proof {
        assert(transcript@.take(i as int) =~= transcript@);
    }
    out
}

impl vstd::std_specs::convert::FromSpecImpl<Transcript> for String {
    /// The conversion is specified by its own contract, over the characters
    /// of the result.
    open spec fn obeys_from_spec() -> bool {
        false
    }

    open spec fn from_spec(value: Transcript) -> String {
        arbitrary()
    }
}

impl From<Transcript> for String {
    /// Renders the transcript for reading.
    fn from(value: Transcript) -> (r: String)
        ensures
            r@ == rendered(value@),
    {
        render_human_readable(&value)
    }
}

} // verus!
