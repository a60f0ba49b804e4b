use youtube_transcript::error::{ParseError, TimeAttribute};
use youtube_transcript::markup::{ChildNode, MarkupAttribute, MarkupDocument, MarkupNode};
use youtube_transcript::parser::{
    parse_transcript, read_segment, render_human_readable, Transcript, TranscriptCore,
    TranscriptParser,
};
use youtube_transcript::time::TimeOffset;

fn attribute(name: &str, value: &str) -> MarkupAttribute {
    MarkupAttribute { namespace: None, name: name.to_string(), value: value.to_string() }
}

fn element(name: &str, attributes: Vec<MarkupAttribute>, text: Option<Option<&str>>) -> MarkupNode {
    MarkupNode {
        namespace: None,
        name: name.to_string(),
        attributes,
        last_child: text.map(|t| ChildNode { text: t.map(|s| s.to_string()) }),
    }
}

fn timed(start: &str, dur: &str, text: &str) -> MarkupNode {
    element("text", vec![attribute("start", start), attribute("dur", dur)], Some(Some(text)))
}

fn segment(text: &str, start_ms: u64, duration_ms: u64) -> TranscriptCore {
    TranscriptCore {
        text: text.to_string(),
        start: TimeOffset::from_millis(start_ms),
        duration: TimeOffset::from_millis(duration_ms),
    }
}

#[test]
fn one_element_gives_one_segment() {
    let parsed =
        parse_transcript(r#"<transcript><text start="1.54" dur="4.16">Hello</text></transcript>"#)
            .unwrap();
    assert_eq!(parsed.transcripts.len(), 1);
    let only = &parsed.transcripts[0];
    assert_eq!(only.text, "Hello");
    assert_eq!(only.start.as_millis(), 1540);
    assert_eq!(only.duration.as_millis(), 4160);
    assert_eq!(only.start, TimeOffset { secs: 1, nanos: 540_000_000 });
    assert_eq!(only.duration, TimeOffset { secs: 4, nanos: 160_000_000 });
    assert_eq!(*only, segment("Hello", 1540, 4160));
}

#[test]
fn segments_keep_the_order_of_the_document() {
    let parsed = parse_transcript(
        r#"<?xml version="1.0" encoding="utf-8" ?><transcript><text start="5.7" dur="3.239">third</text><text start="0" dur="1.54">first</text><text start="1.54" dur="4.16">second</text></transcript>"#,
    )
    .unwrap();
    assert_eq!(
        parsed.transcripts,
        vec![segment("third", 5700, 3239), segment("first", 0, 1540), segment("second", 1540, 4160)]
    );
}

#[test]
fn only_elements_named_text_count() {
    let document = r#"<transcript xmlns:n="urn:x"><head start="x"/><text start="1" dur="2">a</text><!-- note --><n:text start="y">other</n:text><group><text start="3" dur="4">b</text><Text start="z"/></group>tail</transcript>"#;
    let parsed = parse_transcript(document).unwrap();
    assert_eq!(parsed.transcripts, vec![segment("a", 1000, 2000), segment("b", 3000, 4000)]);
}

#[test]
fn a_document_without_elements_named_text_is_empty() {
    assert_eq!(parse_transcript("<transcript/>").unwrap().transcripts.len(), 0);
    assert_eq!(parse_transcript("<a><b>text</b></a>").unwrap().transcripts.len(), 0);
}

#[test]
fn the_root_element_counts_too() {
    let parsed = parse_transcript(r#"<text start="2" dur="0.5">alone</text>"#).unwrap();
    assert_eq!(parsed.transcripts, vec![segment("alone", 2000, 500)]);
}

#[test]
fn entities_are_resolved_in_the_text() {
    let parsed = parse_transcript(
        r#"<transcript><text start="0" dur="1">Tom &amp; Jerry &lt;3 &#65;&#x42; how&amp;#39;s it</text></transcript>"#,
    )
    .unwrap();
    assert_eq!(parsed.transcripts[0].text, "Tom & Jerry <3 AB how&#39;s it");
}

#[test]
fn the_text_is_kept_as_it_is_written() {
    let parsed = parse_transcript(
        "<transcript><text start=\"0\" dur=\"1\">  two  spaces\nand a line </text></transcript>",
    )
    .unwrap();
    assert_eq!(parsed.transcripts[0].text, "  two  spaces\nand a line ");
}

#[test]
fn markup_that_is_not_well_formed_is_refused() {
    for document in [
        "",
        "plain words",
        "<transcript>",
        "<a></b>",
        r#"<transcript><text start="1" dur="2">a</transcript>"#,
        r#"<transcript><text start="1" start="2" dur="2">a</text></transcript>"#,
        r#"<transcript><text start=1 dur="2">a</text></transcript>"#,
        r#"<a/><b/>"#,
        r#"<n:text start="1" dur="2">a</n:text>"#,
    ] {
        assert_eq!(parse_transcript(document).unwrap_err(), ParseError::MalformedDocument);
        assert!(MarkupDocument::read(document).is_none());
    }
}

#[test]
fn a_missing_start_is_reported() {
    let r = parse_transcript(r#"<transcript><text dur="2">a</text></transcript>"#);
    assert_eq!(r.unwrap_err(), ParseError::MissingAttribute { name: TimeAttribute::Start });
    let r = parse_transcript(r#"<t xmlns:n="urn:x"><text n:start="1" dur="2">a</text></t>"#);
    assert_eq!(r.unwrap_err(), ParseError::MissingAttribute { name: TimeAttribute::Start });
    let r = parse_transcript(r#"<transcript><text Start="1" dur="2">a</text></transcript>"#);
    assert_eq!(r.unwrap_err(), ParseError::MissingAttribute { name: TimeAttribute::Start });
}

#[test]
fn a_missing_duration_is_reported() {
    let r = parse_transcript(r#"<transcript><text start="1">a</text></transcript>"#);
    assert_eq!(r.unwrap_err(), ParseError::MissingAttribute { name: TimeAttribute::Dur });
    let r = parse_transcript(r#"<transcript><text start="1" duration="2">a</text></transcript>"#);
    assert_eq!(r.unwrap_err(), ParseError::MissingAttribute { name: TimeAttribute::Dur });
}

#[test]
fn a_start_that_is_no_number_is_reported() {
    for start in ["", "one", "1,5", "-1", "+1", "1e3", " 1", "1 ", "1.2.3", ".", "0x10", "NaN", "inf"] {
        let document = format!(r#"<transcript><text start="{}" dur="2">a</text></transcript>"#, start);
        assert_eq!(
            parse_transcript(&document).unwrap_err(),
            ParseError::InvalidNumericAttribute { name: TimeAttribute::Start }
        );
    }
}

#[test]
fn a_duration_that_is_no_number_is_reported() {
    for dur in ["", "long", "2s", "99999999999999999999"] {
        let document = format!(r#"<transcript><text start="1" dur="{}">a</text></transcript>"#, dur);
        assert_eq!(
            parse_transcript(&document).unwrap_err(),
            ParseError::InvalidNumericAttribute { name: TimeAttribute::Dur }
        );
    }
}

#[test]
fn an_element_without_text_is_reported() {
    for document in [
        r#"<transcript><text start="1" dur="2"/></transcript>"#,
        r#"<transcript><text start="1" dur="2"></text></transcript>"#,
        r#"<transcript><text start="1" dur="2"><?mark up?></text></transcript>"#,
        r#"<transcript><text start="1" dur="2">words<br/></text></transcript>"#,
    ] {
        assert_eq!(parse_transcript(document).unwrap_err(), ParseError::MissingText);
    }
}

#[test]
fn the_text_is_that_of_the_last_child() {
    let parsed = parse_transcript(
        r#"<transcript><text start="1" dur="2"><i>one</i>two</text><text start="3" dur="4">one<!--two--></text><text start="5" dur="6">one<b>two</b></text></transcript>"#,
    )
    .unwrap();
    assert_eq!(
        parsed.transcripts,
        vec![segment("two", 1000, 2000), segment("two", 3000, 4000), segment("two", 5000, 6000)]
    );
}

#[test]
fn one_bad_element_fails_the_whole_document() {
    let r = parse_transcript(
        r#"<transcript><text start="0" dur="1">good</text><text start="1">bad</text><text start="2" dur="1">good</text></transcript>"#,
    );
    assert_eq!(r.unwrap_err(), ParseError::MissingAttribute { name: TimeAttribute::Dur });
}

#[test]
fn the_first_bad_element_decides_the_error() {
    let r = parse_transcript(
        r#"<transcript><text start="0" dur="1"/><text dur="1">a</text><text start="x" dur="1">a</text></transcript>"#,
    );
    assert_eq!(r.unwrap_err(), ParseError::MissingText);
    let r = parse_transcript(
        r#"<transcript><text start="x" dur="1">a</text><text dur="1">a</text></transcript>"#,
    );
    assert_eq!(r.unwrap_err(), ParseError::InvalidNumericAttribute { name: TimeAttribute::Start });
}

#[test]
fn within_an_element_start_comes_before_duration_and_text() {
    let r = parse_transcript(r#"<transcript><text/></transcript>"#);
    assert_eq!(r.unwrap_err(), ParseError::MissingAttribute { name: TimeAttribute::Start });
    let r = parse_transcript(r#"<transcript><text start="x"/></transcript>"#);
    assert_eq!(r.unwrap_err(), ParseError::InvalidNumericAttribute { name: TimeAttribute::Start });
    let r = parse_transcript(r#"<transcript><text start="1"/></transcript>"#);
    assert_eq!(r.unwrap_err(), ParseError::MissingAttribute { name: TimeAttribute::Dur });
    let r = parse_transcript(r#"<transcript><text start="1" dur="y"/></transcript>"#);
    assert_eq!(r.unwrap_err(), ParseError::InvalidNumericAttribute { name: TimeAttribute::Dur });
    let r = parse_transcript(r#"<transcript><text dur="y" start="x"/></transcript>"#);
    assert_eq!(r.unwrap_err(), ParseError::InvalidNumericAttribute { name: TimeAttribute::Start });
}

#[test]
fn parsing_twice_gives_equal_transcripts() {
    let document = r#"<transcript><text start="0" dur="1.54">Hey</text><text start="1.54" dur="4.16">you</text></transcript>"#;
    let first = parse_transcript(document).unwrap();
    let second = parse_transcript(document).unwrap();
    assert_eq!(first.transcripts.len(), second.transcripts.len());
    for i in 0..first.transcripts.len() {
        assert_eq!(first.transcripts[i], second.transcripts[i]);
    }
    let bad = r#"<transcript><text start="0">Hey</text></transcript>"#;
    assert_eq!(parse_transcript(bad).unwrap_err(), parse_transcript(bad).unwrap_err());
}

#[test]
fn a_document_is_read_node_by_node() {
    let document = MarkupDocument::read(
        r#"<r xmlns="urn:d" xmlns:n="urn:x"><text n:k="v" start="1">a&amp;b</text><!--c--></r>"#,
    )
    .unwrap();
    // The root, the element `r`, the element `text`, its text, the comment.
    assert_eq!(document.nodes.len(), 5);
    assert_eq!(document.nodes[0].name, "");
    assert!(document.nodes[0].namespace.is_none());
    assert_eq!(document.nodes[0].attributes.len(), 0);
    assert!(document.nodes[0].last_child.as_ref().unwrap().text.is_none());
    assert_eq!(document.nodes[1].name, "r");
    assert_eq!(document.nodes[1].namespace.as_deref(), Some("urn:d"));
    assert_eq!(document.nodes[1].last_child.as_ref().unwrap().text.as_deref(), Some("c"));
    let text = &document.nodes[2];
    assert_eq!(text.name, "text");
    assert_eq!(text.namespace.as_deref(), Some("urn:d"));
    assert_eq!(text.attributes.len(), 2);
    assert_eq!(text.attributes[0].namespace.as_deref(), Some("urn:x"));
    assert_eq!(text.attributes[0].name, "k");
    assert_eq!(text.attributes[0].value, "v");
    assert!(text.attributes[1].namespace.is_none());
    assert_eq!(text.attributes[1].name, "start");
    assert_eq!(text.attributes[1].value, "1");
    assert_eq!(text.last_child.as_ref().unwrap().text.as_deref(), Some("a&b"));
    assert!(!text.is_plain_tag("text"));
    assert_eq!(text.attribute("start"), Some("1"));
    assert_eq!(text.attribute("k"), None);
    assert_eq!(document.nodes[3].name, "");
    assert!(document.nodes[3].last_child.is_none());
    assert!(document.nodes[4].last_child.is_none());
}

#[test]
fn the_parser_reads_a_document_given_as_nodes() {
    let document = MarkupDocument {
        nodes: vec![
            element("", vec![], Some(None)),
            element("transcript", vec![], Some(Some("b"))),
            timed("0", "1.5", "a"),
            element("", vec![], None),
            element("other", vec![attribute("start", "x")], None),
            timed("1.5", "2", "b"),
            element("", vec![], None),
        ],
    };
    let parsed = TranscriptParser::parse(&document).unwrap();
    assert_eq!(parsed.transcripts, vec![segment("a", 0, 1500), segment("b", 1500, 2000)]);
    assert_eq!(TranscriptParser::parse(&MarkupDocument { nodes: vec![] }).unwrap().transcripts.len(), 0);
}

#[test]
fn the_parser_looks_at_plain_names_only() {
    let mut in_namespace = timed("0", "1", "a");
    in_namespace.namespace = Some("urn:x".to_string());
    let document = MarkupDocument { nodes: vec![in_namespace] };
    assert_eq!(TranscriptParser::parse(&document).unwrap().transcripts.len(), 0);

    let mut start = attribute("start", "0");
    start.namespace = Some("urn:x".to_string());
    let node = element("text", vec![start, attribute("dur", "1")], Some(Some("a")));
    assert_eq!(
        read_segment(&node).unwrap_err(),
        ParseError::MissingAttribute { name: TimeAttribute::Start }
    );
}

#[test]
fn the_first_attribute_of_a_name_is_read() {
    let node = element(
        "text",
        vec![attribute("dur", "1"), attribute("start", "2"), attribute("start", "3")],
        Some(Some("a")),
    );
    assert_eq!(read_segment(&node).unwrap(), segment("a", 2000, 1000));
    assert_eq!(node.attribute("start"), Some("2"));
    assert_eq!(node.attribute("dur"), Some("1"));
    assert_eq!(node.attribute("end"), None);
}

#[test]
fn an_element_given_as_a_node_fails_as_in_a_document() {
    let no_child = element("text", vec![attribute("start", "0"), attribute("dur", "1")], None);
    assert_eq!(read_segment(&no_child).unwrap_err(), ParseError::MissingText);
    let no_text = element("text", vec![attribute("start", "0"), attribute("dur", "1")], Some(None));
    assert_eq!(read_segment(&no_text).unwrap_err(), ParseError::MissingText);
    let document = MarkupDocument { nodes: vec![timed("0", "1", "a"), no_text, timed("x", "1", "b")] };
    assert_eq!(TranscriptParser::parse(&document).unwrap_err(), ParseError::MissingText);
}

#[test]
fn the_empty_transcript_renders_as_nothing() {
    assert_eq!(render_human_readable(&Transcript { transcripts: vec![] }), "");
    assert_eq!(String::from(Transcript { transcripts: vec![] }), "");
}

#[test]
fn a_segment_renders_as_a_block() {
    let transcript = Transcript { transcripts: vec![segment("Hello", 1540, 4160)] };
    assert_eq!(
        render_human_readable(&transcript),
        "\nstart at: 00:01 for duration 00:04\nHello\n==========\n\n"
    );
}

#[test]
fn blocks_follow_each_other_in_order() {
    let transcript = Transcript {
        transcripts: vec![
            segment("one", 0, 59_999),
            segment("", 3_599_000, 1_000),
            segment("three\nlines", 3_600_000, 86_400_000),
        ],
    };
    let expected = "\nstart at: 00:00 for duration 00:59\none\n==========\n\n\
                    \nstart at: 59:59 for duration 00:01\n\n==========\n\n\
                    \nstart at: 1:00:00 for duration 24:00:00\nthree\nlines\n==========\n\n";
    assert_eq!(render_human_readable(&transcript), expected);
    assert_eq!(String::from(transcript), expected);
}

#[test]
fn rendering_a_parsed_document() {
    let parsed = parse_transcript(
        r#"<transcript><text start="3661.9" dur="0.64">the</text></transcript>"#,
    )
    .unwrap();
    assert_eq!(
        render_human_readable(&parsed),
        "\nstart at: 1:01:01 for duration 00:00\nthe\n==========\n\n"
    );
}

#[test]
fn a_transcript_hands_out_its_segments() {
    let transcript = Transcript { transcripts: vec![segment("a", 0, 1), segment("b", 1, 2)] };
    let texts: Vec<String> = transcript.into_iter().map(|core| core.text).collect();
    assert_eq!(texts, vec!["a".to_string(), "b".to_string()]);
}

#[test]
fn segments_compare_by_what_they_hold() {
    assert_eq!(segment("a", 1, 2), segment("a", 1, 2));
    assert_ne!(segment("a", 1, 2), segment("b", 1, 2));
    assert_ne!(segment("a", 1, 2), segment("a", 2, 2));
    assert_ne!(segment("a", 1, 2), segment("a", 1, 3));
}
