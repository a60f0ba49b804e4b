//! A plain model of a markup document: what the transcript parser reads of
//! each node. Reading a document's text is left to `roxmltree`.

use crate::text::same_text;
use vstd::prelude::*;

verus! {

/// One attribute of an element.
pub struct MarkupAttribute {
    /// The URI of the attribute's namespace, if it is in one.
    pub namespace: Option<String>,
    /// The attribute's name, without prefix.
    pub name: String,
    /// The attribute's value, with entities resolved.
    pub value: String,
}

/// What is read of the last child of a node.
pub struct ChildNode {
    /// The child's text: its own if it is a text node or a comment, that of
    /// its first child if it is an element that begins with text, else none.
    pub text: Option<String>,
}

/// One node of a document: the root, an element, a text, a comment or a
/// processing instruction.
pub struct MarkupNode {
    /// The URI of the namespace of the element's tag; none for a tag outside
    /// any namespace and for a node that is no element.
    pub namespace: Option<String>,
    /// The element's tag, without prefix; empty for a node that is no element.
    pub name: String,
    /// The element's attributes, in the order in which they are written;
    /// empty for a node that is no element.
    pub attributes: Vec<MarkupAttribute>,
    /// The last child of the node, if it has children.
    pub last_child: Option<ChildNode>,
}

/// A document: its nodes in document order, the root first.
pub struct MarkupDocument {
    /// The nodes: each stands before its children, and these before the
    /// sibling that follows it.
    pub nodes: Vec<MarkupNode>,
}

impl MarkupNode {
    /// The node is an element with the tag `tag`, outside any namespace.
    pub open spec fn has_plain_tag(self, tag: Seq<char>) -> bool {
        self.namespace is None && self.name@ == tag
    }

    /// Tells whether the node is an element with the tag `tag`, outside any namespace.
    pub fn is_plain_tag(&self, tag: &str) -> (r: bool)
        ensures
            r == self.has_plain_tag(tag@),
    {
        self.namespace.is_none() && same_text(self.name.as_str(), tag)
    }

    /// The value of the first attribute named `name` outside any namespace,
    /// if the node has one.
    pub open spec fn plain_attribute(self, name: Seq<char>) -> Option<Seq<char>> {
        first_plain_attribute(self.attributes@, name)
    }

    /// Returns the value of the first attribute named `name` outside any
    /// namespace, if the node has one.
    pub fn attribute(&self, name: &str) -> (r: Option<&str>)
        ensures
            match r {
                Some(value) => self.plain_attribute(name@) == Some(value@),
                None => self.plain_attribute(name@) is None,
            },
    {
        let mut i: usize = 0;
        assert(self.attributes@.skip(0) =~= self.attributes@);
        while i < self.attributes.len()
            invariant
                i <= self.attributes.len(),
                first_plain_attribute(self.attributes@, name@) == first_plain_attribute(
                    self.attributes@.skip(i as int),
                    name@,
                ),
            decreases self.attributes.len() - i,
        {
            let attribute = &self.attributes[i];
            proof {
                let rest = self.attributes@.skip(i as int);
                assert(rest[0] == self.attributes@[i as int]);
                assert(rest.drop_first() =~= self.attributes@.skip(i + 1));
            }
            if attribute.namespace.is_none() && same_text(attribute.name.as_str(), name) {
                return Some(attribute.value.as_str());
            }
            i += 1;
        }
        None
    }
}

/// The value of the first of `attributes` that is named `name` and stands
/// outside any namespace.
pub open spec fn first_plain_attribute(attributes: Seq<MarkupAttribute>, name: Seq<char>) -> Option<
    Seq<char>,
>
    decreases attributes.len(),
{
    if attributes.len() == 0 {
        None
    } else if attributes[0].namespace is None && attributes[0].name@ == name {
        Some(attributes[0].value@)
    } else {
        first_plain_attribute(attributes.drop_first(), name)
    }
}

/// `roxmltree::Error`: why a text could not be read. It is carried from the
/// reader to `MarkupDocument::read`, which looks at nothing in it.
#[verifier::external_type_specification]
#[verifier::external_body]
pub struct ExMarkupError(roxmltree::Error);

/// The document that a text is read as, or `None` where the text is not
/// well-formed markup.
pub uninterp spec fn markup_document(text: Seq<char>) -> Option<MarkupDocument>;

/// Reads a text with `roxmltree::Document::parse` and copies out, for each
/// node that `Document::descendants` yields, what `Node::tag_name`,
/// `Node::attributes` and `Node::last_child` with `Node::text` return. The
/// contract gives the outcome its name, and claims no more than that the
/// same text is always read alike: the copy on success, and no document
/// where the parser reports an error.
#[verifier::external_body]
fn read_document(text: &str) -> (r: Result<MarkupDocument, roxmltree::Error>)
    ensures
        match r {
            Ok(document) => markup_document(text@) == Some(document),
            Err(_) => markup_document(text@) is None,
        },
{
    let parsed = roxmltree::Document::parse(text)?;
    let nodes = parsed.descendants().map(|node| MarkupNode {
        namespace: node.tag_name().namespace().map(String::from),
        name: String::from(node.tag_name().name()),
        attributes: node.attributes().map(|a| MarkupAttribute {
            namespace: a.namespace().map(String::from),
            name: String::from(a.name()),
            value: String::from(a.value()),
        }).collect(),
        last_child: node.last_child().map(|c| ChildNode { text: c.text().map(String::from) }),
    }).collect();
    Ok(MarkupDocument { nodes })
}

impl MarkupDocument {
    /// Reads a text as a markup document.
    pub fn read(text: &str) -> (r: Option<MarkupDocument>)
        ensures
            r == markup_document(text@),
    {
        match read_document(text) {
            Ok(document) => Some(document),
            Err(_) => None,
        }
    }
}

} // verus!
