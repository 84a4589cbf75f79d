//! The parsed ADIF document that the converter reads.

use vstd::prelude::*;

verus! {

/// What a node of the parsed document stands for.
#[derive(Clone, Copy, Debug, PartialEq, Eq, Structural)]
pub enum NodeKind {
    /// The whole document; its children are the header, the records and
    /// the end mark.
    Document,
    /// The part before the first record.
    Header,
    /// One contact.
    Record,
    /// One tag with its value; its children are a field name, an optional
    /// data length, and the data.
    Field,
    /// The name of a tag.
    FieldName,
    /// The length that the document declares for a value.
    DataLength,
    /// The value of a tag.
    Data,
    /// One line of free text in the header.
    LiteralLine,
    /// Several lines of free text in the header; its children are
    /// literal lines.
    MultiLineBlock,
    /// The end of the input.
    End,
}

/// A node of the parsed document: its kind, the text it spans, and the
/// nodes inside it in document order.
#[derive(Debug)]
pub struct ParseNode {
    pub kind: NodeKind,
    pub text: String,
    pub children: Vec<ParseNode>,
}

impl ParseNode {
    /// A node without children.
    pub fn leaf(kind: NodeKind, text: &str) -> (node: ParseNode)
        ensures
            node.kind == kind,
            node.text@ == text@,
            node.children@.len() == 0,
    {
        ParseNode { kind, text: text.to_owned(), children: Vec::new() }
    }

    /// A node that holds `children` and spans no text of its own.
    pub fn branch(kind: NodeKind, children: Vec<ParseNode>) -> (node: ParseNode)
        ensures
            node.kind == kind,
            node.text@.len() == 0,
            node.children == children,
    {
        ParseNode { kind, text: String::new(), children }
    }
}

} // verus!
