//! The document model a parsed commit message is turned into, and the
//! errors a parse can end in.

use vstd::prelude::*;

verus! {

/// A failure while parsing one commit message.
#[derive(Debug, Clone, PartialEq, Eq)]
pub enum Error {
    /// The first block does not satisfy the summary grammar; carries the
    /// trimmed summary line.
    SummaryParsing(String),
    /// A line of a footer-classified block failed to yield its key and
    /// value; carries the block. Kept for completeness: the classifier
    /// and the footer grammar agree, so the parser never produces it.
    FooterParsing(String),
    /// The message has no usable first block: it is empty or whitespace.
    CommitMessageLength,
}

impl Error {
    /// A readable description of the failure, naming the offending text.
    pub fn message(&self) -> (r: String)
        ensures
            self matches Error::SummaryParsing(l) ==> r@ == "Could not parse commit summary: "@
                + l@,
            self matches Error::FooterParsing(l) ==> r@ == "Could not parse commit footer: "@
                + l@,
            self is CommitMessageLength ==> r@ == "Commit message length too small."@,
    {
        match self {
            Error::SummaryParsing(l) => {
                let mut m = String::from_str("Could not parse commit summary: ");
                m.append(l.as_str());
                m
            },
            Error::FooterParsing(l) => {
                let mut m = String::from_str("Could not parse commit footer: ");
                m.append(l.as_str());
                m
            },
            Error::CommitMessageLength => String::from_str("Commit message length too small."),
        }
    }
}

/// The parsed summary line: an optional ticket prefix, a category from
/// the fixed vocabulary, the descriptive text, and its tags.
#[derive(Debug, Clone, PartialOrd, Ord, PartialEq, Eq)]
pub struct SummaryElement {
    /// Ticket identifier such as `AB-123`, or empty when none was given.
    pub prefix: String,
    /// One of the category keywords.
    pub category: String,
    /// The summary text with tag markers removed.
    pub text: String,
    /// The tags the summary carried.
    pub tags: Vec<String>,
}

/// One item of a list block.
#[derive(Debug, Clone, PartialOrd, Ord, PartialEq, Eq)]
pub struct ListElement {
    /// The item's category keyword, or empty when none was recognized.
    pub category: String,
    /// The item text with tag markers removed.
    pub text: String,
    /// The tags the item carried.
    pub tags: Vec<String>,
}

/// A paragraph block.
#[derive(Debug, Clone, PartialOrd, Ord, PartialEq, Eq)]
pub struct ParagraphElement {
    /// The paragraph text, markers removed and whitespace trimmed.
    pub text: String,
    /// The tags the paragraph carried.
    pub tags: Vec<String>,
}

/// One non-footer block of the message body, in source order.
#[derive(Debug, Clone, PartialOrd, Ord, PartialEq, Eq)]
pub enum BodyElement {
    /// A block of `- ` list items.
    List(Vec<ListElement>),
    /// A plain text block.
    Paragraph(ParagraphElement),
}

/// One `key: value` line of a footer block.
#[derive(Debug, Clone, PartialOrd, Ord, PartialEq, Eq)]
pub struct FooterElement {
    /// The word before the colon.
    pub key: String,
    /// The text after the colon and its separating whitespace.
    pub value: String,
}

/// A whole parsed commit message.
#[derive(Debug, Clone, PartialOrd, Ord, PartialEq, Eq)]
pub struct ParsedCommit {
    /// The parsed first block.
    pub summary: SummaryElement,
    /// The non-footer blocks after the first, in source order.
    pub body: Vec<BodyElement>,
    /// The footer lines of all footer blocks, in source order.
    pub footer: Vec<FooterElement>,
}

/// A calendar date, as plain fields.
#[derive(Debug, Clone, Copy, PartialOrd, Ord, PartialEq, Eq)]
pub struct Date {
    /// Calendar year.
    pub year: i32,
    /// Month of the year, counted from one.
    pub month: u32,
    /// Day of the month, counted from one.
    pub day: u32,
}

/// A version marker: a tag name and the date it points at. Consumed by
/// the rendering layer for grouping; not produced by the parser.
#[derive(Debug, Clone, PartialOrd, Ord, PartialEq, Eq)]
pub struct ParsedTag {
    /// The tag's name.
    pub name: String,
    /// The day the tag was created.
    pub date: Date,
}

} // verus!
