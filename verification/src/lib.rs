//! A verified parser for structured commit messages.
//!
//! A commit message is split into blank-line-delimited blocks. The first
//! block is the summary (an optional ticket prefix, a change category,
//! free text with inline tags); every further block is classified as a
//! footer block of `key: value` lines, a list block of `- ` items, or a
//! plain paragraph. The parser returns the assembled document, or an
//! error naming the offending text; it never returns a partial document.
#![verifier::loop_isolation(false)]


pub mod blocks;
pub mod category;
pub mod chars;
pub mod model;
pub mod parser;
pub mod scan;
pub mod summary;
pub mod tags;

pub use blocks::parse_footer_block;
pub use blocks::parse_list_block;
pub use blocks::parse_paragraph_block;
pub use blocks::BlockKind;
pub use category::parse_category;
pub use model::BodyElement;
pub use model::Date;
pub use model::Error;
pub use model::FooterElement;
pub use model::ListElement;
pub use model::ParagraphElement;
pub use model::ParsedCommit;
pub use model::ParsedTag;
pub use model::SummaryElement;
pub use parser::Parser;
pub use summary::parse_summary;
pub use tags::extract_tags;
