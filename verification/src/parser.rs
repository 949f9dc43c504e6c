//! The commit parser: splits a message into blocks, applies the summary
//! grammar to the first, classifies every further block, and assembles
//! the document model or the error that ended the parse.

use vstd::prelude::*;

use crate::blocks::block_kind;
use crate::blocks::lemma_footer_views_concat;
use crate::blocks::check_list_block;
use crate::blocks::footer_pairs_from;
use crate::blocks::footer_views;
use crate::blocks::list_block_models;
use crate::blocks::paragraph_models;
use crate::blocks::parse_footer_block;
use crate::blocks::parse_list_block;
use crate::blocks::parse_paragraph_block;
use crate::blocks::BlockKind;
use crate::model::BodyElement;
use crate::model::Error;
use crate::model::ParsedCommit;
use crate::scan::blocks_from;
use crate::scan::char_len;
use crate::scan::lines_from;
use crate::scan::split_blocks;
use crate::scan::trim_of;
use crate::scan::trim_view;
use crate::summary::parse_summary;
use crate::summary::summary_models;
use crate::summary::summary_ok;

verus! {

/// The blocks of a message: maximal runs of text delimited by a blank
/// line.
pub open spec fn msg_blocks(m: Seq<char>) -> Seq<Seq<char>> {
    blocks_from(m, 0)
}

/// The trimmed first block: the summary line.
pub open spec fn summary_line(m: Seq<char>) -> Seq<char> {
    trim_view(msg_blocks(m)[0])
}

/// The message has no usable first block: it is empty or whitespace.
pub open spec fn msg_too_short(m: Seq<char>) -> bool {
    summary_line(m).len() == 0
}

/// The footer pairs contributed by the blocks after the first, up to
/// block index `k`: each footer-classified block contributes the pairs
/// of its footer-shaped lines, in block order.
pub open spec fn footers_upto(bs: Seq<Seq<char>>, k: int) -> Seq<(Seq<char>, Seq<char>)>
    decreases k,
{
    if k <= 1 {
        Seq::empty()
    } else {
        footers_upto(bs, k - 1) + if block_kind(bs[k - 1]) == BlockKind::Footer {
            footer_pairs_from(lines_from(bs[k - 1], 0), 0)
        } else {
            Seq::empty()
        }
    }
}

/// The non-footer blocks after the first, up to block index `k`, in
/// block order: each becomes one body element.
pub open spec fn body_blocks_upto(bs: Seq<Seq<char>>, k: int) -> Seq<Seq<char>>
    decreases k,
{
    if k <= 1 {
        Seq::empty()
    } else {
        body_blocks_upto(bs, k - 1) + if block_kind(bs[k - 1]) != BlockKind::Footer {
            seq![bs[k - 1]]
        } else {
            Seq::empty()
        }
    }
}

/// `e` is what the matching grammar yields on the non-footer block `b`:
/// a list element for a list-classified block, a paragraph otherwise.
pub open spec fn body_elem_models(e: BodyElement, b: Seq<char>) -> bool {
    if block_kind(b) == BlockKind::List {
        e matches BodyElement::List(items) && list_block_models(items, b)
    } else {
        e matches BodyElement::Paragraph(p) && paragraph_models(p, b)
    }
}

/// `pc` is the document the grammar yields on the message `m`: the
/// parsed summary line, one body element per non-footer block in block
/// order, and the footer pairs of the footer blocks in block and line
/// order.
pub open spec fn commit_models(pc: ParsedCommit, m: Seq<char>) -> bool {
    let bs = msg_blocks(m);
    &&& summary_models(pc.summary, summary_line(m))
    &&& footer_views(pc.footer@) == footers_upto(bs, bs.len() as int)
    &&& pc.body@.len() == body_blocks_upto(bs, bs.len() as int).len()
    &&& forall|i: int|
        0 <= i < pc.body@.len() ==> body_elem_models(
            pc.body@[i],
            body_blocks_upto(bs, bs.len() as int)[i],
        )
}

/// The commit-message parser. Its grammar tables are fixed; the value
/// carries no state.
pub struct Parser;

impl Parser {
    /// Parses a single commit message into the document model.
    ///
    /// An empty or whitespace-only message fails with
    /// `CommitMessageLength`; a first block the summary grammar refuses
    /// fails with `SummaryParsing` carrying the trimmed line; otherwise
    /// the whole document is returned. No partial document ever is.
    pub fn parse_commit_message(&self, message: &str) -> (r: Result<ParsedCommit, Error>)
        ensures
            match r {
                Ok(pc) => !msg_too_short(message@) && summary_ok(summary_line(message@))
                    && commit_models(pc, message@),
                Err(e) => match e {
                    Error::CommitMessageLength => msg_too_short(message@),
                    Error::SummaryParsing(l) => !msg_too_short(message@) && !summary_ok(
                        summary_line(message@),
                    ) && l@ == summary_line(message@),
                    Error::FooterParsing(_) => false,
                },
            },
    {
        let blocks = split_blocks(message);
        let ghost bs = blocks.deep_view();
        assert(blocks.deep_view()[0] == blocks@[0]@);
        let first = trim_of(blocks[0].as_str());
        if char_len(first.as_str()) == 0 {
            return Err(Error::CommitMessageLength);
        }
        let summary = match parse_summary(first.as_str()) {
            Some(se) => se,
            None => {
                return Err(Error::SummaryParsing(first));
            },
        };
        let mut body: Vec<BodyElement> = Vec::new();
        let mut footer: Vec<crate::model::FooterElement> = Vec::new();
        let mut k: usize = 1;
        while k < blocks.len()
            invariant
                1 <= k <= blocks.len(),
                blocks.deep_view() == bs,
                footer_views(footer@) =~= footers_upto(bs, k as int),
                body@.len() == body_blocks_upto(bs, k as int).len(),
                forall|i: int|
                    0 <= i < body@.len() ==> body_elem_models(
                        body@[i],
                        body_blocks_upto(bs, k as int)[i],
                    ),
            decreases blocks.len() - k,
        {
            assert(blocks.deep_view()[k as int] == blocks@[k as int]@);
            let ghost pre_f = footer@;
            let ghost pre_b = body@;
            let mut pairs = parse_footer_block(blocks[k].as_str());
            if pairs.len() != 0 {
                assert(block_kind(bs[k as int]) == BlockKind::Footer);
                let ghost pv = pairs@;
                footer.append(&mut pairs);
                proof {
                    lemma_footer_views_concat(pre_f, pv);
                }
                assert(footer_views(footer@) =~= footer_views(pre_f) + footer_views(pv));
                assert(footer_views(footer@) =~= footers_upto(bs, k as int + 1));
            } else {
                assert(block_kind(bs[k as int]) != BlockKind::Footer);
                if check_list_block(blocks[k].as_str()) {
                    let items = parse_list_block(blocks[k].as_str());
                    body.push(BodyElement::List(items));
                } else {
                    let p = parse_paragraph_block(blocks[k].as_str());
                    body.push(BodyElement::Paragraph(p));
                }
                assert(body@ == pre_b.push(body@[pre_b.len() as int]));
                assert(body_elem_models(body@[pre_b.len() as int], bs[k as int]));
                assert(body_blocks_upto(bs, k as int + 1) =~= body_blocks_upto(
                    bs,
                    k as int,
                ).push(bs[k as int]));
                assert(footer_views(footer@) =~= footers_upto(bs, k as int + 1));
            }
            k = k + 1;
        }
        Ok(ParsedCommit { summary, body, footer })
    }
}

} // verus!
