//! The summary grammar, applied to the trimmed first block of a message:
//! an optional ticket prefix (letters, a hyphen, digits), optional
//! whitespace, a category, a tolerated stray `]`, and free text handed to
//! the tag extractor.

use vstd::prelude::*;

use crate::category::category_at;
use crate::category::category_prefix;
use crate::model::SummaryElement;
use crate::scan::alpha_end;
use crate::scan::char_len;
use crate::scan::digit_end;
use crate::scan::scan_alpha;
use crate::scan::scan_blank;
use crate::scan::scan_digit;
use crate::scan::skip_blank;
use crate::scan::substring;
use crate::scan::trim_of;
use crate::scan::trim_view;
use crate::tags::cleaned_from;
use crate::tags::extract_tags;
use crate::tags::tags_from;

verus! {

/// End of the optional ticket prefix of `t`: the end of its digit run,
/// or zero when no prefix stands at the start. A prefix is a non-empty
/// run of letters, a hyphen, and a non-empty run of digits.
pub open spec fn prefix_end(t: Seq<char>) -> int {
    let a = alpha_end(t, 0);
    if a > 0 && a < t.len() && t[a] == '-' && digit_end(t, a + 1) > a + 1 {
        digit_end(t, a + 1)
    } else {
        0
    }
}

/// The category found after the prefix and optional whitespace: the
/// keyword and the index after it, or nothing when the line has no
/// category there (which fails the whole summary).
pub open spec fn summary_cat(t: Seq<char>) -> Option<(Seq<char>, int)> {
    category_at(t, skip_blank(t, prefix_end(t)))
}

/// The summary grammar accepts `t`.
pub open spec fn summary_ok(t: Seq<char>) -> bool {
    summary_cat(t) is Some
}

/// Start of the free text of `t`: the index after the category and after
/// one tolerated stray `]`.
pub open spec fn rest_start(t: Seq<char>) -> int
    recommends
        summary_ok(t),
{
    let e = summary_cat(t)->Some_0.1;
    if e < t.len() && t[e] == ']' {
        e + 1
    } else {
        e
    }
}

/// The free text of the summary line, before tag extraction.
pub open spec fn rest_view(t: Seq<char>) -> Seq<char>
    recommends
        summary_ok(t),
{
    t.subrange(rest_start(t), t.len() as int)
}

/// `se` is what the summary grammar yields on the line `t`: the prefix
/// as it stood (or empty), the category keyword, the extracted tags, and
/// the remaining text trimmed of whitespace.
pub open spec fn summary_models(se: SummaryElement, t: Seq<char>) -> bool {
    &&& summary_ok(t)
    &&& se.prefix@ == t.subrange(0, prefix_end(t))
    &&& se.category@ == summary_cat(t)->Some_0.0
    &&& se.text@ == trim_view(cleaned_from(rest_view(t), 0))
    &&& se.tags.deep_view() == tags_from(rest_view(t), 0)
}

/// Parses a trimmed summary line. Yields the summary element, or nothing
/// exactly when the line has no category where the grammar demands one.
pub fn parse_summary(line: &str) -> (r: Option<SummaryElement>)
    ensures
        match r {
            Some(se) => summary_models(se, line@),
            None => !summary_ok(line@),
        },
{
    let n = char_len(line);
    let a = scan_alpha(line, 0);
    let mut pe: usize = 0;
    if a > 0 && a < n && line.get_char(a) == '-' {
        let d = scan_digit(line, a + 1);
        if d > a + 1 {
            pe = d;
        }
    }
    assert(pe == prefix_end(line@));
    let p2 = scan_blank(line, pe);
    match category_prefix(line, p2) {
        None => None,
        Some(cat) => {
            let e = cat.1;
            let e2 = if e < n && line.get_char(e) == ']' {
                e + 1
            } else {
                e
            };
            assert(e2 == rest_start(line@));
            let rest = substring(line, e2, n);
            let (tags, cleaned) = extract_tags(rest.as_str());
            let text = trim_of(cleaned.as_str());
            let prefix = substring(line, 0, pe);
            Some(
                SummaryElement {
                    prefix,
                    category: cat.0,
                    text,
                    tags,
                },
            )
        },
    }
}

} // verus!
