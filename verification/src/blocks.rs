//! Classification of the blocks after the first, and the grammars for
//! the three block forms: footer (`key: value` lines), list (`- ` items),
//! and plain paragraph. A block that looks like both a footer and a list
//! is a footer: the footer test comes first, by design.

use vstd::prelude::*;

use crate::category::category_at;
use crate::category::category_prefix;
use crate::chars::is_space_char;
use crate::chars::spec_is_space;
use crate::model::FooterElement;
use crate::model::ListElement;
use crate::model::ParagraphElement;
use crate::scan::char_len;
use crate::scan::lines_from;
use crate::scan::scan_blank;
use crate::scan::scan_word;
use crate::scan::skip_blank;
use crate::scan::split_lines;
use crate::scan::substring;
use crate::scan::trim_of;
use crate::scan::trim_view;
use crate::scan::word_end;
use crate::tags::cleaned_from;
use crate::tags::extract_tags;
use crate::tags::tags_from;

verus! {

/// The key and value of a footer line: a non-empty run of word
/// characters, a colon, one whitespace character, and the rest of the
/// line as the value. Nothing when the line is not of that form.
pub open spec fn footer_line(l: Seq<char>) -> Option<(Seq<char>, Seq<char>)> {
    let k = word_end(l, 0);
    if k > 0 && k + 1 < l.len() && l[k] == ':' && spec_is_space(l[k + 1]) {
        Some((l.subrange(0, k), l.subrange(k + 2, l.len() as int)))
    } else {
        None
    }
}

/// The key/value pairs of the footer-shaped lines at or after index `i`,
/// in line order; other lines contribute nothing.
pub open spec fn footer_pairs_from(lines: Seq<Seq<char>>, i: int) -> Seq<(Seq<char>, Seq<char>)>
    decreases lines.len() - i,
{
    if i < 0 || i >= lines.len() {
        Seq::empty()
    } else {
        match footer_line(lines[i]) {
            Some(p) => seq![p] + footer_pairs_from(lines, i + 1),
            None => footer_pairs_from(lines, i + 1),
        }
    }
}

/// A block is footer-classified when any of its lines is footer-shaped.
pub open spec fn is_footer_block(b: Seq<char>) -> bool {
    footer_pairs_from(lines_from(b, 0), 0).len() != 0
}

/// A block is list-classified when it starts with a list marker.
pub open spec fn is_list_block(b: Seq<char>) -> bool {
    b.len() >= 2 && b[0] == '-' && b[1] == ' '
}

/// How a block after the first is handled.
#[derive(Debug, Clone, Copy, PartialEq, Eq)]
pub enum BlockKind {
    /// The block's footer-shaped lines extend the footer.
    Footer,
    /// The block becomes one list body element.
    List,
    /// The block becomes one paragraph body element.
    Paragraph,
}

/// The classification of a block: the footer test comes first, then the
/// list test, and a paragraph is what remains.
pub open spec fn block_kind(b: Seq<char>) -> BlockKind {
    if is_footer_block(b) {
        BlockKind::Footer
    } else if is_list_block(b) {
        BlockKind::List
    } else {
        BlockKind::Paragraph
    }
}

/// Footer takes priority: a block that is both footer-shaped and
/// list-shaped is classified as a footer, never as a list.
pub proof fn lemma_footer_priority(b: Seq<char>)
    requires
        is_footer_block(b),
        is_list_block(b),
    ensures
        block_kind(b) == BlockKind::Footer,
{
}

/// One item of a list block: leading whitespace, a `- ` marker, an
/// optional category, and free text handed to the tag extractor. The
/// fields are the category (possibly empty), the cleaned text, and the
/// tags. Nothing when the line has no `- ` marker: such lines are
/// skipped.
pub open spec fn list_line(l: Seq<char>) -> Option<(Seq<char>, Seq<char>, Seq<Seq<char>>)> {
    let p = skip_blank(l, 0);
    if p + 1 < l.len() && l[p] == '-' && l[p + 1] == ' ' {
        let q = p + 2;
        let start = match category_at(l, q) {
            Some(c) => c.1,
            None => q,
        };
        let cat = match category_at(l, q) {
            Some(c) => c.0,
            None => Seq::empty(),
        };
        let rest = l.subrange(start, l.len() as int);
        Some((cat, cleaned_from(rest, 0), tags_from(rest, 0)))
    } else {
        None
    }
}

/// The parsed items of the list-shaped lines at or after index `i`, in
/// line order; lines that are not list-shaped contribute nothing.
pub open spec fn list_items_from(lines: Seq<Seq<char>>, i: int) -> Seq<
    (Seq<char>, Seq<char>, Seq<Seq<char>>),
>
    decreases lines.len() - i,
{
    if i < 0 || i >= lines.len() {
        Seq::empty()
    } else {
        match list_line(lines[i]) {
            Some(it) => seq![it] + list_items_from(lines, i + 1),
            None => list_items_from(lines, i + 1),
        }
    }
}

/// The key/value views of a footer element sequence.
pub open spec fn footer_views(fs: Seq<FooterElement>) -> Seq<(Seq<char>, Seq<char>)> {
    fs.map_values(|f: FooterElement| (f.key@, f.value@))
}

/// Key/value views distribute over concatenation of footer sequences.
pub proof fn lemma_footer_views_concat(a: Seq<FooterElement>, b: Seq<FooterElement>)
    ensures
        footer_views(a + b) =~= footer_views(a) + footer_views(b),
{
}

/// `e` carries the category, text and tags of the parsed item `it`.
pub open spec fn list_elem_models(
    e: ListElement,
    it: (Seq<char>, Seq<char>, Seq<Seq<char>>),
) -> bool {
    e.category@ == it.0 && e.text@ == it.1 && e.tags.deep_view() == it.2
}

/// `items` are exactly the parsed items of the block `b`, in order.
pub open spec fn list_block_models(items: Vec<ListElement>, b: Seq<char>) -> bool {
    let its = list_items_from(lines_from(b, 0), 0);
    items@.len() == its.len() && (forall|i: int|
        0 <= i < its.len() ==> list_elem_models(items@[i], its[i]))
}

/// `p` carries the whole block `b` cleaned of tag markers and trimmed,
/// and the markers' tags.
pub open spec fn paragraph_models(p: ParagraphElement, b: Seq<char>) -> bool {
    p.text@ == trim_view(cleaned_from(b, 0)) && p.tags.deep_view() == tags_from(b, 0)
}

/// List-block tolerance: a two-line block whose first line is a
/// well-formed item and whose second is not yields exactly the one
/// parsed item; the malformed line is dropped in silence.
pub proof fn lemma_list_tolerance(l1: Seq<char>, l2: Seq<char>)
    requires
        forall|k: int| 0 <= k < l1.len() ==> l1[k] != '\n',
        forall|k: int| 0 <= k < l2.len() ==> l2[k] != '\n',
        list_line(l1) is Some,
        list_line(l2) is None,
    ensures
        list_items_from(lines_from(l1 + seq!['\n'] + l2, 0), 0) == seq![list_line(l1)->Some_0],
{
    let s = l1 + seq!['\n'] + l2;
    let m = l1.len() as int;
    assert(s[m] == '\n');
    assert(forall|k: int| 0 <= k < m ==> s[k] == l1[k]);
    assert(forall|k: int| m + 1 <= k < s.len() ==> s[k] == l2[k - m - 1]);
    crate::scan::lemma_nl_run(s, 0, m);
    crate::scan::lemma_no_nl(s, m + 1);
    assert(s.subrange(0, m) =~= l1);
    assert(s.subrange(m + 1, s.len() as int) =~= l2);
    let lv = lines_from(s, 0);
    assert(lines_from(s, m + 1) =~= seq![l2]);
    assert(lv =~= seq![l1, l2]);
    assert(lv[0] == l1 && lv[1] == l2);
    assert(list_items_from(lv, 2) =~= Seq::<(Seq<char>, Seq<char>, Seq<Seq<char>>)>::empty());
    assert(list_items_from(lv, 1) =~= Seq::<(Seq<char>, Seq<char>, Seq<Seq<char>>)>::empty());
    assert(list_items_from(lv, 0) =~= seq![list_line(l1)->Some_0]);
}

/// Parses one line as a footer line.
fn parse_footer_line(l: &str) -> (r: Option<FooterElement>)
    ensures
        match r {
            Some(f) => footer_line(l@) == Some((f.key@, f.value@)),
            None => footer_line(l@) is None,
        },
{
    let n = char_len(l);
    let k = scan_word(l, 0);
    if k > 0 && n - k >= 2 && l.get_char(k) == ':' && is_space_char(l.get_char(k + 1)) {
        let key = substring(l, 0, k);
        let value = substring(l, k + 2, n);
        Some(FooterElement { key, value })
    } else {
        None
    }
}

/// Collects the key/value pairs of every footer-shaped line of `b`. An
/// empty result means the block is not footer-classified.
pub fn parse_footer_block(b: &str) -> (r: Vec<FooterElement>)
    ensures
        footer_views(r@) == footer_pairs_from(lines_from(b@, 0), 0),
        r.len() != 0 <==> is_footer_block(b@),
{
    let lines = split_lines(b);
    let mut out: Vec<FooterElement> = Vec::new();
    let mut k: usize = 0;
    let ghost lv = lines_from(b@, 0);
    while k < lines.len()
        invariant
            0 <= k <= lines.len(),
            lines.deep_view() == lv,
            footer_views(out@) + footer_pairs_from(lv, k as int) =~= footer_pairs_from(lv, 0),
        decreases lines.len() - k,
    {
        let ghost pre = footer_views(out@);
        assert(lines.deep_view()[k as int] == lines@[k as int]@);
        match parse_footer_line(&lines[k]) {
            Some(f) => {
                out.push(f);
                assert(footer_views(out@) =~= pre.push((f.key@, f.value@)));
                assert(pre.push((f.key@, f.value@)) + footer_pairs_from(lv, k as int + 1) =~= pre
                    + footer_pairs_from(lv, k as int));
            },
            None => {
            },
        }
        k = k + 1;
    }
    out
}

/// Parses one line as a list item.
fn parse_list_line(l: &str) -> (r: Option<ListElement>)
    ensures
        match r {
            Some(e) => list_line(l@) matches Some(it) && list_elem_models(e, it),
            None => list_line(l@) is None,
        },
{
    let n = char_len(l);
    let p = scan_blank(l, 0);
    if n - p >= 2 && l.get_char(p) == '-' && l.get_char(p + 1) == ' ' {
        let q = p + 2;
        let (category, start) = match category_prefix(l, q) {
            Some(c) => c,
            None => (String::new(), q),
        };
        let rest = substring(l, start, n);
        let (tags, text) = extract_tags(rest.as_str());
        Some(ListElement { category, text, tags })
    } else {
        None
    }
}

/// Parses every list-shaped line of `b` into an item, in line order,
/// silently skipping lines of any other shape.
pub fn parse_list_block(b: &str) -> (r: Vec<ListElement>)
    ensures
        list_block_models(r, b@),
{
    let lines = split_lines(b);
    let mut out: Vec<ListElement> = Vec::new();
    let mut k: usize = 0;
    let ghost lv = lines_from(b@, 0);
    while k < lines.len()
        invariant
            0 <= k <= lines.len(),
            lines.deep_view() == lv,
            out@.len() + list_items_from(lv, k as int).len() == list_items_from(lv, 0).len(),
            forall|i: int|
                0 <= i < out@.len() ==> list_elem_models(out@[i], list_items_from(lv, 0)[i]),
            list_items_from(lv, 0) =~= list_items_from(lv, 0).subrange(
                0,
                out@.len() as int,
            ) + list_items_from(lv, k as int),
        decreases lines.len() - k,
    {
        assert(lines.deep_view()[k as int] == lines@[k as int]@);
        match parse_list_line(&lines[k]) {
            Some(e) => {
                out.push(e);
                assert(list_items_from(lv, 0) =~= list_items_from(lv, 0).subrange(
                    0,
                    out@.len() as int,
                ) + list_items_from(lv, k as int + 1));
            },
            None => {
            },
        }
        k = k + 1;
    }
    out
}

/// Parses a block as a paragraph: the whole block goes through the tag
/// extractor and the cleaned text is trimmed.
pub fn parse_paragraph_block(b: &str) -> (r: ParagraphElement)
    ensures
        paragraph_models(r, b@),
{
    let (tags, cleaned) = extract_tags(b);
    let text = trim_of(cleaned.as_str());
    ParagraphElement { text, tags }
}

/// Executable classification of a block, following the spec's priority.
pub fn classify_block(b: &str) -> (r: BlockKind)
    ensures
        r == block_kind(b@),
{
    let pairs = parse_footer_block(b);
    if pairs.len() != 0 {
        BlockKind::Footer
    } else {
        let n = char_len(b);
        if n >= 2 && b.get_char(0) == '-' && b.get_char(1) == ' ' {
            BlockKind::List
        } else {
            BlockKind::Paragraph
        }
    }
}

/// Whether a block starts with a list marker.
pub fn check_list_block(b: &str) -> (r: bool)
    ensures
        r == is_list_block(b@),
{
    let n = char_len(b);
    n >= 2 && b.get_char(0) == '-' && b.get_char(1) == ' '
}

} // verus!
