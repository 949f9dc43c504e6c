//! The tag extractor: finds every inline tag marker in a text and removes
//! it, collecting the tags it carried.
//!
//! A marker is a space, a colon, a shortest run of characters containing
//! neither a colon nor a newline, and a closing colon. The run is split on
//! commas and each piece, trimmed of whitespace, becomes one tag. Removal
//! deletes the whole marker, so the surrounding text closes up; text
//! without markers comes back unchanged.

use vstd::prelude::*;

use crate::scan::trim_view;
use crate::scan::trim_of;
use crate::scan::substring;
use crate::scan::char_len;

verus! {

/// Index of the first colon at or after `i`, unless a newline or the end
/// of the text comes first.
pub open spec fn tag_close_from(s: Seq<char>, i: int) -> Option<int>
    decreases s.len() - i,
{
    if i >= s.len() {
        None
    } else if s[i] == ':' {
        Some(i)
    } else if s[i] == '\n' {
        None
    } else {
        tag_close_from(s, i + 1)
    }
}

/// A found closing colon lies in range, is a colon, and nothing before it
/// (from `i` on) is a colon or a newline.
pub proof fn lemma_tag_close_from(s: Seq<char>, i: int)
    ensures
        tag_close_from(s, i) matches Some(j) ==> i <= j && j < s.len() && s[j] == ':' && (forall|
            k: int,
        |
            i <= k < j ==> s[k] != ':' && s[k] != '\n'),
    decreases s.len() - i,
{
    if i < s.len() && s[i] != ':' && s[i] != '\n' {
        lemma_tag_close_from(s, i + 1);
    }
}

/// A tag marker starts at index `i`.
pub open spec fn tag_match_at(s: Seq<char>, i: int) -> bool {
    &&& 0 <= i
    &&& i + 1 < s.len()
    &&& s[i] == ' '
    &&& s[i + 1] == ':'
    &&& tag_close_from(s, i + 2) is Some
}

/// Index of the first comma in `[i, hi)`, if any.
pub open spec fn first_comma_in(s: Seq<char>, i: int, hi: int) -> Option<int>
    decreases hi - i,
{
    if i >= hi {
        None
    } else if s[i] == ',' {
        Some(i)
    } else {
        first_comma_in(s, i + 1, hi)
    }
}

/// A found comma lies in range and is a comma.
pub proof fn lemma_first_comma_in(s: Seq<char>, i: int, hi: int)
    ensures
        first_comma_in(s, i, hi) matches Some(c) ==> i <= c && c < hi && s[c] == ',',
    decreases hi - i,
{
    if i < hi && s[i] != ',' {
        lemma_first_comma_in(s, i + 1, hi);
    }
}

/// The comma-separated pieces of `s` in `[i, hi)`, each trimmed of
/// whitespace. An empty range still yields one empty piece.
pub open spec fn pieces_from(s: Seq<char>, i: int, hi: int) -> Seq<Seq<char>>
    decreases hi - i,
    via pieces_from_dec
{
    match first_comma_in(s, i, hi) {
        None => seq![trim_view(s.subrange(i, hi))],
        Some(c) => seq![trim_view(s.subrange(i, c))] + pieces_from(s, c + 1, hi),
    }
}

#[via_fn]
proof fn pieces_from_dec(s: Seq<char>, i: int, hi: int) {
    lemma_first_comma_in(s, i, hi);
}

/// The tags of every marker in `s` at or after `i`, in order of
/// appearance.
pub open spec fn tags_from(s: Seq<char>, i: int) -> Seq<Seq<char>>
    decreases s.len() - i,
    via tags_from_dec
{
    if i >= s.len() {
        Seq::empty()
    } else if tag_match_at(s, i) {
        let j = tag_close_from(s, i + 2)->Some_0;
        pieces_from(s, i + 2, j) + tags_from(s, j + 1)
    } else {
        tags_from(s, i + 1)
    }
}

#[via_fn]
proof fn tags_from_dec(s: Seq<char>, i: int) {
    lemma_tag_close_from(s, i + 2);
}

/// The text of `s` at or after `i` with every marker removed.
pub open spec fn cleaned_from(s: Seq<char>, i: int) -> Seq<char>
    decreases s.len() - i,
    via cleaned_from_dec
{
    if i >= s.len() {
        Seq::empty()
    } else if tag_match_at(s, i) {
        let j = tag_close_from(s, i + 2)->Some_0;
        cleaned_from(s, j + 1)
    } else {
        seq![s[i]] + cleaned_from(s, i + 1)
    }
}

#[via_fn]
proof fn cleaned_from_dec(s: Seq<char>, i: int) {
    lemma_tag_close_from(s, i + 2);
}

/// Scanning over a stretch without matches leaves the tags unchanged and
/// copies the stretch into the cleaned text.
proof fn lemma_no_match_scan(s: Seq<char>, i: int, m: int)
    requires
        0 <= i <= m <= s.len(),
        forall|k: int| i <= k < m ==> !tag_match_at(s, k),
    ensures
        tags_from(s, i) == tags_from(s, m),
        cleaned_from(s, i) == s.subrange(i, m) + cleaned_from(s, m),
    decreases m - i,
{
    if i < m {
        lemma_no_match_scan(s, i + 1, m);
        assert(s.subrange(i, m) =~= seq![s[i]] + s.subrange(i + 1, m));
        assert(seq![s[i]] + (s.subrange(i + 1, m) + cleaned_from(s, m)) =~= s.subrange(i, m)
            + cleaned_from(s, m));
    } else {
        assert(s.subrange(i, m) =~= Seq::empty());
        assert(s.subrange(i, m) + cleaned_from(s, m) =~= cleaned_from(s, m));
    }
}

/// A colon after a run free of colons and newlines is the closing colon.
proof fn lemma_close_run(s: Seq<char>, i: int, j: int)
    requires
        0 <= i <= j < s.len(),
        s[j] == ':',
        forall|k: int| i <= k < j ==> s[k] != ':' && s[k] != '\n',
    ensures
        tag_close_from(s, i) == Some(j),
    decreases j - i,
{
    if i < j {
        lemma_close_run(s, i + 1, j);
    }
}

/// A comma after a comma-free run is the first comma.
proof fn lemma_comma_run(s: Seq<char>, i: int, c: int, hi: int)
    requires
        0 <= i <= c < hi,
        s[c] == ',',
        forall|k: int| i <= k < c ==> s[k] != ',',
    ensures
        first_comma_in(s, i, hi) == Some(c),
    decreases c - i,
{
    if i < c {
        lemma_comma_run(s, i + 1, c, hi);
    }
}

/// A comma-free range has no first comma.
proof fn lemma_no_comma(s: Seq<char>, i: int, hi: int)
    requires
        forall|k: int| i <= k < hi ==> s[k] != ',',
    ensures
        first_comma_in(s, i, hi) is None,
    decreases hi - i,
{
    if i < hi {
        lemma_no_comma(s, i + 1, hi);
    }
}

/// Trimming text free of whitespace gives it back unchanged.
proof fn lemma_trim_id(x: Seq<char>)
    requires
        forall|k: int| 0 <= k < x.len() ==> !crate::chars::spec_is_space(x[k]),
    ensures
        trim_view(x) == x,
{
    assert(x.subrange(0, x.len() as int) =~= x);
}

/// A character that may stand in a tag piece of the round-trip law: not
/// a colon, comma or newline, and no whitespace.
pub open spec fn tag_piece_char(c: char) -> bool {
    c != ':' && c != ',' && c != '\n' && !crate::chars::spec_is_space(c)
}

/// A text followed by a marker carrying two tags.
pub open spec fn with_marker(t: Seq<char>, a: Seq<char>, b: Seq<char>) -> Seq<char> {
    t + seq![' ', ':'] + a + seq![','] + b + seq![':']
}

/// Tag round trip: appending a marker ` :a,b:` to a text `t` free of
/// marker starts, and extracting, yields exactly the tags `a` and `b`
/// and gives `t` back as the cleaned text.
pub proof fn lemma_tag_round_trip(t: Seq<char>, a: Seq<char>, b: Seq<char>)
    requires
        forall|i: int| 0 <= i && i + 1 < t.len() ==> !((#[trigger] t[i]) == ' ' && t[i + 1] == ':'),
        a.len() > 0,
        b.len() > 0,
        forall|i: int| 0 <= i < a.len() ==> tag_piece_char(a[i]),
        forall|i: int| 0 <= i < b.len() ==> tag_piece_char(b[i]),
    ensures
        tags_from(with_marker(t, a, b), 0) == seq![a, b],
        cleaned_from(with_marker(t, a, b), 0) == t,
{
    let s = with_marker(t, a, b);
    let m = t.len() as int;
    let al = a.len() as int;
    let bl = b.len() as int;
    let hi = s.len() as int;
    assert(hi == m + al + bl + 4);
    assert(forall|i: int| 0 <= i < m ==> s[i] == t[i]);
    assert(s[m] == ' ' && s[m + 1] == ':');
    assert(forall|i: int| m + 2 <= i < m + 2 + al ==> s[i] == a[i - m - 2]);
    assert(s[m + 2 + al] == ',');
    assert(forall|i: int| m + 3 + al <= i < m + 3 + al + bl ==> s[i] == b[i - m - 3 - al]);
    assert(s[hi - 1] == ':');

    assert forall|k: int| 0 <= k < m implies !tag_match_at(s, k) by {
        if k + 1 < m {
            assert(!(t[k] == ' ' && t[k + 1] == ':'));
        } else {
            assert(s[k + 1] == ' ');
        }
    }
    lemma_no_match_scan(s, 0, m);

    lemma_close_run(s, m + 2, hi - 1);
    assert(tag_match_at(s, m));

    let c = m + 2 + al;
    assert forall|k: int| m + 2 <= k < c implies s[k] != ',' by {
        assert(tag_piece_char(a[k - m - 2]));
    }
    lemma_comma_run(s, m + 2, c, hi - 1);
    assert(s.subrange(m + 2, c) =~= a);
    lemma_trim_id(a);
    assert forall|k: int| c + 1 <= k < hi - 1 implies s[k] != ',' by {
        assert(tag_piece_char(b[k - m - 3 - al]));
    }
    lemma_no_comma(s, c + 1, hi - 1);
    assert(s.subrange(c + 1, hi - 1) =~= b);
    lemma_trim_id(b);
    assert(pieces_from(s, c + 1, hi - 1) =~= seq![b]);
    assert(pieces_from(s, m + 2, hi - 1) =~= seq![a, b]);

    assert(tags_from(s, hi - 1 + 1) =~= Seq::<Seq<char>>::empty());
    assert(tags_from(s, m) =~= seq![a, b]);
    assert(cleaned_from(s, hi - 1 + 1) =~= Seq::<char>::empty());
    assert(cleaned_from(s, m) =~= Seq::<char>::empty());
    assert(cleaned_from(s, 0) =~= s.subrange(0, m));
    assert(s.subrange(0, m) =~= t);
}

/// `s` nowhere holds two colons side by side.
pub open spec fn no_double_colon(s: Seq<char>) -> bool {
    forall|i: int| 0 <= i && i + 1 < s.len() ==> !((#[trigger] s[i]) == ':' && s[i + 1] == ':')
}

/// Prepending one character shifts the closing-colon search by one.
proof fn lemma_close_shift(x: char, c: Seq<char>, q: int)
    requires
        1 <= q,
    ensures
        tag_close_from(seq![x] + c, q) == (match tag_close_from(c, q - 1) {
            Some(j) => Some(j + 1),
            None => None,
        }),
    decreases c.len() + 1 - q,
{
    let s = seq![x] + c;
    if q < s.len() {
        assert(s[q] == c[q - 1]);
        if s[q] != ':' && s[q] != '\n' {
            lemma_close_shift(x, c, q + 1);
        }
    }
}

/// Where the search for a closing colon fails, it fails in the cleaned
/// text too: removal deletes no newline, and keeps what is left in
/// order.
proof fn lemma_close_none_in_cleaned(s: Seq<char>, q: int)
    requires
        0 <= q,
        tag_close_from(s, q) is None,
    ensures
        tag_close_from(cleaned_from(s, q), 0) is None,
    decreases s.len() - q,
{
    if q < s.len() {
        if s[q] == '\n' {
            assert(!tag_match_at(s, q));
            assert(cleaned_from(s, q)[0] == '\n');
        } else {
            assert(s[q] != ':');
            assert(tag_close_from(s, q + 1) is None);
            assert(!tag_match_at(s, q)) by {
                if tag_match_at(s, q) {
                    lemma_tag_close_from(s, q + 2);
                    assert(tag_close_from(s, q + 1) is Some);
                }
            }
            lemma_close_none_in_cleaned(s, q + 1);
            let c = cleaned_from(s, q + 1);
            assert(cleaned_from(s, q) == seq![s[q]] + c);
            lemma_close_shift(s[q], c, 1);
        }
    }
}

/// The first character of the cleaned text is the scanned character
/// itself where no marker starts, and is never a colon where one does:
/// a marker ends in a colon, and no second colon follows it.
proof fn lemma_cleaned_head(s: Seq<char>, i: int)
    requires
        0 <= i,
        no_double_colon(s),
    ensures
        cleaned_from(s, i).len() > 0 ==> (cleaned_from(s, i)[0] != ':' || (!tag_match_at(s, i)
            && cleaned_from(s, i)[0] == s[i])),
    decreases s.len() - i,
{
    if i < s.len() && tag_match_at(s, i) {
        let j = tag_close_from(s, i + 2)->Some_0;
        lemma_tag_close_from(s, i + 2);
        lemma_cleaned_head(s, j + 1);
        if cleaned_from(s, i).len() > 0 {
            assert(j + 1 < s.len());
            assert(s[j] == ':' && s[j + 1] != ':');
        }
    }
}

/// No marker starts anywhere in the cleaned text, provided the input
/// holds no two colons side by side.
proof fn lemma_cleaned_no_match(s: Seq<char>, i: int)
    requires
        0 <= i,
        no_double_colon(s),
    ensures
        forall|p: int| !tag_match_at(cleaned_from(s, i), p),
    decreases s.len() - i,
{
    if i >= s.len() {
        assert(forall|p: int| !tag_match_at(cleaned_from(s, i), p));
    } else if tag_match_at(s, i) {
        let j = tag_close_from(s, i + 2)->Some_0;
        lemma_tag_close_from(s, i + 2);
        lemma_cleaned_no_match(s, j + 1);
        assert(cleaned_from(s, i) == cleaned_from(s, j + 1));
        assert(forall|p: int| !tag_match_at(cleaned_from(s, i), p));
    } else {
        lemma_cleaned_no_match(s, i + 1);
        let c = cleaned_from(s, i);
        let ct = cleaned_from(s, i + 1);
        assert(c == seq![s[i]] + ct);
        assert forall|p: int| !tag_match_at(c, p) by {
            if 1 <= p && tag_match_at(c, p) {
                assert(c[p] == ct[p - 1] && c[p + 1] == ct[p]);
                lemma_close_shift(s[i], ct, p + 2);
                assert(tag_match_at(ct, p - 1));
            }
            if p == 0 && tag_match_at(c, 0) {
                assert(s[i] == ' ' && ct.len() > 0 && ct[0] == ':');
                lemma_cleaned_head(s, i + 1);
                assert(!tag_match_at(s, i + 1) && i + 1 < s.len() && s[i + 1] == ':');
                assert(tag_close_from(s, i + 2) is None);
                let cu = cleaned_from(s, i + 2);
                assert(ct == seq![s[i + 1]] + cu);
                lemma_close_none_in_cleaned(s, i + 2);
                lemma_close_shift(s[i + 1], cu, 1);
                lemma_close_shift(s[i], ct, 2);
                assert(tag_close_from(c, 2) is None);
            }
        }
        assert(forall|p: int| !tag_match_at(cleaned_from(s, i), p));
    }
}

/// Idempotence: on an input without two colons side by side, the
/// cleaned text holds no further marker, so running the extractor on it
/// again finds no tags and returns it unchanged.
pub proof fn lemma_extract_idempotent(s: Seq<char>)
    requires
        no_double_colon(s),
    ensures
        tags_from(cleaned_from(s, 0), 0) == Seq::<Seq<char>>::empty(),
        cleaned_from(cleaned_from(s, 0), 0) == cleaned_from(s, 0),
{
    lemma_cleaned_no_match(s, 0);
    let c = cleaned_from(s, 0);
    lemma_no_match_scan(c, 0, c.len() as int);
    assert(tags_from(c, c.len() as int) =~= Seq::<Seq<char>>::empty());
    assert(cleaned_from(c, c.len() as int) =~= Seq::<char>::empty());
    assert(c.subrange(0, c.len() as int) + cleaned_from(c, c.len() as int) =~= c);
}

/// Executable counterpart of `tag_close_from`.
fn find_close(s: &str, from: usize) -> (r: Option<usize>)
    requires
        from <= s@.len(),
    ensures
        match r {
            Some(j) => tag_close_from(s@, from as int) == Some(j as int) && from <= j && j
                < s@.len(),
            None => tag_close_from(s@, from as int) is None,
        },
{
    let n = char_len(s);
    let mut i: usize = from;
    while i < n
        invariant
            from <= i <= n,
            tag_close_from(s@, from as int) == tag_close_from(s@, i as int),
        decreases n - i,
    {
        let c = s.get_char(i);
        if c == ':' {
            return Some(i);
        }
        if c == '\n' {
            return None;
        }
        i = i + 1;
    }
    None
}

/// Executable counterpart of `first_comma_in`.
fn find_comma(s: &str, from: usize, hi: usize) -> (r: Option<usize>)
    requires
        from <= hi <= s@.len(),
    ensures
        match r {
            Some(c) => first_comma_in(s@, from as int, hi as int) == Some(c as int) && from <= c
                && c < hi,
            None => first_comma_in(s@, from as int, hi as int) is None,
        },
{
    let mut i: usize = from;
    while i < hi
        invariant
            from <= i <= hi,
            first_comma_in(s@, from as int, hi as int) == first_comma_in(s@, i as int, hi as int),
        decreases hi - i,
    {
        if s.get_char(i) == ',' {
            return Some(i);
        }
        i = i + 1;
    }
    None
}

/// Splits the captured group `[lo, hi)` on commas and appends the trimmed
/// pieces to `tags`.
fn push_pieces(s: &str, lo: usize, hi: usize, tags: &mut Vec<String>)
    requires
        lo <= hi <= s@.len(),
    ensures
        final(tags).deep_view() == old(tags).deep_view() + pieces_from(s@, lo as int, hi as int),
{
    let mut i: usize = lo;
    loop
        invariant
            lo <= i <= hi,
            old(tags).deep_view() + pieces_from(s@, lo as int, hi as int) =~= tags.deep_view()
                + pieces_from(s@, i as int, hi as int),
        decreases hi - i,
    {
        let ghost pre = tags.deep_view();
        match find_comma(s, i, hi) {
            Some(c) => {
                let piece = substring(s, i, c);
                let t = trim_of(piece.as_str());
                tags.push(t);
                assert(tags.deep_view() =~= pre.push(t@));
                assert(pre.push(t@) + pieces_from(s@, (c + 1) as int, hi as int) =~= pre
                    + pieces_from(s@, i as int, hi as int));
                i = c + 1;
            },
            None => {
                let piece = substring(s, i, hi);
                let t = trim_of(piece.as_str());
                tags.push(t);
                assert(tags.deep_view() =~= pre.push(t@));
                assert(pre.push(t@) =~= pre + pieces_from(s@, i as int, hi as int));
                return ;
            },
        }
    }
}

/// Scans `input` for tag markers; returns the tags of every marker in
/// order of appearance, and the text with all markers removed. Text
/// without markers comes back unchanged, with no tags.
pub fn extract_tags(input: &str) -> (r: (Vec<String>, String))
    ensures
        r.0.deep_view() == tags_from(input@, 0),
        r.1@ == cleaned_from(input@, 0),
{
    let n = char_len(input);
    let mut tags: Vec<String> = Vec::new();
    let mut cleaned = String::new();
    let mut seg: usize = 0;
    let mut i: usize = 0;
    while i < n
        invariant
            seg <= i <= n,
            tags.deep_view() + tags_from(input@, i as int) =~= tags_from(input@, 0),
            cleaned@ + input@.subrange(seg as int, i as int) + cleaned_from(input@, i as int)
                =~= cleaned_from(input@, 0),
        decreases n - i,
    {
        let ghost pre_tags = tags.deep_view();
        let ghost pre_clean = cleaned@;
        let mut matched: Option<usize> = None;
        if input.get_char(i) == ' ' && i + 1 < n && input.get_char(i + 1) == ':' {
            matched = find_close(input, i + 2);
        }
        match matched {
            Some(j) => {
                assert(tag_match_at(input@, i as int));
                let piece = substring(input, seg, i);
                cleaned.append(piece.as_str());
                push_pieces(input, i + 2, j, &mut tags);
                assert(tags.deep_view() + tags_from(input@, (j + 1) as int) =~= pre_tags
                    + tags_from(input@, i as int));
                assert(cleaned@ + input@.subrange((j + 1) as int, (j + 1) as int) =~= pre_clean
                    + input@.subrange(seg as int, i as int));
                seg = j + 1;
                i = j + 1;
            },
            None => {
                assert(!tag_match_at(input@, i as int));
                assert(input@.subrange(seg as int, (i + 1) as int) =~= input@.subrange(
                    seg as int,
                    i as int,
                ) + seq![input@[i as int]]);
                i = i + 1;
            },
        }
    }
    let last = substring(input, seg, n);
    cleaned.append(last.as_str());
    assert(cleaned@ =~= cleaned_from(input@, 0));
    (tags, cleaned)
}

} // verus!
