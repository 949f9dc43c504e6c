//! Low-level scanners over the character sequence of a string: runs of a
//! character class, searches for separators, trimming, and splitting a
//! message into lines and blank-line-delimited blocks.
//!
//! Every spec function here walks the sequence by absolute index, so an
//! executable loop can relate its cursor to the spec directly.

use vstd::prelude::*;

use crate::chars::is_alpha_char;
use crate::chars::is_blank_char;
use crate::chars::is_digit_char;
use crate::chars::is_space_char;
use crate::chars::is_word_char;
use crate::chars::spec_is_alpha;
use crate::chars::spec_is_blank;
use crate::chars::spec_is_digit;
use crate::chars::spec_is_space;
use crate::chars::spec_is_word;

verus! {

/// First index at or after `i` whose character is not a blank (space or tab).
pub open spec fn skip_blank(s: Seq<char>, i: int) -> int
    decreases s.len() - i,
{
    if i < s.len() && spec_is_blank(s[i]) {
        skip_blank(s, i + 1)
    } else {
        i
    }
}

/// First index at or after `i` whose character is not whitespace.
pub open spec fn skip_space(s: Seq<char>, i: int) -> int
    decreases s.len() - i,
{
    if i < s.len() && spec_is_space(s[i]) {
        skip_space(s, i + 1)
    } else {
        i
    }
}

/// Last position at or before `i` with no whitespace directly before it.
pub open spec fn rskip_space(s: Seq<char>, i: int) -> int
    decreases i,
{
    if 0 < i <= s.len() && spec_is_space(s[i - 1]) {
        rskip_space(s, i - 1)
    } else {
        i
    }
}

/// End of the run of ASCII letters starting at `i`.
pub open spec fn alpha_end(s: Seq<char>, i: int) -> int
    decreases s.len() - i,
{
    if i < s.len() && spec_is_alpha(s[i]) {
        alpha_end(s, i + 1)
    } else {
        i
    }
}

/// End of the run of ASCII digits starting at `i`.
pub open spec fn digit_end(s: Seq<char>, i: int) -> int
    decreases s.len() - i,
{
    if i < s.len() && spec_is_digit(s[i]) {
        digit_end(s, i + 1)
    } else {
        i
    }
}

/// End of the run of word characters starting at `i`.
pub open spec fn word_end(s: Seq<char>, i: int) -> int
    decreases s.len() - i,
{
    if i < s.len() && spec_is_word(s[i]) {
        word_end(s, i + 1)
    } else {
        i
    }
}

/// `s` trimmed of leading and trailing whitespace.
pub open spec fn trim_view(s: Seq<char>) -> Seq<char> {
    let a = skip_space(s, 0);
    let b = rskip_space(s, s.len() as int);
    if a <= b {
        s.subrange(a, b)
    } else {
        Seq::empty()
    }
}

/// A block separator (two consecutive newlines) stands at index `i`.
pub open spec fn sep_at(s: Seq<char>, i: int) -> bool {
    0 <= i && i + 1 < s.len() && s[i] == '\n' && s[i + 1] == '\n'
}

/// Index of the first block separator at or after `i`, if any.
pub open spec fn first_sep_from(s: Seq<char>, i: int) -> Option<int>
    decreases s.len() - i,
{
    if i >= s.len() {
        None
    } else if sep_at(s, i) {
        Some(i)
    } else {
        first_sep_from(s, i + 1)
    }
}

/// Index of the first newline at or after `i`, if any.
pub open spec fn first_nl_from(s: Seq<char>, i: int) -> Option<int>
    decreases s.len() - i,
{
    if i >= s.len() {
        None
    } else if s[i] == '\n' {
        Some(i)
    } else {
        first_nl_from(s, i + 1)
    }
}

/// A found separator lies in range and really is a separator.
pub proof fn lemma_first_sep_from(s: Seq<char>, i: int)
    ensures
        first_sep_from(s, i) matches Some(j) ==> i <= j && sep_at(s, j),
    decreases s.len() - i,
{
    if i < s.len() && !sep_at(s, i) {
        lemma_first_sep_from(s, i + 1);
    }
}

/// A found newline lies in range and really is a newline.
pub proof fn lemma_first_nl_from(s: Seq<char>, i: int)
    ensures
        first_nl_from(s, i) matches Some(j) ==> i <= j && j < s.len() && s[j] == '\n',
    decreases s.len() - i,
{
    if i < s.len() && s[i] != '\n' {
        lemma_first_nl_from(s, i + 1);
    }
}

/// A newline after a newline-free run is the first newline.
pub proof fn lemma_nl_run(s: Seq<char>, i: int, j: int)
    requires
        0 <= i <= j < s.len(),
        s[j] == '\n',
        forall|k: int| i <= k < j ==> s[k] != '\n',
    ensures
        first_nl_from(s, i) == Some(j),
    decreases j - i,
{
    if i < j {
        lemma_nl_run(s, i + 1, j);
    }
}

/// A newline-free tail has no first newline.
pub proof fn lemma_no_nl(s: Seq<char>, i: int)
    requires
        forall|k: int| i <= k < s.len() ==> s[k] != '\n',
    ensures
        first_nl_from(s, i) is None,
    decreases s.len() - i,
{
    if i < s.len() {
        lemma_no_nl(s, i + 1);
    }
}

/// The blocks of a message, from index `i` on: maximal runs of text
/// delimited by two consecutive newlines.
pub open spec fn blocks_from(s: Seq<char>, i: int) -> Seq<Seq<char>>
    decreases s.len() - i,
    via blocks_from_dec
{
    match first_sep_from(s, i) {
        None => seq![s.subrange(i, s.len() as int)],
        Some(j) => seq![s.subrange(i, j)] + blocks_from(s, j + 2),
    }
}

#[via_fn]
proof fn blocks_from_dec(s: Seq<char>, i: int) {
    lemma_first_sep_from(s, i);
}

/// The lines of a block, from index `i` on: runs of text delimited by a
/// single newline.
pub open spec fn lines_from(s: Seq<char>, i: int) -> Seq<Seq<char>>
    decreases s.len() - i,
    via lines_from_dec
{
    match first_nl_from(s, i) {
        None => seq![s.subrange(i, s.len() as int)],
        Some(j) => seq![s.subrange(i, j)] + lines_from(s, j + 1),
    }
}

#[via_fn]
proof fn lines_from_dec(s: Seq<char>, i: int) {
    lemma_first_nl_from(s, i);
}

/// Number of characters in `s`; the byte length of `str::len` is of no
/// use to the grammars, which address characters.
pub fn char_len(s: &str) -> (n: usize)
    ensures
        n == s@.len(),
{
    s.unicode_len()
}

/// Executable counterpart of `skip_blank`.
pub fn scan_blank(s: &str, from: usize) -> (r: usize)
    requires
        from <= s@.len(),
    ensures
        r == skip_blank(s@, from as int),
        from <= r <= s@.len(),
{
    let n = char_len(s);
    let mut i: usize = from;
    while i < n && is_blank_char(s.get_char(i))
        invariant
            from <= i <= n,
            skip_blank(s@, from as int) == skip_blank(s@, i as int),
        decreases n - i,
    {
        i = i + 1;
    }
    i
}

/// Executable counterpart of `skip_space`.
pub fn scan_space(s: &str, from: usize) -> (r: usize)
    requires
        from <= s@.len(),
    ensures
        r == skip_space(s@, from as int),
        from <= r <= s@.len(),
{
    let n = char_len(s);
    let mut i: usize = from;
    while i < n && is_space_char(s.get_char(i))
        invariant
            from <= i <= n,
            skip_space(s@, from as int) == skip_space(s@, i as int),
        decreases n - i,
    {
        i = i + 1;
    }
    i
}

/// Executable counterpart of `rskip_space`.
pub fn rscan_space(s: &str, from: usize) -> (r: usize)
    requires
        from <= s@.len(),
    ensures
        r == rskip_space(s@, from as int),
        r <= from,
{
    let mut i: usize = from;
    while i > 0 && is_space_char(s.get_char(i - 1))
        invariant
            i <= from,
            rskip_space(s@, from as int) == rskip_space(s@, i as int),
        decreases i,
    {
        i = i - 1;
    }
    i
}

/// Executable counterpart of `alpha_end`.
pub fn scan_alpha(s: &str, from: usize) -> (r: usize)
    requires
        from <= s@.len(),
    ensures
        r == alpha_end(s@, from as int),
        from <= r <= s@.len(),
{
    let n = char_len(s);
    let mut i: usize = from;
    while i < n && is_alpha_char(s.get_char(i))
        invariant
            from <= i <= n,
            alpha_end(s@, from as int) == alpha_end(s@, i as int),
        decreases n - i,
    {
        i = i + 1;
    }
    i
}

/// Executable counterpart of `digit_end`.
pub fn scan_digit(s: &str, from: usize) -> (r: usize)
    requires
        from <= s@.len(),
    ensures
        r == digit_end(s@, from as int),
        from <= r <= s@.len(),
{
    let n = char_len(s);
    let mut i: usize = from;
    while i < n && is_digit_char(s.get_char(i))
        invariant
            from <= i <= n,
            digit_end(s@, from as int) == digit_end(s@, i as int),
        decreases n - i,
    {
        i = i + 1;
    }
    i
}

/// Executable counterpart of `word_end`.
pub fn scan_word(s: &str, from: usize) -> (r: usize)
    requires
        from <= s@.len(),
    ensures
        r == word_end(s@, from as int),
        from <= r <= s@.len(),
{
    let n = char_len(s);
    let mut i: usize = from;
    while i < n && is_word_char(s.get_char(i))
        invariant
            from <= i <= n,
            word_end(s@, from as int) == word_end(s@, i as int),
        decreases n - i,
    {
        i = i + 1;
    }
    i
}

/// Copies the characters of `s` between `from` and `to` into an owned string.
pub fn substring(s: &str, from: usize, to: usize) -> (r: String)
    requires
        from <= to <= s@.len(),
    ensures
        r@ == s@.subrange(from as int, to as int),
{
    String::from_str(s.substring_char(from, to))
}

/// Trims leading and trailing whitespace from `s`.
pub fn trim_of(s: &str) -> (r: String)
    ensures
        r@ == trim_view(s@),
{
    let n = char_len(s);
    let a = scan_space(s, 0);
    let b = rscan_space(s, n);
    if a <= b {
        substring(s, a, b)
    } else {
        let r = String::new();
        assert(r@ =~= trim_view(s@));
        r
    }
}

/// Executable search for the first block separator at or after `from`.
pub fn find_sep(s: &str, from: usize) -> (r: Option<usize>)
    requires
        from <= s@.len(),
    ensures
        match r {
            Some(j) => first_sep_from(s@, from as int) == Some(j as int) && from <= j && j + 2
                <= s@.len() && sep_at(s@, j as int),
            None => first_sep_from(s@, from as int) is None,
        },
{
    let n = char_len(s);
    let mut i: usize = from;
    while i < n
        invariant
            from <= i <= n,
            first_sep_from(s@, from as int) == first_sep_from(s@, i as int),
        decreases n - i,
    {
        if s.get_char(i) == '\n' && i + 1 < n && s.get_char(i + 1) == '\n' {
            return Some(i);
        }
        i = i + 1;
    }
    None
}

/// Executable search for the first newline at or after `from`.
pub fn find_nl(s: &str, from: usize) -> (r: Option<usize>)
    requires
        from <= s@.len(),
    ensures
        match r {
            Some(j) => first_nl_from(s@, from as int) == Some(j as int) && from <= j && j
                < s@.len(),
            None => first_nl_from(s@, from as int) is None,
        },
{
    let n = char_len(s);
    let mut i: usize = from;
    while i < n
        invariant
            from <= i <= n,
            first_nl_from(s@, from as int) == first_nl_from(s@, i as int),
        decreases n - i,
    {
        if s.get_char(i) == '\n' {
            return Some(i);
        }
        i = i + 1;
    }
    None
}

/// Splits a message into its blank-line-delimited blocks.
pub fn split_blocks(s: &str) -> (r: Vec<String>)
    ensures
        r.deep_view() == blocks_from(s@, 0),
        r.len() > 0,
{
    let n = char_len(s);
    let mut out: Vec<String> = Vec::new();
    let mut start: usize = 0;
    loop
        invariant
            start <= n,
            out.deep_view() + blocks_from(s@, start as int) =~= blocks_from(s@, 0),
        decreases n - start,
    {
        let ghost pre = out.deep_view();
        match find_sep(s, start) {
            Some(j) => {
                let b = substring(s, start, j);
                out.push(b);
                assert(out.deep_view() =~= pre.push(b@));
                assert(pre.push(b@) + blocks_from(s@, (j + 2) as int) =~= pre + blocks_from(
                    s@,
                    start as int,
                ));
                start = j + 2;
            },
            None => {
                let b = substring(s, start, n);
                out.push(b);
                assert(out.deep_view() =~= pre.push(b@));
                assert(pre.push(b@) =~= pre + blocks_from(s@, start as int));
                return out;
            },
        }
    }
}

/// Splits a block into its newline-delimited lines.
pub fn split_lines(s: &str) -> (r: Vec<String>)
    ensures
        r.deep_view() == lines_from(s@, 0),
{
    let n = char_len(s);
    let mut out: Vec<String> = Vec::new();
    let mut start: usize = 0;
    loop
        invariant
            start <= n,
            out.deep_view() + lines_from(s@, start as int) =~= lines_from(s@, 0),
        decreases n - start,
    {
        let ghost pre = out.deep_view();
        match find_nl(s, start) {
            Some(j) => {
                let b = substring(s, start, j);
                out.push(b);
                assert(out.deep_view() =~= pre.push(b@));
                assert(pre.push(b@) + lines_from(s@, (j + 1) as int) =~= pre + lines_from(
                    s@,
                    start as int,
                ));
                start = j + 1;
            },
            None => {
                let b = substring(s, start, n);
                out.push(b);
                assert(out.deep_view() =~= pre.push(b@));
                assert(pre.push(b@) =~= pre + lines_from(s@, start as int));
                return out;
            },
        }
    }
}

} // verus!
