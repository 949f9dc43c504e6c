//! The category grammar: a fixed vocabulary of change-category keywords,
//! each optionally preceded by `[` and optionally followed by `]`, with
//! the two brackets independent of each other.

use vstd::prelude::*;

use crate::scan::char_len;
use crate::scan::substring;

verus! {

/// The keyword `Added`.
pub open spec fn word_added() -> Seq<char> {
    seq!['A', 'd', 'd', 'e', 'd']
}

/// The keyword `Changed`.
pub open spec fn word_changed() -> Seq<char> {
    seq!['C', 'h', 'a', 'n', 'g', 'e', 'd']
}

/// The keyword `Fixed`.
pub open spec fn word_fixed() -> Seq<char> {
    seq!['F', 'i', 'x', 'e', 'd']
}

/// The keyword `Improved`.
pub open spec fn word_improved() -> Seq<char> {
    seq!['I', 'm', 'p', 'r', 'o', 'v', 'e', 'd']
}

/// The keyword `Removed`.
pub open spec fn word_removed() -> Seq<char> {
    seq!['R', 'e', 'm', 'o', 'v', 'e', 'd']
}

/// `w` is one of the five category keywords.
pub open spec fn is_vocab(w: Seq<char>) -> bool {
    w == word_added() || w == word_changed() || w == word_fixed() || w == word_improved() || w
        == word_removed()
}

/// The word `w` stands in `s` at index `i`.
pub open spec fn word_at(s: Seq<char>, i: int, w: Seq<char>) -> bool {
    0 <= i && i + w.len() <= s.len() && s.subrange(i, i + w.len() as int) == w
}

/// The vocabulary keyword standing in `s` at index `i`, if any. The five
/// keywords begin with five different letters, so at most one matches.
pub open spec fn cat_word_at(s: Seq<char>, i: int) -> Option<Seq<char>> {
    if word_at(s, i, word_added()) {
        Some(word_added())
    } else if word_at(s, i, word_changed()) {
        Some(word_changed())
    } else if word_at(s, i, word_fixed()) {
        Some(word_fixed())
    } else if word_at(s, i, word_improved()) {
        Some(word_improved())
    } else if word_at(s, i, word_removed()) {
        Some(word_removed())
    } else {
        None
    }
}

/// The category grammar applied at index `i`: an optional `[`, a
/// vocabulary keyword, an optional `]`. Yields the keyword and the index
/// after the consumed text, or nothing if no keyword stands there.
pub open spec fn category_at(s: Seq<char>, i: int) -> Option<(Seq<char>, int)> {
    let j = if 0 <= i < s.len() && s[i] == '[' {
        i + 1
    } else {
        i
    };
    match cat_word_at(s, j) {
        None => None,
        Some(w) => {
            let k = j + w.len();
            if k < s.len() && s[k] == ']' {
                Some((w, k + 1))
            } else {
                Some((w, k))
            }
        },
    }
}

/// The category grammar applied to a whole input: it must consume every
/// character.
pub open spec fn category_of(s: Seq<char>) -> Option<Seq<char>> {
    match category_at(s, 0) {
        None => None,
        Some((w, e)) => if e == s.len() {
            Some(w)
        } else {
            None
        },
    }
}

/// The word found at `i` is in the vocabulary and really stands there.
pub proof fn lemma_cat_word_at(s: Seq<char>, i: int)
    ensures
        cat_word_at(s, i) matches Some(w) ==> is_vocab(w) && word_at(s, i, w),
{
}

/// A word standing at `i` fixes the character there.
proof fn lemma_word_at_first(s: Seq<char>, i: int, w: Seq<char>)
    requires
        word_at(s, i, w),
        w.len() > 0,
    ensures
        s[i] == w[0],
{
    assert(s.subrange(i, i + w.len() as int)[0] == s[i]);
}

/// The keyword standing at `i`, when it is `w`, is found: no other
/// keyword can match there, since the five begin with different letters.
proof fn lemma_vocab_word_found(s: Seq<char>, i: int, w: Seq<char>)
    requires
        is_vocab(w),
        word_at(s, i, w),
    ensures
        cat_word_at(s, i) == Some(w),
{
    lemma_word_at_first(s, i, w);
    if word_at(s, i, word_added()) {
        lemma_word_at_first(s, i, word_added());
    }
    if word_at(s, i, word_changed()) {
        lemma_word_at_first(s, i, word_changed());
    }
    if word_at(s, i, word_fixed()) {
        lemma_word_at_first(s, i, word_fixed());
    }
    if word_at(s, i, word_improved()) {
        lemma_word_at_first(s, i, word_improved());
    }
    if word_at(s, i, word_removed()) {
        lemma_word_at_first(s, i, word_removed());
    }
}

/// Every vocabulary keyword is accepted by the category grammar in each
/// of its four spellings: bare, with either bracket alone, and fully
/// bracketed; and each spelling yields the keyword itself.
pub proof fn lemma_category_accepts_vocab(w: Seq<char>)
    requires
        is_vocab(w),
    ensures
        category_of(w) == Some(w),
        category_of(seq!['['] + w) == Some(w),
        category_of(w + seq![']']) == Some(w),
        category_of(seq!['['] + w + seq![']']) == Some(w),
{
    assert(w[0] != '[');
    assert(w.subrange(0, w.len() as int) =~= w);
    lemma_vocab_word_found(w, 0, w);

    let sb = seq!['['] + w;
    assert(sb.subrange(1, 1 + w.len() as int) =~= w);
    lemma_vocab_word_found(sb, 1, w);
    assert(category_of(sb) == Some(w));

    let sr = w + seq![']'];
    assert(sr.subrange(0, w.len() as int) =~= w);
    assert(sr[0] == w[0]);
    lemma_vocab_word_found(sr, 0, w);
    assert(sr[w.len() as int] == ']');
    assert(category_of(sr) == Some(w));

    let sbr = seq!['['] + w + seq![']'];
    assert(sbr[0] == '[');
    assert(sbr.subrange(1, 1 + w.len() as int) =~= w);
    lemma_vocab_word_found(sbr, 1, w);
    assert(sbr[1 + w.len() as int] == ']');
    assert(category_of(sbr) == Some(w));
}

/// `s` is one of the four accepted spellings of some vocabulary keyword.
pub open spec fn is_category_form(s: Seq<char>) -> bool {
    exists|w: Seq<char>|
        is_vocab(w) && (s == w || s == seq!['['] + w || s == w + seq![']'] || s == seq!['['] + w
            + seq![']'])
}

/// Anything but the four spellings of a vocabulary keyword is rejected
/// by the category grammar. In particular every string that is not a
/// keyword, once the optional brackets are set aside, fails.
pub proof fn lemma_category_rejects(s: Seq<char>)
    requires
        !is_category_form(s),
    ensures
        category_of(s) is None,
{
    if category_of(s) is Some {
        let w = category_of(s)->Some_0;
        let j = if 0 < s.len() && s[0] == '[' {
            1int
        } else {
            0int
        };
        lemma_cat_word_at(s, j);
        assert(is_vocab(w) && word_at(s, j, w));
        let k = j + w.len();
        if j == 0 {
            if k < s.len() && s[k] == ']' {
                assert(s =~= w + seq![']']);
            } else {
                assert(s =~= w);
            }
        } else {
            if k < s.len() && s[k] == ']' {
                assert(s =~= seq!['['] + w + seq![']']);
            } else {
                assert(s =~= seq!['['] + w);
            }
        }
        assert(is_category_form(s));
    }
}

/// Whether the word `w` stands in `s` at index `i`.
fn check_word_at(s: &str, i: usize, w: &str) -> (r: bool)
    requires
        i <= s@.len(),
    ensures
        r == word_at(s@, i as int, w@),
{
    let n = char_len(s);
    let wn = char_len(w);
    if n - i < wn {
        return false;
    }
    let mut j: usize = 0;
    while j < wn
        invariant
            0 <= j <= wn,
            i + wn <= n,
            forall|k: int| 0 <= k < j ==> s@[i + k] == w@[k],
        decreases wn - j,
    {
        if s.get_char(i + j) != w.get_char(j) {
            assert(s@.subrange(i as int, i + wn as int)[j as int] != w@[j as int]);
            return false;
        }
        j = j + 1;
    }
    assert(s@.subrange(i as int, i + wn as int) =~= w@);
    true
}

/// The vocabulary keyword standing at `i`, as its character length.
fn vocab_word_at(s: &str, i: usize) -> (r: Option<usize>)
    requires
        i <= s@.len(),
    ensures
        match r {
            Some(l) => cat_word_at(s@, i as int) == Some(
                s@.subrange(i as int, i + l as int),
            ) && i + l <= s@.len() && l >= 1,
            None => cat_word_at(s@, i as int) is None,
        },
{
    proof {
        reveal_strlit("Added");
        reveal_strlit("Changed");
        reveal_strlit("Fixed");
        reveal_strlit("Improved");
        reveal_strlit("Removed");
        assert("Added"@ =~= word_added());
        assert("Changed"@ =~= word_changed());
        assert("Fixed"@ =~= word_fixed());
        assert("Improved"@ =~= word_improved());
        assert("Removed"@ =~= word_removed());
    }
    if check_word_at(s, i, "Added") {
        Some(5)
    } else if check_word_at(s, i, "Changed") {
        Some(7)
    } else if check_word_at(s, i, "Fixed") {
        Some(5)
    } else if check_word_at(s, i, "Improved") {
        Some(8)
    } else if check_word_at(s, i, "Removed") {
        Some(7)
    } else {
        None
    }
}

/// The category grammar applied at index `i` of `s`: returns the keyword
/// and the index after the consumed text.
pub fn category_prefix(s: &str, i: usize) -> (r: Option<(String, usize)>)
    requires
        i <= s@.len(),
    ensures
        match r {
            Some(p) => category_at(s@, i as int) == Some((p.0@, p.1 as int)) && i <= p.1
                <= s@.len(),
            None => category_at(s@, i as int) is None,
        },
{
    let n = char_len(s);
    let j = if i < n && s.get_char(i) == '[' {
        i + 1
    } else {
        i
    };
    match vocab_word_at(s, j) {
        None => None,
        Some(l) => {
            let k = j + l;
            let w = substring(s, j, k);
            if k < n && s.get_char(k) == ']' {
                Some((w, k + 1))
            } else {
                Some((w, k))
            }
        },
    }
}

/// Parses a whole input as a category: an optional `[`, exactly one
/// vocabulary keyword, an optional `]`, and nothing else. Yields the
/// keyword, or nothing if the input is not of that form.
pub fn parse_category(input: &str) -> (r: Option<String>)
    ensures
        match r {
            Some(w) => category_of(input@) == Some(w@),
            None => category_of(input@) is None,
        },
{
    let n = char_len(input);
    match category_prefix(input, 0) {
        None => None,
        Some(p) => {
            if p.1 == n {
                Some(p.0)
            } else {
                None
            }
        },
    }
}

} // verus!
