//! Finding a reading in the output of a tool: the word that follows a
//! marker.

use vstd::prelude::*;
use crate::validate::{is_whitespace, whitespace};

verus! {

/// `marker` stands in `text` at place `i`.
pub open spec fn occurs_at(text: Seq<char>, marker: Seq<char>, i: int) -> bool {
    0 <= i && i + marker.len() <= text.len() && text.subrange(i, i + marker.len()) == marker
}

/// `c` is white space that does not end a line.
pub open spec fn is_blank(c: char) -> bool {
    is_whitespace(c) && c != '\n'
}

/// Where the run of blanks that starts at `from` ends.
pub open spec fn blank_run_end(text: Seq<char>, from: int) -> int
    decreases text.len() - from,
{
    if 0 <= from < text.len() && is_blank(text[from]) {
        blank_run_end(text, from + 1)
    } else {
        from
    }
}

/// Where the word that starts at `from` ends: at the next white space or at
/// the end of the text.
pub open spec fn word_end(text: Seq<char>, from: int) -> int
    decreases text.len() - from,
{
    if 0 <= from < text.len() && !is_whitespace(text[from]) {
        word_end(text, from + 1)
    } else {
        from
    }
}

/// The word that follows place `from` on the same line, blanks passed over.
pub open spec fn word_after(text: Seq<char>, from: int) -> Seq<char> {
    text.subrange(blank_run_end(text, from), word_end(text, blank_run_end(text, from)))
}

/// Whether `marker` stands in `text` at place `i`.
pub fn stands_at(text: &Vec<char>, marker: &Vec<char>, i: usize) -> (found: bool)
    ensures
        found == occurs_at(text@, marker@, i as int),
{
    let m = marker.len();
    if m > text.len() || i > text.len() - m {
        return false;
    }
    let n = text.len();
    let mut k: usize = 0;
    while k < m
        invariant
            m == marker@.len(),
            n == text@.len(),
            i + m <= text@.len(),
            k <= m,
            forall|j: int| 0 <= j < k ==> text@[i + j] == marker@[j],
        decreases m - k,
    {
        if text[i + k] != marker[k] {
            assert(text@.subrange(i as int, i + m)[k as int] != marker@[k as int]);
            return false;
        }
        k = k + 1;
    }
    assert(text@.subrange(i as int, i + m) =~= marker@);
    true
}

/// The bounds of the word that follows place `from` on the same line.
pub fn find_word(text: &Vec<char>, from: usize) -> (bounds: (usize, usize))
    requires
        from <= text@.len(),
    ensures
        bounds.0 == blank_run_end(text@, from as int),
        bounds.1 == word_end(text@, bounds.0 as int),
        from <= bounds.0 <= bounds.1 <= text@.len(),
        text@.subrange(bounds.0 as int, bounds.1 as int) == word_after(text@, from as int),
{
    let n = text.len();
    let mut start = from;
    while start < n && whitespace(text[start]) && text[start] != '\n'
        invariant
            n == text@.len(),
            from <= start <= n,
            blank_run_end(text@, from as int) == blank_run_end(text@, start as int),
        decreases n - start,
    {
        start = start + 1;
    }
    let mut end = start;
    while end < n && !whitespace(text[end])
        invariant
            n == text@.len(),
            start <= end <= n,
            word_end(text@, start as int) == word_end(text@, end as int),
        decreases n - end,
    {
        end = end + 1;
    }
    (start, end)
}

} // verus!
