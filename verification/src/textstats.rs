//! Single-pass text statistics: characters, whitespace-separated words,
//! lines, and non-whitespace characters.

use vstd::prelude::*;
use vstd::string::StrSliceExecFns;
use crate::textutil::{is_unicode_space, is_space_char};

verus! {

/// Number of line-feed characters among the first `n` positions.
pub open spec fn newline_count_upto(s: Seq<char>, n: int) -> int
    decreases n,
{
    if n <= 0 {
        0
    } else {
        newline_count_upto(s, n - 1) + if 0 <= n - 1 < s.len() && s[n - 1] == '\n' {
            1int
        } else {
            0int
        }
    }
}

/// Number of lines of a text: line-feed-separated, with a final
/// unterminated segment counting as one more line; an empty text has none.
pub open spec fn line_count(s: Seq<char>) -> int {
    if s.len() == 0 {
        0
    } else {
        newline_count_upto(s, s.len() as int) + if s.last() == '\n' {
            0int
        } else {
            1int
        }
    }
}

/// A word starts at `i` when `i` holds a non-whitespace character that is
/// first in the text or follows whitespace.
pub open spec fn is_word_start(s: Seq<char>, i: int) -> bool {
    &&& 0 <= i < s.len()
    &&& !is_unicode_space(s[i])
    &&& (i == 0 || is_unicode_space(s[i - 1]))
}

/// Number of word starts among the first `n` positions.
pub open spec fn word_count_upto(s: Seq<char>, n: int) -> int
    decreases n,
{
    if n <= 0 {
        0
    } else {
        word_count_upto(s, n - 1) + if is_word_start(s, n - 1) {
            1int
        } else {
            0int
        }
    }
}

/// Number of whitespace-separated words of a text.
pub open spec fn word_count(s: Seq<char>) -> int {
    word_count_upto(s, s.len() as int)
}

/// Number of non-whitespace characters among the first `n` positions.
pub open spec fn non_space_count_upto(s: Seq<char>, n: int) -> int
    decreases n,
{
    if n <= 0 {
        0
    } else {
        non_space_count_upto(s, n - 1) + if 0 <= n - 1 < s.len() && !is_unicode_space(s[n - 1]) {
            1int
        } else {
            0int
        }
    }
}

/// Number of non-whitespace characters of a text.
pub open spec fn non_space_count(s: Seq<char>) -> int {
    non_space_count_upto(s, s.len() as int)
}

/// Per-text counters: characters, words, lines, non-whitespace characters.
#[derive(Debug)]
pub struct TextStats {
    pub chars: usize,
    pub bytes: usize,
    pub words: usize,
    pub lines: usize,
    pub non_space_chars: usize,
}

/// Counts characters, whitespace-separated words, lines and non-whitespace
/// characters of a text in one pass.
pub fn text_statistics(s: &str) -> (r: TextStats)
    ensures
        r.chars == s@.len(),
        r.bytes == vstd::utf8::encode_utf8(s@).len() as usize,
        r.words == word_count(s@),
        r.lines == line_count(s@),
        r.non_space_chars == non_space_count(s@),
{
    let n = s.unicode_len();
    let mut words: usize = 0;
    let mut newlines: usize = 0;
    let mut non_space: usize = 0;
    let mut prev_space = true;
    let mut i: usize = 0;
    while i < n
        invariant
            i <= n,
            n == s@.len(),
            words == word_count_upto(s@, i as int),
            words <= i,
            newlines == newline_count_upto(s@, i as int),
            newlines <= i,
            i > 0 && s@[i as int - 1] != '\n' ==> newlines < i,
            non_space == non_space_count_upto(s@, i as int),
            non_space <= i,
            prev_space == (i == 0 || is_unicode_space(s@[i as int - 1])),
        decreases n - i,
    {
        let c = s.get_char(i);
        let sp = is_space_char(c);
        if !sp && prev_space {
            words = words + 1;
        }
        if !sp {
            non_space = non_space + 1;
        }
        if c == '\n' {
            newlines = newlines + 1;
        }
        prev_space = sp;
        i = i + 1;
    }
    let lines = if n == 0 {
        0
    } else if s.get_char(n - 1) == '\n' {
        newlines
    } else {
        newlines + 1
    };
    TextStats { chars: n, bytes: s.len(), words, lines, non_space_chars: non_space }
}

} // verus!
