//! Word-frequency analysis: split a text into whitespace-separated words,
//! normalize each word (lowercase, outer punctuation removed), count every
//! distinct normalized word, and pick the most frequent ones.

use vstd::prelude::*;
use vstd::string::StrSliceExecFns;
use vstd::string::StringExecFns;
use crate::textutil::is_unicode_space;

verus! {

/// The whitespace-separated words of a text, in order: the maximal runs
/// of non-whitespace characters.
pub open spec fn words_of(s: Seq<char>) -> Seq<Seq<char>>
    decreases s.len(),
{
    if s.len() == 0 {
        Seq::empty()
    } else if is_unicode_space(s[0]) {
        words_of(s.drop_first())
    } else if s.len() == 1 || is_unicode_space(s[1]) {
        seq![seq![s[0]]] + words_of(s.drop_first())
    } else {
        let rest = words_of(s.drop_first());
        seq![seq![s[0]] + rest[0]] + rest.drop_first()
    }
}

/// Number of occurrences of `w` among the first `n` entries of `ws`.
pub open spec fn count_word_upto(ws: Seq<Seq<char>>, w: Seq<char>, n: int) -> int
    decreases n,
{
    if n <= 0 {
        0
    } else {
        count_word_upto(ws, w, n - 1) + if 0 <= n - 1 < ws.len() && ws[n - 1] == w {
            1int
        } else {
            0int
        }
    }
}

/// Number of occurrences of `w` in `ws`.
pub open spec fn count_word(ws: Seq<Seq<char>>, w: Seq<char>) -> int {
    count_word_upto(ws, w, ws.len() as int)
}

proof fn lemma_count_word_nonneg(ws: Seq<Seq<char>>, w: Seq<char>, n: int)
    ensures
        count_word_upto(ws, w, n) >= 0,
    decreases n,
{
    if n > 0 {
        lemma_count_word_nonneg(ws, w, n - 1);
    }
}

proof fn lemma_count_word_pos(ws: Seq<Seq<char>>, w: Seq<char>, n: int)
    requires
        count_word_upto(ws, w, n) > 0,
    ensures
        exists|t: int| 0 <= t < n && 0 <= t < ws.len() && ws[t] == w,
    decreases n,
{
    if n > 0 && !(0 <= n - 1 < ws.len() && ws[n - 1] == w) {
        lemma_count_word_pos(ws, w, n - 1);
    }
}

/// Whether the entry at `i` already occurs earlier in `ws`.
pub open spec fn appears_before(ws: Seq<Seq<char>>, i: int) -> bool {
    exists|j: int| 0 <= j < i && ws[j] == ws[i]
}

/// Number of distinct entries among the first `n` entries of `ws`.
pub open spec fn distinct_upto(ws: Seq<Seq<char>>, n: int) -> int
    decreases n,
{
    if n <= 0 {
        0
    } else {
        distinct_upto(ws, n - 1) + if 0 <= n - 1 < ws.len() && !appears_before(ws, n - 1) {
            1int
        } else {
            0int
        }
    }
}

/// Number of distinct entries of `ws`.
pub open spec fn distinct_word_count(ws: Seq<Seq<char>>) -> int {
    distinct_upto(ws, ws.len() as int)
}

/// Whether a character is ASCII punctuation: one of the four printable
/// ASCII ranges between the digits, letters and the space.
pub open spec fn is_ascii_punct(c: char) -> bool {
    ||| 33 <= c as int <= 47
    ||| 58 <= c as int <= 64
    ||| 91 <= c as int <= 96
    ||| 123 <= c as int <= 126
}

fn is_punct_char(c: char) -> (r: bool)
    ensures
        r == is_ascii_punct(c),
{
    let u = c as u32;
    (33 <= u && u <= 47) || (58 <= u && u <= 64) || (91 <= u && u <= 96) || (123 <= u && u <= 126)
}

/// The sequence with leading ASCII punctuation removed.
pub open spec fn punct_trim_front(s: Seq<char>) -> Seq<char>
    decreases s.len(),
{
    if s.len() > 0 && is_ascii_punct(s[0]) {
        punct_trim_front(s.drop_first())
    } else {
        s
    }
}

/// The sequence with trailing ASCII punctuation removed.
pub open spec fn punct_trim_back(s: Seq<char>) -> Seq<char>
    decreases s.len(),
{
    if s.len() > 0 && is_ascii_punct(s.last()) {
        punct_trim_back(s.drop_last())
    } else {
        s
    }
}

/// The sequence with leading and trailing ASCII punctuation removed.
pub open spec fn punct_trimmed(s: Seq<char>) -> Seq<char> {
    punct_trim_back(punct_trim_front(s))
}

proof fn lemma_punct_trim_front_is_suffix(s: Seq<char>, i: int)
    requires
        0 <= i <= s.len(),
        forall|k: int| 0 <= k < i ==> is_ascii_punct(#[trigger] s[k]),
        i == s.len() || !is_ascii_punct(s[i]),
    ensures
        punct_trim_front(s) == s.subrange(i, s.len() as int),
    decreases i,
{
    if i == 0 {
        if s.len() == 0 || !is_ascii_punct(s[0]) {
            assert(s.subrange(0, s.len() as int) =~= s);
        }
    } else {
        let t = s.drop_first();
        assert(t =~= s.subrange(1, s.len() as int));
        lemma_punct_trim_front_is_suffix(t, i - 1);
        assert(t.subrange(i - 1, t.len() as int) =~= s.subrange(i, s.len() as int));
    }
}

proof fn lemma_punct_trim_back_is_prefix(s: Seq<char>, j: int)
    requires
        0 <= j <= s.len(),
        forall|k: int| j <= k < s.len() ==> is_ascii_punct(#[trigger] s[k]),
        j == 0 || !is_ascii_punct(s[j - 1]),
    ensures
        punct_trim_back(s) == s.subrange(0, j),
    decreases s.len(),
{
    if j == s.len() {
        if s.len() == 0 || !is_ascii_punct(s.last()) {
            assert(s.subrange(0, j) =~= s);
        }
    } else {
        let t = s.drop_last();
        assert(t =~= s.subrange(0, s.len() - 1));
        lemma_punct_trim_back_is_prefix(t, j);
        assert(t.subrange(0, j) =~= s.subrange(0, j));
    }
}

/// The slice of `s` with leading and trailing ASCII punctuation removed.
pub fn trim_punct_str<'a>(s: &'a str) -> (r: &'a str)
    ensures
        r@ == punct_trimmed(s@),
{
    let n = s.unicode_len();
    let mut start: usize = 0;
    while start < n && is_punct_char(s.get_char(start))
        invariant
            start <= n,
            n == s@.len(),
            forall|k: int| 0 <= k < start ==> is_ascii_punct(#[trigger] s@[k]),
        decreases n - start,
    {
        start = start + 1;
    }
    let mut end: usize = n;
    while end > start && is_punct_char(s.get_char(end - 1))
        invariant
            start <= end <= n,
            n == s@.len(),
            forall|k: int| end <= k < n ==> is_ascii_punct(#[trigger] s@[k]),
        decreases end,
    {
        end = end - 1;
    }
    let r = s.substring_char(start, end);
    proof {
        lemma_punct_trim_front_is_suffix(s@, start as int);
        let t = s@.subrange(start as int, n as int);
        lemma_punct_trim_back_is_prefix(t, end - start);
        assert(t.subrange(0, end - start) =~= s@.subrange(start as int, end as int));
    }
    r
}

/// What lowercasing a text yields.
pub uninterp spec fn lower_of(s: Seq<char>) -> Seq<char>;

/// Relies on str::to_lowercase: the lowercase mapping depends on the
/// characters alone, and an empty string stays empty.
#[verifier::external_body]
fn to_lowercase(s: &str) -> (r: String)
    ensures
        r@ == lower_of(s@),
        s@.len() == 0 ==> r@.len() == 0,
{
    s.to_lowercase()
}

/// Relies on str::split_whitespace: it yields the maximal runs of
/// non-whitespace characters of the text, in order.
#[verifier::external_body]
fn split_whitespace_words(s: &str) -> (r: Vec<String>)
    ensures
        r.deep_view() == words_of(s@),
{
    s.split_whitespace().map(str::to_owned).collect()
}

/// The normalized form of a word: lowercased, then stripped of leading
/// and trailing ASCII punctuation.
pub open spec fn normalize_spec(w: Seq<char>) -> Seq<char> {
    punct_trimmed(lower_of(w))
}

/// Normalizes one word: lowercase it and strip outer ASCII punctuation.
pub fn normalize_word(w: &str) -> (r: String)
    ensures
        r@ == normalize_spec(w@),
{
    let lw = to_lowercase(w);
    let t = trim_punct_str(lw.as_str());
    String::from_str(t)
}

/// The normalized, non-empty forms of the first `n` entries of `ws`.
pub open spec fn normalized_upto(ws: Seq<Seq<char>>, n: int) -> Seq<Seq<char>>
    decreases n,
{
    if n <= 0 {
        Seq::empty()
    } else {
        normalized_upto(ws, n - 1) + if 0 <= n - 1 < ws.len() && normalize_spec(ws[n - 1]).len()
            > 0 {
            seq![normalize_spec(ws[n - 1])]
        } else {
            Seq::empty()
        }
    }
}

/// The normalized, non-empty words of a text.
pub open spec fn normalized_words(s: Seq<char>) -> Seq<Seq<char>> {
    normalized_upto(words_of(s), words_of(s).len() as int)
}

/// Whether some entry of `r` has `w` as its key.
pub open spec fn covers(r: Seq<(String, u64)>, w: Seq<char>) -> bool {
    exists|t: int| 0 <= t < r.len() && (#[trigger] r[t]).0@ == w
}

/// Whether `e` is one of the entries of `fs`.
pub open spec fn is_entry_of(fs: Seq<(String, u64)>, e: (String, u64)) -> bool {
    exists|j: int| 0 <= j < fs.len() && #[trigger] fs[j] == e
}

/// Every distinct normalized word of the text with its exact occurrence
/// count: one entry per distinct word, each count at least one, and every
/// normalized word of the text covered by some entry.
pub fn word_frequencies(content: &str) -> (r: Vec<(String, u64)>)
    ensures
        ({
            let nws = normalized_words(content@);
            &&& r@.len() == distinct_word_count(nws)
            &&& forall|t: int|
                0 <= t < r@.len() ==> (#[trigger] r@[t]).1 == count_word(nws, r@[t].0@) && r@[t].1
                    >= 1
            &&& forall|t1: int, t2: int|
                0 <= t1 < t2 < r@.len() ==> (#[trigger] r@[t1]).0@ != (#[trigger] r@[t2]).0@
            &&& forall|m: int| 0 <= m < nws.len() ==> covers(r@, #[trigger] nws[m])
        }),
{
    let words = split_whitespace_words(content);
    let ghost wsv = words.deep_view();
    let mut nv: Vec<String> = Vec::new();
    let mut i: usize = 0;
    while i < words.len()
        invariant
            i <= words@.len(),
            wsv == words.deep_view(),
            wsv.len() == words@.len(),
            nv.deep_view() == normalized_upto(wsv, i as int),
        decreases words@.len() - i,
    {
        let nw = normalize_word(&words[i]);
        proof {
            assert(wsv[i as int] == words@[i as int]@);
        }
        if !nw.as_str().is_empty() {
            nv.push(nw);
        }
        proof {
            assert(nv.deep_view() =~= normalized_upto(wsv, i + 1));
        }
        i = i + 1;
    }
    let ghost nws = normalized_words(content@);
    proof {
        assert(nv.deep_view() == nws);
    }
    let mut freqs: Vec<(String, u64)> = Vec::new();
    let mut m: usize = 0;
    while m < nv.len()
        invariant
            m <= nv@.len(),
            nws == normalized_words(content@),
            nv.deep_view() == nws,
            nws.len() == nv@.len(),
            freqs@.len() == distinct_upto(nws, m as int),
            forall|t: int|
                0 <= t < freqs@.len() ==> (#[trigger] freqs@[t]).1 == count_word_upto(
                    nws,
                    freqs@[t].0@,
                    m as int,
                ) && 1 <= freqs@[t].1 <= m,
            forall|t1: int, t2: int|
                0 <= t1 < t2 < freqs@.len() ==> (#[trigger] freqs@[t1]).0@ != (
                #[trigger] freqs@[t2]).0@,
            forall|w: int| 0 <= w < m ==> covers(freqs@, #[trigger] nws[w]),
        decreases nv@.len() - m,
    {
        let word = &nv[m];
        proof {
            assert(nws[m as int] == nv@[m as int]@);
        }
        let mut j: usize = 0;
        while j < freqs.len() && !(freqs[j].0 == *word)
            invariant
                j <= freqs@.len(),
                forall|t: int| 0 <= t < j ==> (#[trigger] freqs@[t]).0@ != word@,
            decreases freqs@.len() - j,
        {
            j = j + 1;
        }
        let ghost fold = freqs@;
        if j < freqs.len() {
            let key = freqs[j].0.clone();
            let c = freqs[j].1;
            proof {
                assert(key@ == nws[m as int]);
                lemma_count_word_pos(nws, key@, m as int);
                assert(appears_before(nws, m as int));
            }
            freqs[j] = (key, c + 1);
            proof {
                assert forall|t: int| 0 <= t < freqs@.len() implies (#[trigger] freqs@[t]).1
                    == count_word_upto(nws, freqs@[t].0@, m + 1) && 1 <= freqs@[t].1 <= m
                    + 1 by {
                    if t == j {
                        assert(freqs@[t].0@ == nws[m as int]);
                    } else {
                        assert(freqs@[t] == fold[t]);
                        assert(fold[t].0@ != fold[j as int].0@);
                    }
                }
                assert forall|w: int| 0 <= w < m + 1 implies covers(
                    freqs@,
                    #[trigger] nws[w],
                ) by {
                    if w < m {
                        let t0 = choose|t0: int|
                            0 <= t0 < fold.len() && (#[trigger] fold[t0]).0@ == nws[w];
                        assert(freqs@[t0].0@ == nws[w]);
                    } else {
                        assert(freqs@[j as int].0@ == nws[m as int]);
                    }
                }
            }
        } else {
            proof {
                if appears_before(nws, m as int) {
                    let w0 = choose|w0: int| 0 <= w0 < m && nws[w0] == nws[m as int];
                    assert(covers(freqs@, nws[w0]));
                    let t0 = choose|t0: int|
                        0 <= t0 < freqs@.len() && (#[trigger] freqs@[t0]).0@ == nws[w0];
                    assert(false);
                }
                lemma_count_word_nonneg(nws, nws[m as int], m as int);
                if count_word_upto(nws, nws[m as int], m as int) > 0 {
                    lemma_count_word_pos(nws, nws[m as int], m as int);
                    assert(appears_before(nws, m as int));
                    assert(false);
                }
            }
            freqs.push((word.clone(), 1));
            proof {
                assert forall|t: int| 0 <= t < freqs@.len() implies (#[trigger] freqs@[t]).1
                    == count_word_upto(nws, freqs@[t].0@, m + 1) && 1 <= freqs@[t].1 <= m
                    + 1 by {
                    if t < fold.len() {
                        assert(freqs@[t] == fold[t]);
                        assert(fold[t].0@ != nws[m as int]);
                    } else {
                        assert(freqs@[t].0@ == nws[m as int]);
                        assert(count_word_upto(nws, nws[m as int], m as int) == 0);
                    }
                }
                assert forall|w: int| 0 <= w < m + 1 implies covers(
                    freqs@,
                    #[trigger] nws[w],
                ) by {
                    if w < m {
                        let t0 = choose|t0: int|
                            0 <= t0 < fold.len() && (#[trigger] fold[t0]).0@ == nws[w];
                        assert(freqs@[t0].0@ == nws[w]);
                    } else {
                        assert(freqs@[fold.len() as int].0@ == nws[m as int]);
                    }
                }
            }
        }
        m = m + 1;
    }
    freqs
}

fn select_top(freqs: Vec<(String, u64)>, k: usize) -> (r: Vec<(String, u64)>)
    requires
        forall|j1: int, j2: int|
            0 <= j1 < j2 < freqs@.len() ==> (#[trigger] freqs@[j1]).0@ != (
            #[trigger] freqs@[j2]).0@,
    ensures
        r@.len() == (if k as int <= freqs@.len() {
            k as int
        } else {
            freqs@.len() as int
        }),
        forall|i1: int, i2: int|
            0 <= i1 < i2 < r@.len() ==> (#[trigger] r@[i1]).1 >= (#[trigger] r@[i2]).1,
        forall|i1: int, i2: int|
            0 <= i1 < i2 < r@.len() ==> (#[trigger] r@[i1]).0@ != (#[trigger] r@[i2]).0@,
        forall|i: int| 0 <= i < r@.len() ==> is_entry_of(freqs@, #[trigger] r@[i]),
        forall|j: int|
            0 <= j < freqs@.len() ==> is_entry_of(r@, #[trigger] freqs@[j]) || r@.len() == 0 || (
            freqs@[j].1 <= r@[r@.len() - 1].1),
{
    let mut rest = freqs;
    let mut r: Vec<(String, u64)> = Vec::new();
    while r.len() < k && rest.len() > 0
        invariant
            r@.len() + rest@.len() == freqs@.len(),
            r@.len() <= k,
            forall|i1: int, i2: int|
                0 <= i1 < i2 < r@.len() ==> (#[trigger] r@[i1]).1 >= (#[trigger] r@[i2]).1,
            forall|j: int|
                0 <= j < rest@.len() ==> r@.len() == 0 || (#[trigger] rest@[j]).1 <= r@[r@.len()
                    - 1].1,
            forall|i: int| 0 <= i < r@.len() ==> is_entry_of(freqs@, #[trigger] r@[i]),
            forall|j: int| 0 <= j < rest@.len() ==> is_entry_of(freqs@, #[trigger] rest@[j]),
            forall|j: int|
                0 <= j < freqs@.len() ==> is_entry_of(r@, #[trigger] freqs@[j]) || is_entry_of(
                    rest@,
                    freqs@[j],
                ),
            forall|i1: int, i2: int|
                0 <= i1 < i2 < r@.len() ==> (#[trigger] r@[i1]).0@ != (#[trigger] r@[i2]).0@,
            forall|i: int, j: int|
                0 <= i < r@.len() && 0 <= j < rest@.len() ==> (#[trigger] r@[i]).0@ != (
                #[trigger] rest@[j]).0@,
            forall|j1: int, j2: int|
                0 <= j1 < j2 < rest@.len() ==> (#[trigger] rest@[j1]).0@ != (
                #[trigger] rest@[j2]).0@,
        decreases rest@.len(),
    {
        let mut b: usize = 0;
        let mut j: usize = 1;
        while j < rest.len()
            invariant
                rest@.len() > 0,
                b < j,
                1 <= j <= rest@.len(),
                forall|t: int| 0 <= t < j ==> (#[trigger] rest@[t]).1 <= rest@[b as int].1,
            decreases rest@.len() - j,
        {
            if rest[j].1 > rest[b].1 {
                b = j;
            }
            j = j + 1;
        }
        let ghost rest0 = rest@;
        let ghost r0 = r@;
        let picked = rest.remove(b);
        r.push(picked);
        proof {
            assert(picked == rest0[b as int]);
            assert(forall|t: int|
                0 <= t < rest@.len() ==> (#[trigger] rest@[t]) == if t < b {
                    rest0[t]
                } else {
                    rest0[t + 1]
                });
            assert(r@[r@.len() - 1] == picked);
            assert forall|i1: int, i2: int| 0 <= i1 < i2 < r@.len() implies (#[trigger] r@[i1]).1
                >= (#[trigger] r@[i2]).1 by {
                if i2 == r@.len() - 1 && r0.len() > 0 {
                    assert(r0[i1].1 >= r0[r0.len() - 1].1);
                    assert(rest0[b as int].1 <= r0[r0.len() - 1].1);
                }
            }
            assert forall|i: int| 0 <= i < r@.len() implies is_entry_of(
                freqs@,
                #[trigger] r@[i],
            ) by {
                if i < r0.len() {
                    assert(is_entry_of(freqs@, r0[i]));
                } else {
                    assert(is_entry_of(freqs@, rest0[b as int]));
                }
            }
            assert forall|j2: int| 0 <= j2 < rest@.len() implies is_entry_of(
                freqs@,
                #[trigger] rest@[j2],
            ) by {
                if j2 < b {
                    assert(is_entry_of(freqs@, rest0[j2]));
                } else {
                    assert(is_entry_of(freqs@, rest0[j2 + 1]));
                }
            }
            assert forall|j2: int|
                0 <= j2 < freqs@.len() implies is_entry_of(r@, #[trigger] freqs@[j2])
                || is_entry_of(rest@, freqs@[j2]) by {
                if is_entry_of(r0, freqs@[j2]) {
                    let w = choose|w: int| 0 <= w < r0.len() && #[trigger] r0[w] == freqs@[j2];
                    assert(r@[w] == freqs@[j2]);
                } else {
                    let w = choose|w: int|
                        0 <= w < rest0.len() && #[trigger] rest0[w] == freqs@[j2];
                    if w == b {
                        assert(r@[r@.len() - 1] == freqs@[j2]);
                    } else if w < b {
                        assert(rest@[w] == freqs@[j2]);
                    } else {
                        assert(rest@[w - 1] == freqs@[j2]);
                    }
                }
            }
        }
    }
    proof {
        assert forall|j: int|
            0 <= j < freqs@.len() implies is_entry_of(r@, #[trigger] freqs@[j]) || r@.len() == 0
            || (freqs@[j].1 <= r@[r@.len() - 1].1) by {
            if !is_entry_of(r@, freqs@[j]) && r@.len() > 0 {
                let w = choose|w: int| 0 <= w < rest@.len() && #[trigger] rest@[w] == freqs@[j];
                assert(rest@[w].1 <= r@[r@.len() - 1].1);
            }
        }
    }
    r
}

/// The most frequent normalized words of a text, at most `k` of them:
/// counts are exact, keys are distinct, entries come in non-increasing
/// count order, and no word left out occurs more often than the last
/// entry returned.
pub fn top_word_frequencies(content: &str, k: usize) -> (r: Vec<(String, u64)>)
    ensures
        ({
            let nws = normalized_words(content@);
            &&& r@.len() == (if k as int <= distinct_word_count(nws) {
                k as int
            } else {
                distinct_word_count(nws)
            })
            &&& forall|i: int|
                0 <= i < r@.len() ==> (#[trigger] r@[i]).1 == count_word(nws, r@[i].0@)
                    && r@[i].1 >= 1
            &&& forall|i1: int, i2: int|
                0 <= i1 < i2 < r@.len() ==> (#[trigger] r@[i1]).1 >= (#[trigger] r@[i2]).1
            &&& forall|i1: int, i2: int|
                0 <= i1 < i2 < r@.len() ==> (#[trigger] r@[i1]).0@ != (#[trigger] r@[i2]).0@
            &&& forall|m: int|
                0 <= m < nws.len() ==> covers(r@, #[trigger] nws[m]) || r@.len() == 0 || (
                count_word(nws, nws[m]) <= r@[r@.len() - 1].1)
        }),
{
    let freqs = word_frequencies(content);
    let ghost fsq = freqs@;
    let ghost nws = normalized_words(content@);
    let r = select_top(freqs, k);
    proof {
        assert forall|i: int| 0 <= i < r@.len() implies (#[trigger] r@[i]).1 == count_word(
            nws,
            r@[i].0@,
        ) && r@[i].1 >= 1 by {
            let j = choose|j: int| 0 <= j < fsq.len() && #[trigger] fsq[j] == r@[i];
            assert(fsq[j].1 == count_word(nws, fsq[j].0@));
        }
        assert forall|m: int|
            0 <= m < nws.len() implies covers(r@, #[trigger] nws[m]) || r@.len() == 0 || (
            count_word(nws, nws[m]) <= r@[r@.len() - 1].1) by {
            let t = choose|t: int| 0 <= t < fsq.len() && (#[trigger] fsq[t]).0@ == nws[m];
            if is_entry_of(r@, fsq[t]) {
                let w = choose|w: int| 0 <= w < r@.len() && #[trigger] r@[w] == fsq[t];
                assert(r@[w].0@ == nws[m]);
                assert(covers(r@, nws[m]));
            }
        }
    }
    r
}

} // verus!
