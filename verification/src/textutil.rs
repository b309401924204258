//! Character-level text helpers: Unicode whitespace, trimming, and
//! zero-padded two-digit rendering for note timestamps.

use vstd::prelude::*;
use vstd::string::StrSliceExecFns;
use vstd::string::StringExecFns;

verus! {

pub uninterp spec fn is_unicode_space(c: char) -> bool;

/// Relies on char::is_whitespace: whether a character has the Unicode
/// whitespace property, a function of the character alone. The clauses on
/// ASCII characters restate entries of the White_Space table that the
/// documentation lists: space, tab, line feed and carriage return are
/// whitespace, and no other character in the printable ASCII range is.
#[verifier::external_body]
pub fn is_space_char(c: char) -> (r: bool)
    ensures
        r == is_unicode_space(c),
        c == ' ' || c == '\t' || c == '\n' || c == '\r' ==> r,
        '!' <= c && c <= '~' ==> !r,
{
    c.is_whitespace()
}

/// The sequence with leading whitespace removed.
pub open spec fn trim_front(s: Seq<char>) -> Seq<char>
    decreases s.len(),
{
    if s.len() > 0 && is_unicode_space(s[0]) {
        trim_front(s.drop_first())
    } else {
        s
    }
}

/// The sequence with trailing whitespace removed.
pub open spec fn trim_back(s: Seq<char>) -> Seq<char>
    decreases s.len(),
{
    if s.len() > 0 && is_unicode_space(s.last()) {
        trim_back(s.drop_last())
    } else {
        s
    }
}

/// The sequence with both leading and trailing whitespace removed.
pub open spec fn trimmed(s: Seq<char>) -> Seq<char> {
    trim_back(trim_front(s))
}

proof fn lemma_trim_front_is_suffix(s: Seq<char>, i: int)
    requires
        0 <= i <= s.len(),
        forall|k: int| 0 <= k < i ==> is_unicode_space(#[trigger] s[k]),
        i == s.len() || !is_unicode_space(s[i]),
    ensures
        trim_front(s) == s.subrange(i, s.len() as int),
    decreases i,
{
    if i == 0 {
        if s.len() == 0 || !is_unicode_space(s[0]) {
            assert(s.subrange(0, s.len() as int) =~= s);
        }
    } else {
        let t = s.drop_first();
        assert(t =~= s.subrange(1, s.len() as int));
        lemma_trim_front_is_suffix(t, i - 1);
        assert(t.subrange(i - 1, t.len() as int) =~= s.subrange(i, s.len() as int));
    }
}

proof fn lemma_trim_back_is_prefix(s: Seq<char>, j: int)
    requires
        0 <= j <= s.len(),
        forall|k: int| j <= k < s.len() ==> is_unicode_space(#[trigger] s[k]),
        j == 0 || !is_unicode_space(s[j - 1]),
    ensures
        trim_back(s) == s.subrange(0, j),
    decreases s.len(),
{
    if j == s.len() {
        if s.len() == 0 || !is_unicode_space(s.last()) {
            assert(s.subrange(0, j) =~= s);
        }
    } else {
        let t = s.drop_last();
        assert(t =~= s.subrange(0, s.len() - 1));
        lemma_trim_back_is_prefix(t, j);
        assert(t.subrange(0, j) =~= s.subrange(0, j));
    }
}

/// The slice of `s` with leading and trailing Unicode whitespace removed.
pub fn trim_str<'a>(s: &'a str) -> (r: &'a str)
    ensures
        r@ == trimmed(s@),
{
    let n = s.unicode_len();
    let mut start: usize = 0;
    while start < n && is_space_char(s.get_char(start))
        invariant
            start <= n,
            n == s@.len(),
            forall|k: int| 0 <= k < start ==> is_unicode_space(#[trigger] s@[k]),
        decreases n - start,
    {
        start = start + 1;
    }
    let mut end: usize = n;
    while end > start && is_space_char(s.get_char(end - 1))
        invariant
            start <= end <= n,
            n == s@.len(),
            forall|k: int| end <= k < n ==> is_unicode_space(#[trigger] s@[k]),
        decreases end,
    {
        end = end - 1;
    }
    let r = s.substring_char(start, end);
    proof {
        lemma_trim_front_is_suffix(s@, start as int);
        let t = s@.subrange(start as int, n as int);
        lemma_trim_back_is_prefix(t, end - start);
        assert(t.subrange(0, end - start) =~= s@.subrange(start as int, end as int));
    }
    r
}

/// The decimal digit character for a value below ten.
pub open spec fn digit_char(d: int) -> char {
    ((48 + d) as u8) as char
}

/// The two zero-padded decimal digit characters of a value below one hundred.
pub open spec fn two_digits(v: int) -> Seq<char> {
    seq![digit_char(v / 10), digit_char(v % 10)]
}

fn digit_str(d: u64) -> (r: &'static str)
    requires
        d < 10,
    ensures
        r@ == seq![digit_char(d as int)],
{
    let r: &'static str = match d {
        0 => "0",
        1 => "1",
        2 => "2",
        3 => "3",
        4 => "4",
        5 => "5",
        6 => "6",
        7 => "7",
        8 => "8",
        _ => "9",
    };
    proof {
        reveal_strlit("0");
        reveal_strlit("1");
        reveal_strlit("2");
        reveal_strlit("3");
        reveal_strlit("4");
        reveal_strlit("5");
        reveal_strlit("6");
        reveal_strlit("7");
        reveal_strlit("8");
        reveal_strlit("9");
        assert(r@ =~= seq![digit_char(d as int)]);
    }
    r
}

/// Appends the two zero-padded decimal digits of `v` to `out`.
pub fn push_two_digits(out: &mut String, v: u64)
    requires
        v < 100,
    ensures
        final(out)@ == old(out)@ + two_digits(v as int),
{
    out.append(digit_str(v / 10));
    out.append(digit_str(v % 10));
    proof {
        assert(final(out)@ =~= old(out)@ + two_digits(v as int));
    }
}

/// `n` copies of `s`, concatenated.
pub open spec fn repeated(s: Seq<char>, n: int) -> Seq<char>
    decreases n,
{
    if n <= 0 {
        Seq::empty()
    } else {
        repeated(s, n - 1) + s
    }
}

/// Appends `n` copies of `piece` to `out`.
pub fn push_repeated(out: &mut String, piece: &str, n: usize)
    ensures
        final(out)@ == old(out)@ + repeated(piece@, n as int),
{
    let mut i: usize = 0;
    proof {
        assert(out@ + repeated(piece@, 0) =~= out@);
    }
    while i < n
        invariant
            i <= n,
            out@ == old(out)@ + repeated(piece@, i as int),
        decreases n - i,
    {
        out.append(piece);
        proof {
            assert(old(out)@ + repeated(piece@, i + 1) =~= (old(out)@ + repeated(
                piece@,
                i as int,
            )) + piece@);
        }
        i = i + 1;
    }
}

/// A note entry as stored: `[HH:MM] ` followed by the note text.
pub open spec fn note_entry(hh: int, mm: int, text: Seq<char>) -> Seq<char> {
    seq!['['] + two_digits(hh) + seq![':'] + two_digits(mm) + seq![']', ' '] + text
}

/// Renders a note line from a time of day (in seconds) and the note text.
pub fn format_note(secs_of_day: u64, text: &str) -> (r: String)
    requires
        secs_of_day < 86400,
    ensures
        r@ == note_entry(
            secs_of_day as int / 3600,
            (secs_of_day as int % 3600) / 60,
            text@,
        ),
{
    let hours = secs_of_day / 3600;
    let minutes = (secs_of_day % 3600) / 60;
    let mut out = String::new();
    out.append("[");
    push_two_digits(&mut out, hours);
    out.append(":");
    push_two_digits(&mut out, minutes);
    out.append("] ");
    out.append(text);
    proof {
        reveal_strlit("[");
        reveal_strlit(":");
        reveal_strlit("] ");
        assert(out@ =~= note_entry(
            secs_of_day as int / 3600,
            (secs_of_day as int % 3600) / 60,
            text@,
        ));
    }
    out
}

} // verus!
