//! Find-and-replace over text: every non-overlapping occurrence of a
//! pattern, scanned left to right, is replaced, and the occurrences are
//! counted.

use vstd::prelude::*;
use vstd::string::StrSliceExecFns;
use vstd::string::StringExecFns;

verus! {

/// The text with every occurrence of `pat` replaced by `rep`, scanning
/// left to right over non-overlapping occurrences. The empty pattern
/// matches at every character boundary, so `rep` is interleaved before,
/// between and after the characters.
pub open spec fn replace_all(s: Seq<char>, pat: Seq<char>, rep: Seq<char>) -> Seq<char>
    decreases s.len(),
{
    if pat.len() == 0 {
        if s.len() == 0 {
            rep
        } else {
            rep + seq![s[0]] + replace_all(s.skip(1), pat, rep)
        }
    } else if s.len() == 0 {
        s
    } else if pat.len() <= s.len() && s.subrange(0, pat.len() as int) == pat {
        rep + replace_all(s.skip(pat.len() as int), pat, rep)
    } else {
        seq![s[0]] + replace_all(s.skip(1), pat, rep)
    }
}

/// Number of non-overlapping occurrences of `pat` in `s`, scanned left to
/// right; the empty pattern matches at every character boundary, so it
/// occurs length-plus-one times.
pub open spec fn occurrence_count(s: Seq<char>, pat: Seq<char>) -> int
    decreases s.len(),
{
    if pat.len() == 0 {
        s.len() as int + 1
    } else if s.len() == 0 {
        0
    } else if pat.len() <= s.len() && s.subrange(0, pat.len() as int) == pat {
        1 + occurrence_count(s.skip(pat.len() as int), pat)
    } else {
        occurrence_count(s.skip(1), pat)
    }
}

fn matches_at(s: &str, pat: &str, i: usize) -> (r: bool)
    requires
        i + pat@.len() <= s@.len(),
    ensures
        r == (s@.subrange(i as int, i + pat@.len()) == pat@),
{
    let n = s.unicode_len();
    let m = pat.unicode_len();
    let mut j: usize = 0;
    while j < m
        invariant
            j <= m,
            m == pat@.len(),
            n == s@.len(),
            i + m <= n,
            forall|k: int| 0 <= k < j ==> s@[i + k] == pat@[k],
        decreases m - j,
    {
        if s.get_char(i + j) != pat.get_char(j) {
            proof {
                assert(s@.subrange(i as int, i + m as int)[j as int] == s@[i + j]);
            }
            return false;
        }
        j = j + 1;
    }
    proof {
        assert(s@.subrange(i as int, i + m as int) =~= pat@);
    }
    true
}

/// Replaces every occurrence of `find` in `content` by `rep` and reports
/// how many occurrences there were. An empty `find` matches at every
/// character boundary, interleaving `rep` through the text; only there
/// can the count reach length plus one, hence the one precondition.
pub fn find_and_replace(content: &str, find: &str, rep: &str) -> (r: (String, usize))
    requires
        find@.len() == 0 ==> content@.len() < usize::MAX,
    ensures
        r.0@ == replace_all(content@, find@, rep@),
        r.1 == occurrence_count(content@, find@),
{
    let n = content.unicode_len();
    let m = find.unicode_len();
    if m == 0 {
        let mut out = String::new();
        let mut i: usize = 0;
        proof {
            assert(content@.skip(0) =~= content@);
            assert(Seq::<char>::empty() + replace_all(content@, find@, rep@) =~= replace_all(
                content@,
                find@,
                rep@,
            ));
        }
        while i < n
            invariant
                i <= n,
                n == content@.len(),
                find@.len() == 0,
                out@ + replace_all(content@.skip(i as int), find@, rep@) == replace_all(
                    content@,
                    find@,
                    rep@,
                ),
            decreases n - i,
        {
            let ghost rest = content@.skip(i as int);
            out.append(rep);
            let c = content.substring_char(i, i + 1);
            out.append(c);
            proof {
                assert(seq![rest[0]] =~= content@.subrange(i as int, i + 1));
                assert(rest.skip(1) =~= content@.skip(i + 1));
                assert(out@ + replace_all(content@.skip(i + 1), find@, rep@) =~= (out@
                    + replace_all(content@.skip(i + 1), find@, rep@)));
            }
            i = i + 1;
        }
        out.append(rep);
        proof {
            assert(content@.skip(n as int) =~= Seq::<char>::empty());
        }
        return (out, n + 1);
    }
    let mut out = String::new();
    let mut count: usize = 0;
    let mut i: usize = 0;
    proof {
        assert(content@.skip(0) =~= content@);
        assert(Seq::<char>::empty() + replace_all(content@, find@, rep@) =~= replace_all(
            content@,
            find@,
            rep@,
        ));
    }
    while i < n
        invariant
            i <= n,
            n == content@.len(),
            m == find@.len(),
            m >= 1,
            count <= i,
            out@ + replace_all(content@.skip(i as int), find@, rep@) == replace_all(
                content@,
                find@,
                rep@,
            ),
            count + occurrence_count(content@.skip(i as int), find@) == occurrence_count(
                content@,
                find@,
            ),
        decreases n - i,
    {
        let ghost rest = content@.skip(i as int);
        let matched = if m <= n - i {
            matches_at(content, find, i)
        } else {
            false
        };
        if matched {
            out.append(rep);
            count = count + 1;
            proof {
                assert(rest.subrange(0, m as int) =~= content@.subrange(i as int, i + m as int));
                assert(rest.skip(m as int) =~= content@.skip(i + m));
            }
            i = i + m;
        } else {
            let c = content.substring_char(i, i + 1);
            out.append(c);
            proof {
                if m <= rest.len() {
                    assert(rest.subrange(0, m as int) =~= content@.subrange(
                        i as int,
                        i + m as int,
                    ));
                }
                assert(seq![rest[0]] =~= content@.subrange(i as int, i + 1));
                assert(rest.skip(1) =~= content@.skip(i + 1));
            }
            i = i + 1;
        }
    }
    proof {
        assert(content@.skip(n as int) =~= Seq::<char>::empty());
        assert(out@ + Seq::<char>::empty() =~= out@);
    }
    (out, count)
}

} // verus!
