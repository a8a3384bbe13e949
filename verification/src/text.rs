//! Verified text-searching primitives over `&str`, modelled on `Seq<char>`.

use vstd::prelude::*;

verus! {

/// `pat` occurs in `s` at character position `i`.
pub open spec fn occurs_at(s: Seq<char>, pat: Seq<char>, i: int) -> bool {
    0 <= i && i + pat.len() <= s.len() && s.subrange(i, i + pat.len()) == pat
}

/// The first position at or after `from` where `pat` occurs in `s`.
pub open spec fn spec_find(s: Seq<char>, pat: Seq<char>, from: int) -> Option<int>
    decreases s.len() - from + 1,
{
    if from < 0 || from + pat.len() > s.len() {
        None
    } else if s.subrange(from, from + pat.len()) == pat {
        Some(from)
    } else {
        spec_find(s, pat, from + 1)
    }
}

/// An occurrence at `at`, with none between `from` and `at`, is what the
/// search from `from` finds.
pub proof fn lemma_find_first(s: Seq<char>, pat: Seq<char>, from: int, at: int)
    requires
        0 <= from <= at,
        occurs_at(s, pat, at),
        forall|j: int| from <= j < at ==> !occurs_at(s, pat, j),
    ensures
        spec_find(s, pat, from) == Some(at),
    decreases at - from,
{
    if from < at {
        assert(!occurs_at(s, pat, from));
        lemma_find_first(s, pat, from + 1, at);
    }
}

/// Compares `pat` against `s` at character position `at`.
pub fn matches_at(s: &str, pat: &str, at: usize) -> (r: bool)
    requires
        at + pat@.len() <= s@.len(),
    ensures
        r == occurs_at(s@, pat@, at as int),
{
    let s_len = s.unicode_len();
    let pat_len = pat.unicode_len();
    let mut j: usize = 0;
    while j < pat_len
        invariant
            at + pat_len <= s_len,
            s_len == s@.len(),
            pat_len == pat@.len(),
            j <= pat_len,
            forall|k: int| 0 <= k < j ==> s@[at + k] == pat@[k],
        decreases pat_len - j,
    {
        if s.get_char(at + j) != pat.get_char(j) {
            proof {
                assert(s@.subrange(at as int, at + pat@.len())[j as int] == s@[at + j]);
            }
            return false;
        }
        j += 1;
    }
    proof {
        assert(s@.subrange(at as int, at + pat@.len()) =~= pat@);
    }
    true
}

/// The first occurrence of `pat` in `s` at or after character position `from`.
pub fn find_str(s: &str, pat: &str, from: usize) -> (r: Option<usize>)
    requires
        from <= s@.len(),
    ensures
        r is Some <==> spec_find(s@, pat@, from as int) is Some,
        r matches Some(i) ==> spec_find(s@, pat@, from as int) == Some(i as int),
        r matches Some(i) ==> from <= i && occurs_at(s@, pat@, i as int),
{
    let s_len = s.unicode_len();
    let pat_len = pat.unicode_len();
    if pat_len == 0 {
        proof {
            assert(s@.subrange(from as int, from as int) =~= pat@);
        }
        return Some(from);
    }
    let mut i: usize = from;
    while i <= s_len && pat_len <= s_len - i
        invariant
            s_len == s@.len(),
            pat_len == pat@.len(),
            pat_len >= 1,
            from <= i <= s_len,
            spec_find(s@, pat@, from as int) == spec_find(s@, pat@, i as int),
        decreases s_len - i,
    {
        if matches_at(s, pat, i) {
            return Some(i);
        }
        i += 1;
    }
    proof {
        assert(spec_find(s@, pat@, i as int) is None);
    }
    None
}

/// The position of the last occurrence of character `c` in `s`.
pub open spec fn spec_rfind(s: Seq<char>, c: char) -> Option<int>
    decreases s.len(),
{
    if s.len() == 0 {
        None
    } else if s[s.len() - 1] == c {
        Some(s.len() - 1)
    } else {
        spec_rfind(s.drop_last(), c)
    }
}

/// A found position is an occurrence of `c`, and the last one.
pub proof fn lemma_rfind_found(s: Seq<char>, c: char, i: int)
    requires
        spec_rfind(s, c) == Some(i),
    ensures
        0 <= i < s.len(),
        s[i] == c,
        forall|j: int| i < j < s.len() ==> s[j] != c,
    decreases s.len(),
{
    if s.len() > 0 && s[s.len() - 1] != c {
        lemma_rfind_found(s.drop_last(), c, i);
        assert(forall|j: int| i < j < s.len() - 1 ==> s.drop_last()[j] == s[j]);
    }
}

/// The last occurrence of character `c` in `s`.
pub fn rfind_char(s: &str, c: char) -> (r: Option<usize>)
    ensures
        r is Some <==> spec_rfind(s@, c) is Some,
        r matches Some(i) ==> spec_rfind(s@, c) == Some(i as int),
{
    let s_len = s.unicode_len();
    let mut i: usize = s_len;
    proof {
        assert(s@.take(s_len as int) =~= s@);
    }
    while i > 0
        invariant
            i <= s_len,
            s_len == s@.len(),
            spec_rfind(s@, c) == spec_rfind(s@.take(i as int), c),
        decreases i,
    {
        if s.get_char(i - 1) == c {
            proof {
                assert(s@.take(i as int)[i - 1] == s@[i - 1]);
            }
            return Some(i - 1);
        }
        proof {
            assert(s@.take(i as int).drop_last() =~= s@.take(i - 1));
            assert(s@.take(i as int)[i - 1] == s@[i - 1]);
        }
        i -= 1;
    }
    proof {
        assert(s@.take(0) =~= Seq::<char>::empty());
    }
    None
}

/// Whether `s` begins with `pat`.
pub fn starts_with(s: &str, pat: &str) -> (r: bool)
    ensures
        r == occurs_at(s@, pat@, 0),
{
    let s_len = s.unicode_len();
    let pat_len = pat.unicode_len();
    if pat_len > s_len {
        false
    } else {
        matches_at(s, pat, 0)
    }
}

/// Whether `s` ends with `pat`.
pub fn ends_with(s: &str, pat: &str) -> (r: bool)
    ensures
        r == (pat@.len() <= s@.len() && occurs_at(s@, pat@, s@.len() - pat@.len())),
{
    let s_len = s.unicode_len();
    let pat_len = pat.unicode_len();
    if pat_len > s_len {
        false
    } else {
        matches_at(s, pat, s_len - pat_len)
    }
}

} // verus!
