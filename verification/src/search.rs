//! Substring, prefix and fuzzy matching, and the ranking of completion candidates.

use vstd::prelude::*;

use vstd::utf8::encode_utf8;

use crate::external::{lowercase, to_lowercase};
use crate::text::chars_of;

verus! {

/// `needle` occurs in `haystack` starting at character index `i`.
pub open spec fn occurs_at(haystack: Seq<char>, needle: Seq<char>, i: int) -> bool {
    &&& 0 <= i
    &&& i + needle.len() <= haystack.len()
    &&& haystack.subrange(i, i + needle.len()) == needle
}

/// `needle` occurs somewhere in `haystack`.
pub open spec fn contains_seq(haystack: Seq<char>, needle: Seq<char>) -> bool {
    exists|i: int| occurs_at(haystack, needle, i)
}

/// `i` is the leftmost character index at which `needle` occurs in `haystack`.
pub open spec fn is_first_occurrence(haystack: Seq<char>, needle: Seq<char>, i: int) -> bool {
    &&& occurs_at(haystack, needle, i)
    &&& forall|j: int| 0 <= j < i ==> !occurs_at(haystack, needle, j)
}

/// The leftmost character index at which `needle` occurs in `haystack` (meaningful when it occurs).
pub open spec fn first_occurrence(haystack: Seq<char>, needle: Seq<char>) -> int {
    choose|i: int| is_first_occurrence(haystack, needle, i)
}

/// The byte offset, in UTF-8, of character index `i` of `s`.
pub open spec fn byte_offset(s: Seq<char>, i: int) -> usize {
    encode_utf8(s.subrange(0, i)).len() as usize
}

/// `needle` can be read in `haystack` in order, possibly with gaps.
pub open spec fn is_subsequence(needle: Seq<char>, haystack: Seq<char>) -> bool
    decreases haystack.len(),
{
    if needle.len() == 0 {
        true
    } else if haystack.len() == 0 {
        false
    } else if needle[0] == haystack[0] {
        is_subsequence(needle.drop_first(), haystack.drop_first())
    } else {
        is_subsequence(needle, haystack.drop_first())
    }
}

/// Byte offset of the first character of the leftmost in-order match of `query` in `candidate`,
/// or `None` when `query` is empty or is no subsequence of `candidate`.
pub open spec fn spec_fuzzy_match_position(query: Seq<char>, candidate: Seq<char>) -> Option<
    usize,
> {
    if query.len() > 0 && is_subsequence(query, candidate) {
        Some(byte_offset(candidate, first_occurrence(candidate, seq![query[0]])))
    } else {
        None
    }
}

/// Match class and position of `candidate` for `query`: a prefix ranks `(0, 0)`, a substring
/// `(1, byte offset of its leftmost occurrence)`, an in-order match `(2, fuzzy position)`.
pub open spec fn spec_completion_rank(query: Seq<char>, candidate: Seq<char>) -> Option<(u8, usize)> {
    if occurs_at(candidate, query, 0) {
        Some((0u8, 0usize))
    } else if contains_seq(candidate, query) {
        Some((1u8, byte_offset(candidate, first_occurrence(candidate, query))))
    } else {
        match spec_fuzzy_match_position(query, candidate) {
            Some(p) => Some((2u8, p)),
            None => None,
        }
    }
}

proof fn lemma_first_occurrence_unique(haystack: Seq<char>, needle: Seq<char>, i: int)
    requires
        is_first_occurrence(haystack, needle, i),
    ensures
        first_occurrence(haystack, needle) == i,
{
    let j = first_occurrence(haystack, needle);
    assert(is_first_occurrence(haystack, needle, j));
    if j < i {
        assert(!occurs_at(haystack, needle, j));
    } else if i < j {
        assert(!occurs_at(haystack, needle, i));
    }
}

proof fn lemma_occurs_single(haystack: Seq<char>, c: char, i: int)
    requires
        0 <= i < haystack.len(),
    ensures
        occurs_at(haystack, seq![c], i) <==> haystack[i] == c,
{
    if haystack[i] == c {
        assert(haystack.subrange(i, i + 1) =~= seq![c]);
    } else {
        assert(haystack.subrange(i, i + 1)[0] == haystack[i]);
    }
}

proof fn lemma_subsequence_step(needle: Seq<char>, haystack: Seq<char>, j: int)
    requires
        needle.len() > 0,
        0 <= j < haystack.len(),
        haystack[j] == needle[0],
        forall|k: int| 0 <= k < j ==> haystack[k] != needle[0],
    ensures
        is_subsequence(needle, haystack) == is_subsequence(
            needle.drop_first(),
            haystack.subrange(j + 1, haystack.len() as int),
        ),
    decreases j,
{
    if j == 0 {
        assert(haystack.drop_first() =~= haystack.subrange(1, haystack.len() as int));
    } else {
        let rest = haystack.drop_first();
        assert forall|k: int| 0 <= k < j - 1 implies rest[k] != needle[0] by {
            assert(rest[k] == haystack[k + 1]);
        }
        lemma_subsequence_step(needle, rest, j - 1);
        assert(rest.subrange(j, rest.len() as int) =~= haystack.subrange(
            j + 1,
            haystack.len() as int,
        ));
    }
}

proof fn lemma_subsequence_absent(needle: Seq<char>, haystack: Seq<char>)
    requires
        needle.len() > 0,
        forall|k: int| 0 <= k < haystack.len() ==> haystack[k] != needle[0],
    ensures
        !is_subsequence(needle, haystack),
    decreases haystack.len(),
{
    if haystack.len() > 0 {
        let rest = haystack.drop_first();
        assert forall|k: int| 0 <= k < rest.len() implies rest[k] != needle[0] by {
            assert(rest[k] == haystack[k + 1]);
        }
        lemma_subsequence_absent(needle, rest);
    }
}

/// Whether `needle` occurs in `haystack` at character index `i`.
fn matches_at(haystack: &Vec<char>, needle: &Vec<char>, i: usize) -> (r: bool)
    ensures
        r == occurs_at(haystack@, needle@, i as int),
{
    if i > haystack.len() || needle.len() > haystack.len() - i {
        return false;
    }
    let hl = haystack.len();
    let mut k: usize = 0;
    while k < needle.len()
        invariant
            hl == haystack@.len(),
            i + needle@.len() <= haystack@.len(),
            k <= needle@.len(),
            forall|t: int| 0 <= t < k ==> haystack@[i + t] == needle@[t],
        decreases needle@.len() - k,
    {
        if haystack[i + k] != needle[k] {
            assert(haystack@.subrange(i as int, i + needle@.len())[k as int] != needle@[k as int]);
            return false;
        }
        k = k + 1;
    }
    assert(haystack@.subrange(i as int, i + needle@.len()) =~= needle@);
    true
}

/// Leftmost character index at which `needle` occurs in `haystack`.
fn find_seq(haystack: &Vec<char>, needle: &Vec<char>) -> (r: Option<usize>)
    ensures
        match r {
            Some(i) => is_first_occurrence(haystack@, needle@, i as int),
            None => !contains_seq(haystack@, needle@),
        },
{
    if needle.len() > haystack.len() {
        return None;
    }
    let last = haystack.len() - needle.len();
    let mut i: usize = 0;
    loop
        invariant
            last == haystack@.len() - needle@.len(),
            i <= last,
            forall|j: int| 0 <= j < i ==> !occurs_at(haystack@, needle@, j),
        decreases last - i,
    {
        if matches_at(haystack, needle, i) {
            return Some(i);
        }
        if i >= last {
            return None;
        }
        i = i + 1;
    }
}

/// Leftmost greedy in-order match of `needle` in `haystack`: the character index at which the
/// first needle character matched, or `None` when the needle is empty or cannot be matched.
fn greedy_first_match(needle: &Vec<char>, haystack: &Vec<char>) -> (r: Option<usize>)
    ensures
        r is Some <==> (needle@.len() > 0 && is_subsequence(needle@, haystack@)),
        r matches Some(i) ==> i < haystack@.len() && i == first_occurrence(
            haystack@,
            seq![needle@[0]],
        ),
{
    let n = haystack.len();
    let mut first: Option<usize> = None;
    let mut from: usize = 0;
    let mut k: usize = 0;
    assert(needle@.subrange(0, needle@.len() as int) =~= needle@);
    assert(haystack@.subrange(0, n as int) =~= haystack@);
    while k < needle.len()
        invariant
            n == haystack@.len(),
            k <= needle@.len(),
            from <= n,
            is_subsequence(needle@, haystack@) == is_subsequence(
                needle@.subrange(k as int, needle@.len() as int),
                haystack@.subrange(from as int, n as int),
            ),
            k == 0 ==> first is None && from == 0,
            k > 0 ==> (first matches Some(f) && f < n && f == first_occurrence(
                haystack@,
                seq![needle@[0]],
            )),
        decreases needle@.len() - k,
    {
        let ghost rest_n = needle@.subrange(k as int, needle@.len() as int);
        let ghost rest_h = haystack@.subrange(from as int, n as int);
        let c = needle[k];
        let mut p: usize = from;
        while p < n && haystack[p] != c
            invariant
                n == haystack@.len(),
                from <= p <= n,
                forall|t: int| from <= t < p ==> haystack@[t] != c,
            decreases n - p,
        {
            p = p + 1;
        }
        if p == n {
            proof {
                assert forall|t: int| 0 <= t < rest_h.len() implies rest_h[t] != rest_n[0] by {
                    assert(rest_h[t] == haystack@[from + t]);
                }
                lemma_subsequence_absent(rest_n, rest_h);
            }
            return None;
        }
        proof {
            assert forall|t: int| 0 <= t < p - from implies rest_h[t] != rest_n[0] by {
                assert(rest_h[t] == haystack@[from + t]);
            }
            lemma_subsequence_step(rest_n, rest_h, p - from);
            assert(rest_n.drop_first() =~= needle@.subrange(k + 1, needle@.len() as int));
            assert(rest_h.subrange(p - from + 1, rest_h.len() as int) =~= haystack@.subrange(
                p + 1,
                n as int,
            ));
            if k == 0 {
                assert forall|t: int| 0 <= t < p implies !occurs_at(
                    haystack@,
                    seq![needle@[0]],
                    t,
                ) by {
                    lemma_occurs_single(haystack@, needle@[0], t);
                }
                lemma_occurs_single(haystack@, needle@[0], p as int);
                lemma_first_occurrence_unique(haystack@, seq![needle@[0]], p as int);
            }
        }
        if first.is_none() {
            first = Some(p);
        }
        from = p + 1;
        k = k + 1;
    }
    proof {
        if needle@.len() > 0 {
            assert(needle@.subrange(k as int, needle@.len() as int).len() == 0);
        } else {
            assert(needle@.subrange(0, 0).len() == 0);
            assert(needle@ =~= needle@.subrange(0, 0));
        }
    }
    first
}

/// Byte offset of the first character of the leftmost in-order match of `query_lower` in
/// `candidate_lower`.
pub fn fuzzy_match_position(query_lower: &str, candidate_lower: &str) -> (r: Option<usize>)
    ensures
        r == spec_fuzzy_match_position(query_lower@, candidate_lower@),
{
    let q = chars_of(query_lower);
    let c = chars_of(candidate_lower);
    match greedy_first_match(&q, &c) {
        Some(i) => {
            Some(candidate_lower.substring_char(0, i).len())
        },
        None => None,
    }
}

} // verus!

verus! {

/// Match class and byte position of `candidate_lower` for `query_lower` (both already lowercase).
pub fn completion_rank(query_lower: &str, candidate_lower: &str) -> (r: Option<(u8, usize)>)
    ensures
        r == spec_completion_rank(query_lower@, candidate_lower@),
{
    let q = chars_of(query_lower);
    let c = chars_of(candidate_lower);
    if matches_at(&c, &q, 0) {
        return Some((0, 0));
    }
    match find_seq(&c, &q) {
        Some(i) => {
            proof {
                lemma_first_occurrence_unique(c@, q@, i as int);
            }
            Some((1, candidate_lower.substring_char(0, i).len()))
        },
        None => match fuzzy_match_position(query_lower, candidate_lower) {
            Some(p) => Some((2, p)),
            None => None,
        },
    }
}

/// `needle` occurs in `haystack`, or can be read in it in order with gaps.
pub open spec fn spec_contains_or_fuzzy_matches(haystack: Seq<char>, needle: Seq<char>) -> bool {
    contains_seq(haystack, needle) || is_subsequence(needle, haystack)
}

/// Whether `needle` is a substring of `haystack` or an in-order (fuzzy) match in it.
pub fn contains_or_fuzzy_matches(haystack: &str, needle: &str) -> (r: bool)
    ensures
        r == spec_contains_or_fuzzy_matches(haystack@, needle@),
{
    let h = chars_of(haystack);
    let n = chars_of(needle);
    if find_seq(&h, &n).is_some() {
        return true;
    }
    if n.len() == 0 {
        return true;
    }
    greedy_first_match(&n, &h).is_some()
}

/// The command named `name`, described by `about`, matches the list query `query`, ignoring case.
pub open spec fn spec_command_matches_query(
    query: Seq<char>,
    name: Seq<char>,
    about: Option<Seq<char>>,
) -> bool {
    ||| spec_contains_or_fuzzy_matches(lowercase(name), lowercase(query))
    ||| (about matches Some(a) && spec_contains_or_fuzzy_matches(lowercase(a), lowercase(query)))
}

/// Whether a command with this name and description matches `query`, ignoring case.
pub fn command_matches_query(query: &str, name: &str, about: Option<String>) -> (r: bool)
    ensures
        r == spec_command_matches_query(
            query@,
            name@,
            match about {
                Some(a) => Some(a@),
                None => None,
            },
        ),
{
    let query = to_lowercase(query);
    let name = to_lowercase(name);
    if contains_or_fuzzy_matches(name.as_str(), query.as_str()) {
        return true;
    }
    match about {
        Some(about) => {
            let about = to_lowercase(about.as_str());
            contains_or_fuzzy_matches(about.as_str(), query.as_str())
        },
        None => false,
    }
}

} // verus!

verus! {

proof fn lemma_subsequence_self(needle: Seq<char>)
    ensures
        is_subsequence(needle, needle),
    decreases needle.len(),
{
    if needle.len() > 0 {
        lemma_subsequence_self(needle.drop_first());
    }
}

proof fn lemma_subsequence_append(needle: Seq<char>, haystack: Seq<char>, tail: Seq<char>)
    requires
        is_subsequence(needle, haystack),
    ensures
        is_subsequence(needle, haystack + tail),
    decreases haystack.len(),
{
    if needle.len() > 0 && haystack.len() > 0 {
        assert((haystack + tail).drop_first() =~= haystack.drop_first() + tail);
        assert((haystack + tail)[0] == haystack[0]);
        if needle[0] == haystack[0] {
            lemma_subsequence_append(needle.drop_first(), haystack.drop_first(), tail);
        } else {
            lemma_subsequence_append(needle, haystack.drop_first(), tail);
        }
    }
}

/// A match in the haystack without its first character is a match in the whole haystack.
proof fn lemma_subsequence_extend_front(needle: Seq<char>, haystack: Seq<char>)
    requires
        haystack.len() > 0,
        is_subsequence(needle, haystack.drop_first()),
    ensures
        is_subsequence(needle, haystack),
    decreases haystack.len(), 0int,
{
    if needle.len() > 0 && needle[0] == haystack[0] {
        lemma_subsequence_drop_needle(needle, haystack.drop_first());
    }
}

/// Dropping the first needle character keeps a match.
proof fn lemma_subsequence_drop_needle(needle: Seq<char>, haystack: Seq<char>)
    requires
        needle.len() > 0,
        is_subsequence(needle, haystack),
    ensures
        is_subsequence(needle.drop_first(), haystack),
    decreases haystack.len(), 1int,
{
    if haystack.len() > 0 {
        if needle[0] == haystack[0] {
            lemma_subsequence_extend_front(needle.drop_first(), haystack);
        } else {
            lemma_subsequence_drop_needle(needle, haystack.drop_first());
            lemma_subsequence_extend_front(needle.drop_first(), haystack);
        }
    }
}

proof fn lemma_subsequence_prepend(needle: Seq<char>, prefix: Seq<char>, haystack: Seq<char>)
    requires
        is_subsequence(needle, haystack),
    ensures
        is_subsequence(needle, prefix + haystack),
    decreases prefix.len(),
{
    if prefix.len() > 0 {
        lemma_subsequence_prepend(needle, prefix.drop_first(), haystack);
        assert((prefix + haystack).drop_first() =~= prefix.drop_first() + haystack);
        lemma_subsequence_extend_front(needle, prefix + haystack);
    } else {
        assert(prefix + haystack =~= haystack);
    }
}

/// A substring is also an in-order match.
pub proof fn lemma_substring_is_subsequence(haystack: Seq<char>, needle: Seq<char>)
    requires
        contains_seq(haystack, needle),
    ensures
        is_subsequence(needle, haystack),
{
    let i = choose|i: int| occurs_at(haystack, needle, i);
    let end = i + needle.len();
    let before = haystack.subrange(0, i);
    let after = haystack.subrange(end, haystack.len() as int);
    assert(haystack =~= before + (needle + after));
    lemma_subsequence_self(needle);
    lemma_subsequence_append(needle, needle, after);
    lemma_subsequence_prepend(needle, before, needle + after);
}

} // verus!
