//! Completion candidates: the registered entries that match the typed query, best first.

use vstd::prelude::*;
use vstd::relations::{sorted_by, total_ordering};
use vstd::seq_lib::{lemma_sorted_unique, to_multiset_build, to_multiset_insert};
use vstd::utf8::{encode_utf8, encode_utf8_decode_utf8};

use crate::external::{all_ascii, ascii_lower, lowercase, to_lowercase};
use crate::order::{bytes_le, lemma_bytes_le_antisymmetric, lemma_bytes_le_reflexive,
    lemma_bytes_le_total, lemma_bytes_le_transitive, str_le};
use crate::search::{completion_rank, spec_completion_rank};
use crate::text::{string_views, trim, trim_seq};

verus! {

/// Match class and position of an entry, given with its lowercase form, for the lowercase
/// query; entries that do not match rank after every match.
pub open spec fn pair_rank(query_lower: Seq<char>, entry: (Seq<char>, Seq<char>)) -> (u8, usize) {
    match spec_completion_rank(query_lower, entry.1) {
        Some(r) => r,
        None => (3u8, 0usize),
    }
}

/// Match class and position of `entry` for the lowercase query.
pub open spec fn rank_of(query_lower: Seq<char>, entry: Seq<char>) -> (u8, usize) {
    pair_rank(query_lower, (entry, lowercase(entry)))
}

/// `a` is listed before or with `b`: by match class, then match position, then byte length of
/// the entry, then the entry's bytes (the lowercase forms only part equal entries).
pub open spec fn pair_le(
    query_lower: Seq<char>,
    a: (Seq<char>, Seq<char>),
    b: (Seq<char>, Seq<char>),
) -> bool {
    let ra = pair_rank(query_lower, a);
    let rb = pair_rank(query_lower, b);
    let ea = encode_utf8(a.0);
    let eb = encode_utf8(b.0);
    let la = ea.len() as usize;
    let lb = eb.len() as usize;
    ||| ra.0 < rb.0
    ||| ra.0 == rb.0 && ra.1 < rb.1
    ||| ra.0 == rb.0 && ra.1 == rb.1 && la < lb
    ||| ra.0 == rb.0 && ra.1 == rb.1 && la == lb && ea != eb && bytes_le(ea, eb)
    ||| ra.0 == rb.0 && ra.1 == rb.1 && la == lb && ea == eb && bytes_le(
        encode_utf8(a.1),
        encode_utf8(b.1),
    )
}

/// The order in which candidates are offered for the lowercase query.
pub open spec fn pair_order(query_lower: Seq<char>) -> spec_fn(
    (Seq<char>, Seq<char>),
    (Seq<char>, Seq<char>),
) -> bool {
    |a: (Seq<char>, Seq<char>), b: (Seq<char>, Seq<char>)| pair_le(query_lower, a, b)
}

/// Each entry paired with the lowercase form given for it.
pub open spec fn lowered_pairs(entries: Seq<Seq<char>>, lowered: Seq<Seq<char>>) -> Seq<
    (Seq<char>, Seq<char>),
> {
    Seq::new(entries.len(), |i: int| (entries[i], lowered[i]))
}

/// Each entry paired with its lowercase form.
pub open spec fn lowered_entries(entries: Seq<Seq<char>>) -> Seq<(Seq<char>, Seq<char>)> {
    entries.map_values(|e: Seq<char>| (e, lowercase(e)))
}

/// The entries whose lowercase form matches the lowercase query at all, in the order given.
pub open spec fn ranked_pairs(query_lower: Seq<char>, pairs: Seq<(Seq<char>, Seq<char>)>) -> Seq<
    (Seq<char>, Seq<char>),
>
    decreases pairs.len(),
{
    if pairs.len() == 0 {
        seq![]
    } else {
        let rest = ranked_pairs(query_lower, pairs.drop_last());
        if spec_completion_rank(query_lower, pairs.last().1) is Some {
            rest.push(pairs.last())
        } else {
            rest
        }
    }
}

/// The entries of the pairs.
pub open spec fn firsts(pairs: Seq<(Seq<char>, Seq<char>)>) -> Seq<Seq<char>> {
    pairs.map_values(|p: (Seq<char>, Seq<char>)| p.0)
}

/// The first `suggestion_count` matching entries in candidate order, for a lowercase query and
/// entries given with their lowercase forms.
pub open spec fn spec_rank_candidates(
    query_lower: Seq<char>,
    pairs: Seq<(Seq<char>, Seq<char>)>,
    suggestion_count: int,
) -> Seq<Seq<char>> {
    let sorted = firsts(ranked_pairs(query_lower, pairs).sort_by(pair_order(query_lower)));
    if suggestion_count < sorted.len() {
        sorted.take(suggestion_count)
    } else {
        sorted
    }
}

/// The first `suggestion_count` matching entries for the trimmed, lowercased query, in
/// candidate order; nothing for a blank query or a zero count.
pub open spec fn spec_completion_candidates(
    query: Seq<char>,
    entries: Seq<Seq<char>>,
    suggestion_count: int,
) -> Seq<Seq<char>> {
    let trimmed = trim_seq(query);
    if trimmed.len() == 0 || suggestion_count == 0 {
        seq![]
    } else {
        spec_rank_candidates(lowercase(trimmed), lowered_entries(entries), suggestion_count)
    }
}

/// The ASCII lowercase form of a string: `A` to `Z` lowered, every other character kept.
pub open spec fn ascii_lowered(s: Seq<char>) -> Seq<char> {
    s.map_values(|c: char| ascii_lower(c))
}

/// Every entry is an ASCII string.
pub open spec fn all_ascii_entries(entries: Seq<Seq<char>>) -> bool {
    forall|k: int| 0 <= k < entries.len() ==> all_ascii(#[trigger] entries[k])
}

/// The candidates for an ASCII query among ASCII entries: `spec_completion_candidates` with
/// the lowercase forms spelled out.
pub open spec fn spec_ascii_completion_candidates(
    query: Seq<char>,
    entries: Seq<Seq<char>>,
    suggestion_count: int,
) -> Seq<Seq<char>> {
    let trimmed = trim_seq(query);
    if trimmed.len() == 0 || suggestion_count == 0 {
        seq![]
    } else {
        spec_rank_candidates(
            ascii_lowered(trimmed),
            entries.map_values(|e: Seq<char>| (e, ascii_lowered(e))),
            suggestion_count,
        )
    }
}

/// Candidate order is a total order on entries paired with lowercase forms.
pub proof fn lemma_pair_order_total(query_lower: Seq<char>)
    ensures
        total_ordering(pair_order(query_lower)),
{
    let r = pair_order(query_lower);
    assert forall|x: (Seq<char>, Seq<char>)| #[trigger] r(x, x) by {
        lemma_bytes_le_reflexive(encode_utf8(x.1));
    }
    assert forall|x: (Seq<char>, Seq<char>), y: (Seq<char>, Seq<char>)| #[trigger] r(x, y)
        && #[trigger] r(y, x) implies x == y by {
        let ex = encode_utf8(x.0);
        let ey = encode_utf8(y.0);
        if ex != ey {
            lemma_bytes_le_antisymmetric(ex, ey);
        }
        lemma_bytes_le_antisymmetric(encode_utf8(x.1), encode_utf8(y.1));
        encode_utf8_decode_utf8(x.0);
        encode_utf8_decode_utf8(y.0);
        encode_utf8_decode_utf8(x.1);
        encode_utf8_decode_utf8(y.1);
    }
    assert forall|x: (Seq<char>, Seq<char>), y: (Seq<char>, Seq<char>), z: (
        Seq<char>,
        Seq<char>,
    )| #[trigger] r(x, y) && #[trigger] r(y, z) implies r(x, z) by {
        let ex = encode_utf8(x.0);
        let ey = encode_utf8(y.0);
        let ez = encode_utf8(z.0);
        if bytes_le(ex, ey) && bytes_le(ey, ez) {
            lemma_bytes_le_transitive(ex, ey, ez);
            if ex == ez {
                lemma_bytes_le_antisymmetric(ex, ey);
            }
        }
        if bytes_le(encode_utf8(x.1), encode_utf8(y.1)) && bytes_le(
            encode_utf8(y.1),
            encode_utf8(z.1),
        ) {
            lemma_bytes_le_transitive(encode_utf8(x.1), encode_utf8(y.1), encode_utf8(z.1));
        }
    }
    assert forall|x: (Seq<char>, Seq<char>), y: (Seq<char>, Seq<char>)| #[trigger] r(x, y)
        || #[trigger] r(y, x) by {
        lemma_bytes_le_total(encode_utf8(x.0), encode_utf8(y.0));
        lemma_bytes_le_total(encode_utf8(x.1), encode_utf8(y.1));
    }
}

/// A matching entry with its lowercase form and its sort key.
struct RankedEntry {
    bucket: u8,
    position: usize,
    len: usize,
    entry: String,
    lower: String,
}

impl RankedEntry {
    spec fn keyed_for(self, query_lower: Seq<char>) -> bool {
        &&& spec_completion_rank(query_lower, self.lower@) == Some((self.bucket, self.position))
        &&& self.len == encode_utf8(self.entry@).len() as usize
    }
}

spec fn ranked_views(v: Seq<RankedEntry>) -> Seq<(Seq<char>, Seq<char>)> {
    v.map_values(|e: RankedEntry| (e.entry@, e.lower@))
}

fn ranked_le(a: &RankedEntry, b: &RankedEntry, Ghost(query_lower): Ghost<Seq<char>>) -> (r: bool)
    requires
        a.keyed_for(query_lower),
        b.keyed_for(query_lower),
    ensures
        r == pair_le(query_lower, (a.entry@, a.lower@), (b.entry@, b.lower@)),
{
    if a.bucket != b.bucket {
        return a.bucket < b.bucket;
    }
    if a.position != b.position {
        return a.position < b.position;
    }
    if a.len != b.len {
        return a.len < b.len;
    }
    if a.entry == b.entry {
        str_le(a.lower.as_str(), b.lower.as_str())
    } else {
        proof {
            if encode_utf8(a.entry@) == encode_utf8(b.entry@) {
                encode_utf8_decode_utf8(a.entry@);
                encode_utf8_decode_utf8(b.entry@);
            }
        }
        str_le(a.entry.as_str(), b.entry.as_str())
    }
}

fn insert_ranked(v: &mut Vec<RankedEntry>, x: RankedEntry, Ghost(query_lower): Ghost<Seq<char>>)
    requires
        forall|i: int| 0 <= i < old(v)@.len() ==> (#[trigger] old(v)@[i]).keyed_for(query_lower),
        x.keyed_for(query_lower),
        sorted_by(ranked_views(old(v)@), pair_order(query_lower)),
    ensures
        forall|i: int| 0 <= i < final(v)@.len() ==> (#[trigger] final(v)@[i]).keyed_for(
            query_lower,
        ),
        sorted_by(ranked_views(final(v)@), pair_order(query_lower)),
        ranked_views(final(v)@).to_multiset() == ranked_views(old(v)@).to_multiset().insert(
            (x.entry@, x.lower@),
        ),
{
    proof {
        lemma_pair_order_total(query_lower);
    }
    let ghost ord = pair_order(query_lower);
    let ghost old_views = ranked_views(v@);
    let ghost xv = (x.entry@, x.lower@);
    let mut p: usize = 0;
    while p < v.len()
        invariant
            p <= v@.len(),
            v@ == old(v)@,
            old_views == ranked_views(v@),
            xv == (x.entry@, x.lower@),
            x.keyed_for(query_lower),
            forall|i: int| 0 <= i < v@.len() ==> (#[trigger] v@[i]).keyed_for(query_lower),
            forall|i: int| 0 <= i < p ==> pair_le(query_lower, #[trigger] old_views[i], xv),
        ensures
            p <= v@.len(),
            v@ == old(v)@,
            forall|i: int| 0 <= i < p ==> pair_le(query_lower, #[trigger] old_views[i], xv),
            p < v@.len() ==> !pair_le(query_lower, old_views[p as int], xv),
        decreases v@.len() - p,
    {
        assert(old_views[p as int] == (v@[p as int].entry@, v@[p as int].lower@));
        if !ranked_le(&v[p], &x, Ghost(query_lower)) {
            break;
        }
        p = p + 1;
    }
    v.insert(p, x);
    proof {
        let nv = ranked_views(v@);
        assert(nv =~= old_views.insert(p as int, xv));
        to_multiset_insert(old_views, p as int, xv);
        assert forall|i: int, j: int| 0 <= i < j < nv.len() implies #[trigger] ord(
            nv[i],
            nv[j],
        ) by {
            if j < p {
                assert(ord(old_views[i], old_views[j]));
            } else if j == p {
                assert(pair_le(query_lower, old_views[i], xv));
            } else if i < p {
                assert(ord(old_views[i], old_views[j - 1]));
            } else if i == p {
                assert(!pair_le(query_lower, old_views[p as int], xv));
                assert(ord(old_views[p as int], xv) || ord(xv, old_views[p as int]));
                assert(ord(xv, old_views[p as int]));
                if j - 1 > p {
                    assert(ord(old_views[p as int], old_views[j - 1]));
                }
            } else {
                assert(ord(old_views[i - 1], old_views[j - 1]));
            }
        }
    }
}

/// The entries that best complete the lowercase query `query_lower`, given each entry's
/// lowercase form at the same index of `entries_lower`: at most `suggestion_count` of them,
/// prefix matches first, then substring matches, then in-order (fuzzy) matches.
pub fn rank_lowered_candidates(
    query_lower: &str,
    entries: &[String],
    entries_lower: &[String],
    suggestion_count: usize,
) -> (r: Vec<String>)
    requires
        entries@.len() == entries_lower@.len(),
    ensures
        string_views(r@) == spec_rank_candidates(
            query_lower@,
            lowered_pairs(string_views(entries@), string_views(entries_lower@)),
            suggestion_count as int,
        ),
{
    let ghost ql = query_lower@;
    let ghost all = lowered_pairs(string_views(entries@), string_views(entries_lower@));
    let mut ranked: Vec<RankedEntry> = Vec::new();
    let mut i: usize = 0;
    assert(all.take(0) =~= Seq::<(Seq<char>, Seq<char>)>::empty());
    assert(ranked_views(ranked@) =~= Seq::<(Seq<char>, Seq<char>)>::empty());
    while i < entries.len()
        invariant
            i <= entries@.len(),
            entries@.len() == entries_lower@.len(),
            ql == query_lower@,
            all == lowered_pairs(string_views(entries@), string_views(entries_lower@)),
            forall|k: int| 0 <= k < ranked@.len() ==> (#[trigger] ranked@[k]).keyed_for(ql),
            sorted_by(ranked_views(ranked@), pair_order(ql)),
            ranked_views(ranked@).to_multiset() == ranked_pairs(ql, all.take(i as int)).to_multiset(),
        decreases entries@.len() - i,
    {
        let rank = completion_rank(query_lower, entries_lower[i].as_str());
        proof {
            assert(all.take(i + 1).drop_last() =~= all.take(i as int));
            assert(all.take(i + 1).last() == (entries@[i as int]@, entries_lower@[i as int]@));
        }
        match rank {
            Some((bucket, position)) => {
                let x = RankedEntry {
                    bucket,
                    position,
                    len: entries[i].as_str().len(),
                    entry: entries[i].clone(),
                    lower: entries_lower[i].clone(),
                };
                insert_ranked(&mut ranked, x, Ghost(ql));
                proof {
                    to_multiset_build(
                        ranked_pairs(ql, all.take(i as int)),
                        (entries@[i as int]@, entries_lower@[i as int]@),
                    );
                }
            },
            None => {},
        }
        i = i + 1;
    }
    let ghost sorted_views = ranked_views(ranked@);
    proof {
        assert(all.take(entries@.len() as int) =~= all);
        lemma_pair_order_total(ql);
        let target = ranked_pairs(ql, all).sort_by(pair_order(ql));
        ranked_pairs(ql, all).lemma_sort_by_ensures(pair_order(ql));
        lemma_sorted_unique(sorted_views, target, pair_order(ql));
    }
    let limit = if suggestion_count < ranked.len() {
        suggestion_count
    } else {
        ranked.len()
    };
    let ghost names = firsts(sorted_views);
    let mut r: Vec<String> = Vec::new();
    let mut k: usize = 0;
    while k < limit
        invariant
            limit <= ranked@.len(),
            k <= limit,
            sorted_views == ranked_views(ranked@),
            names == firsts(sorted_views),
            r@.len() == k,
            string_views(r@) == names.take(k as int),
        decreases limit - k,
    {
        assert(names[k as int] == ranked@[k as int].entry@);
        let e = ranked[k].entry.clone();
        let ghost before = r@;
        r.push(e);
        assert(r@ == before.push(e));
        assert forall|j: int| 0 <= j < k implies string_views(r@)[j] == names[j] by {
            assert(string_views(before)[j] == names.take(k as int)[j]);
            assert(r@[j] == before[j]);
        }
        assert(string_views(r@) =~= names.take(k + 1));
        k = k + 1;
    }
    assert(names.take(limit as int) =~= if suggestion_count < names.len() {
        names.take(suggestion_count as int)
    } else {
        names
    });
    r
}

/// The registered entries that best complete `query`: at most `suggestion_count` of them,
/// prefix matches first, then substring matches, then in-order (fuzzy) matches, comparing the
/// trimmed query and the entries in lowercase.
pub fn completion_candidates(query: &str, entries: &[String], suggestion_count: usize) -> (r: Vec<
    String,
>)
    ensures
        string_views(r@) == spec_completion_candidates(
            query@,
            string_views(entries@),
            suggestion_count as int,
        ),
        all_ascii(trim_seq(query@)) && all_ascii_entries(string_views(entries@)) ==> string_views(
            r@,
        ) == spec_ascii_completion_candidates(query@, string_views(entries@), suggestion_count as int),
{
    let query = trim(query);
    if query.as_str().is_empty() || suggestion_count == 0 {
        let r: Vec<String> = Vec::new();
        assert(string_views(r@) =~= seq![]);
        return r;
    }
    let query_lower = to_lowercase(query.as_str());
    let mut entries_lower: Vec<String> = Vec::new();
    let mut i: usize = 0;
    while i < entries.len()
        invariant
            i <= entries@.len(),
            entries_lower@.len() == i,
            forall|k: int| 0 <= k < i ==> #[trigger] entries_lower@[k]@ == lowercase(
                entries@[k]@,
            ),
            forall|k: int|
                0 <= k < i && all_ascii(entries@[k]@) ==> #[trigger] entries_lower@[k]@
                    == ascii_lowered(entries@[k]@),
        decreases entries@.len() - i,
    {
        entries_lower.push(to_lowercase(entries[i].as_str()));
        i = i + 1;
    }
    assert(lowered_pairs(string_views(entries@), string_views(entries_lower@)) =~= lowered_entries(
        string_views(entries@),
    ));
    proof {
        let ev = string_views(entries@);
        if all_ascii(query@) && all_ascii_entries(ev) {
            assert forall|k: int| 0 <= k < ev.len() implies #[trigger] lowercase(ev[k])
                == ascii_lowered(ev[k]) by {
                assert(entries_lower@[k]@ == lowercase(entries@[k]@));
            }
            assert(lowered_entries(ev) =~= ev.map_values(|e: Seq<char>| (e, ascii_lowered(e))));
        }
    }
    rank_lowered_candidates(query_lower.as_str(), entries, entries_lower.as_slice(), suggestion_count)
}

} // verus!
