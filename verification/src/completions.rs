//! The completion entries built from the registered commands and custom completions.

use vstd::prelude::*;
use vstd::utf8::{encode_utf8, encode_utf8_decode_utf8};

use crate::external::{new_trie_builder, trie_builder_build, trie_builder_push, trie_words};
use crate::order::{
    bytes_le, bytes_lt, lemma_bytes_le_antisymmetric, lemma_bytes_le_total,
    lemma_bytes_le_transitive, str_le,
};
use crate::state::ConsoleCache;
use crate::text::{join_strings, join_words, string_views};

verus! {

/// `a` sorts strictly before `b`, comparing their UTF-8 bytes as Rust's `str` ordering does.
pub open spec fn str_lt(a: Seq<char>, b: Seq<char>) -> bool {
    bytes_lt(encode_utf8(a), encode_utf8(b))
}

/// Each entry sorts strictly before the next, so no entry repeats.
pub open spec fn strictly_sorted(s: Seq<Seq<char>>) -> bool {
    forall|i: int, j: int| 0 <= i < j < s.len() ==> str_lt(#[trigger] s[i], #[trigger] s[j])
}

/// Each custom completion sequence joined with single spaces.
pub open spec fn joined_completions(arg_completions: Seq<Vec<String>>) -> Seq<Seq<char>> {
    arg_completions.map_values(|c: Vec<String>| join_words(string_views(c@), seq![' ']))
}

/// What the completion entries are made of: the command names, then the joined completions.
pub open spec fn completion_sources(
    command_names: Seq<Seq<char>>,
    arg_completions: Seq<Vec<String>>,
) -> Seq<Seq<char>> {
    command_names + joined_completions(arg_completions)
}

/// The UTF-8 encodings of the strings in `s`.
pub open spec fn encoded_set(s: Seq<Seq<char>>) -> Set<Seq<u8>> {
    Set::new(|w: Seq<u8>| exists|k: int| 0 <= k < s.len() && encode_utf8(s[k]) == w)
}

proof fn lemma_str_lt_transitive(a: Seq<char>, b: Seq<char>, c: Seq<char>)
    requires
        str_lt(a, b),
        str_lt(b, c),
    ensures
        str_lt(a, c),
{
    lemma_bytes_le_transitive(encode_utf8(a), encode_utf8(b), encode_utf8(c));
    if encode_utf8(a) == encode_utf8(c) {
        lemma_bytes_le_antisymmetric(encode_utf8(a), encode_utf8(b));
    }
}

proof fn lemma_encoded_set_push(s: Seq<Seq<char>>, x: Seq<char>)
    ensures
        encoded_set(s.push(x)) == encoded_set(s).insert(encode_utf8(x)),
{
    let t = s.push(x);
    assert forall|w: Seq<u8>| encoded_set(t).contains(w) <==> encoded_set(s).insert(
        encode_utf8(x),
    ).contains(w) by {
        if encoded_set(t).contains(w) {
            let k = choose|k: int| 0 <= k < t.len() && encode_utf8(t[k]) == w;
            if k < s.len() {
                assert(encode_utf8(s[k]) == w);
            }
        }
        if encoded_set(s).contains(w) {
            let k = choose|k: int| 0 <= k < s.len() && encode_utf8(s[k]) == w;
            assert(encode_utf8(t[k]) == w);
        }
        if w == encode_utf8(x) {
            assert(encode_utf8(t[s.len() as int]) == w);
        }
    }
    assert(encoded_set(t) =~= encoded_set(s).insert(encode_utf8(x)));
}

/// Inserts `x` in its place in the strictly sorted `entries`, unless it is there already.
fn insert_sorted_unique(entries: &mut Vec<String>, x: String)
    requires
        strictly_sorted(string_views(old(entries)@)),
    ensures
        strictly_sorted(string_views(final(entries)@)),
        forall|y: Seq<char>|
            #[trigger] string_views(final(entries)@).contains(y) <==> (string_views(
                old(entries)@,
            ).contains(y) || y == x@),
{
    let ghost before = string_views(entries@);
    let mut p: usize = 0;
    while p < entries.len()
        invariant
            p <= entries@.len(),
            entries@ == old(entries)@,
            before == string_views(entries@),
            forall|k: int| 0 <= k < p ==> str_lt(#[trigger] before[k], x@),
        ensures
            p <= entries@.len(),
            entries@ == old(entries)@,
            forall|k: int| 0 <= k < p ==> str_lt(#[trigger] before[k], x@),
            p < entries@.len() ==> bytes_le(encode_utf8(x@), encode_utf8(before[p as int])),
        decreases entries@.len() - p,
    {
        assert(before[p as int] == entries@[p as int]@);
        if str_le(x.as_str(), entries[p].as_str()) {
            break;
        }
        proof {
            lemma_bytes_le_total(encode_utf8(x@), encode_utf8(before[p as int]));
        }
        p = p + 1;
    }
    if p < entries.len() && entries[p] == x {
        assert(before.contains(x@)) by {
            assert(before[p as int] == x@);
        }
        return;
    }
    proof {
        if p < before.len() {
            assert(before[p as int] == entries@[p as int]@);
            assert(before[p as int] != x@);
            if encode_utf8(x@) == encode_utf8(before[p as int]) {
                encode_utf8_decode_utf8(x@);
                encode_utf8_decode_utf8(before[p as int]);
            }
            assert(str_lt(x@, before[p as int]));
        }
    }
    let ghost xv = x@;
    entries.insert(p, x);
    proof {
        let after = string_views(entries@);
        assert(after =~= before.insert(p as int, xv));
        assert forall|i: int, j: int| 0 <= i < j < after.len() implies str_lt(
            #[trigger] after[i],
            #[trigger] after[j],
        ) by {
            if j < p {
            } else if j == p {
            } else if i < p {
                assert(str_lt(before[i], before[j - 1]));
            } else if i == p {
                if j - 1 > p {
                    lemma_str_lt_transitive(xv, before[p as int], before[j - 1]);
                }
            } else {
            }
        }
        assert forall|y: Seq<char>| #[trigger] after.contains(y) <==> (before.contains(y) || y
            == xv) by {
            if after.contains(y) {
                let k = choose|k: int| 0 <= k < after.len() && after[k] == y;
                if k < p {
                    assert(before[k] == y);
                } else if k > p {
                    assert(before[k - 1] == y);
                }
            }
            if before.contains(y) {
                let k = choose|k: int| 0 <= k < before.len() && before[k] == y;
                if k < p {
                    assert(after[k] == y);
                } else {
                    assert(after[k + 1] == y);
                }
            }
            if y == xv {
                assert(after[p as int] == y);
            }
        }
    }
}

/// The command names followed by each custom completion joined with single spaces.
fn collect_completion_sources(command_names: &[String], arg_completions: &[Vec<String>]) -> (r: Vec<String>)
    ensures
        string_views(r@) == completion_sources(string_views(command_names@), arg_completions@),
{
    let mut r: Vec<String> = Vec::new();
    let mut i: usize = 0;
    while i < command_names.len()
        invariant
            i <= command_names@.len(),
            r@.len() == i,
            string_views(r@) == string_views(command_names@).take(i as int),
        decreases command_names@.len() - i,
    {
        let ghost before = r@;
        let name = command_names[i].clone();
        assert(name@ == string_views(command_names@)[i as int]);
        r.push(name);
        assert(r@ == before.push(name));
        assert(string_views(r@) =~= string_views(command_names@).take(i + 1));
        i = i + 1;
    }
    assert(string_views(command_names@).take(command_names@.len() as int) =~= string_views(
        command_names@,
    ));
    let ghost names = string_views(command_names@);
    let ghost joined = joined_completions(arg_completions@);
    let mut k: usize = 0;
    assert(names + joined.take(0) =~= names);
    assert(r@.len() == names.len());
    while k < arg_completions.len()
        invariant
            k <= arg_completions@.len(),
            names == string_views(command_names@),
            joined == joined_completions(arg_completions@),
            r@.len() == names.len() + k,
            string_views(r@) == names + joined.take(k as int),
        decreases arg_completions@.len() - k,
    {
        let ghost before = r@;
        let completion = join_strings(arg_completions[k].as_slice(), " ");
        proof {
            reveal_strlit(" ");
            assert(" "@ =~= seq![' ']);
            assert(completion@ == joined[k as int]);
        }
        r.push(completion);
        assert(r@ == before.push(completion));
        let ghost want = names + joined.take(k + 1);
        assert forall|j: int| 0 <= j < r@.len() implies string_views(r@)[j] == want[j] by {
            if j < before.len() {
                assert(string_views(r@)[j] == string_views(before)[j]);
                assert(string_views(before)[j] == (names + joined.take(k as int))[j]);
            }
        }
        assert(string_views(r@) =~= want);
        k = k + 1;
    }
    assert(joined.take(arg_completions@.len() as int) =~= joined);
    r
}

/// Builds the completion entries from the registered command names and the custom completion
/// sequences: the sorted entries without repeats, and a trie of their UTF-8 bytes. Every entry
/// must be non-empty, as the trie refuses empty words.
pub fn init_completions(
    cache: &mut ConsoleCache,
    command_names: &[String],
    arg_completions: &[Vec<String>],
)
    requires
        forall|i: int|
            0 <= i < completion_sources(string_views(command_names@), arg_completions@).len()
                ==> (#[trigger] completion_sources(string_views(command_names@), arg_completions@)[i]).len() > 0,
    ensures
        ({
            let sources = completion_sources(string_views(command_names@), arg_completions@);
            &&& strictly_sorted(string_views(final(cache).completion_entries@))
            &&& string_views(final(cache).completion_entries@).to_set() == sources.to_set()
            &&& final(cache).commands_trie matches Some(t) && trie_words(t) == encoded_set(sources)
            &&& *final(cache) == (ConsoleCache {
                completion_entries: final(cache).completion_entries,
                commands_trie: final(cache).commands_trie,
                ..*old(cache)
            })
        }),
{
    let sources = collect_completion_sources(command_names, arg_completions);
    let ghost all = string_views(sources@);
    let mut builder = new_trie_builder();
    let mut entries: Vec<String> = Vec::new();
    let mut i: usize = 0;
    assert(all.take(0) =~= Seq::<Seq<char>>::empty());
    assert(encoded_set(all.take(0)) =~= Set::<Seq<u8>>::empty());
    while i < sources.len()
        invariant
            i <= sources@.len(),
            all == string_views(sources@),
            forall|k: int| 0 <= k < all.len() ==> (#[trigger] all[k]).len() > 0,
            strictly_sorted(string_views(entries@)),
            forall|y: Seq<char>|
                #[trigger] string_views(entries@).contains(y) <==> all.take(i as int).contains(y),
            crate::external::trie_builder_words(builder) == encoded_set(all.take(i as int)),
        decreases sources@.len() - i,
    {
        assert(all[i as int] == sources@[i as int]@);
        trie_builder_push(&mut builder, sources[i].as_str());
        let ghost prefix = all.take(i as int);
        proof {
            assert(all.take(i + 1) =~= prefix.push(all[i as int]));
            lemma_encoded_set_push(prefix, all[i as int]);
        }
        insert_sorted_unique(&mut entries, sources[i].clone());
        proof {
            assert forall|y: Seq<char>| #[trigger] all.take(i + 1).contains(y) <==> (
            prefix.contains(y) || y == all[i as int]) by {
                let next = all.take(i + 1);
                if next.contains(y) {
                    let k = choose|k: int| 0 <= k < next.len() && next[k] == y;
                    if k < i {
                        assert(prefix[k] == y);
                    }
                }
                if prefix.contains(y) {
                    let k = choose|k: int| 0 <= k < prefix.len() && prefix[k] == y;
                    assert(next[k] == y);
                }
                if y == all[i as int] {
                    assert(next[i as int] == y);
                }
            }
        }
        i = i + 1;
    }
    assert(all.take(sources@.len() as int) =~= all);
    let trie = trie_builder_build(builder);
    cache.completion_entries = entries;
    cache.commands_trie = Some(trie);
    proof {
        let got = string_views(cache.completion_entries@);
        assert forall|y: Seq<char>| got.to_set().contains(y) <==> all.to_set().contains(y) by {}
        assert(got.to_set() =~= all.to_set());
    }
}

} // verus!
