//! Properties that relate several operations of the console, proved over their specifications.

use vstd::arithmetic::div_mod::{lemma_add_mod_noop_right, lemma_small_mod};
use vstd::prelude::*;
use vstd::relations::sorted_by;
use vstd::seq_lib::{lemma_sorted_unique, to_multiset_build, to_multiset_contains};

use crate::candidates::{
    ascii_lowered, firsts, lemma_pair_order_total, lowered_entries, pair_le, pair_order, rank_of,
    ranked_pairs, spec_completion_candidates,
};
use crate::external::{all_ascii, lowercase};
use crate::help::byte_len;
use crate::input::history_after_submit;
use crate::search::spec_completion_rank;
use crate::state::{ConsoleCache, ConsoleState};
use crate::suggestions::{
    moved_selection, plain_ascii_line, plain_line_predictions, popup_selectable, popup_visible,
    predictions_for, predictions_recomputed, predictions_stored, selected_prediction_index,
    selection_move_in_range,
};
use crate::text::{string_views, trim_seq};

verus! {

/// Moving the highlight by `direction` rows and back by as many returns it to the row it was on
/// (where the move back fits in `isize`).
pub proof fn lemma_selection_round_trip(state: ConsoleState, cache: ConsoleCache, direction: isize)
    requires
        popup_selectable(cache),
        cache.predictions_cache@.len() <= isize::MAX,
        state.suggestion_index matches Some(i) && i < cache.predictions_cache@.len(),
        selection_move_in_range(state, direction),
        direction > isize::MIN,
    ensures
        ({
            let moved = ConsoleState {
                suggestion_index: Some(moved_selection(state, cache, direction)),
                ..state
            };
            selection_move_in_range(moved, (-direction) as isize) ==> moved_selection(
                moved,
                cache,
                (-direction) as isize,
            ) == state.suggestion_index->0
        }),
{
    let len = cache.predictions_cache@.len() as int;
    let i = state.suggestion_index->0 as int;
    assert((state.suggestion_index->0 as isize) as int == i);
    let m = (i + direction) % len;
    assert(0 <= m < len);
    assert(moved_selection(state, cache, direction) as int == m);
    assert((m as usize as isize) as int == m);
    assert(((-direction) as isize) as int == -direction);
    lemma_add_mod_noop_right(-direction, i + direction, len);
    assert(-direction + (i + direction) == i);
    lemma_small_mod(i as nat, len as nat);
    assert((m + (-direction)) % len == i);
}

/// Recomputing the predictions again for an unchanged input line, with the same key, changes
/// nothing: the predictions, the match flag, the stored key and the highlight stay as they are.
pub proof fn lemma_recompute_is_stable(
    state0: ConsoleState,
    cache0: ConsoleCache,
    state1: ConsoleState,
    cache1: ConsoleCache,
    state2: ConsoleState,
    cache2: ConsoleCache,
    suggestion_count: usize,
    key: u64,
)
    requires
        predictions_recomputed(state0, cache0, state1, cache1, suggestion_count, key),
        predictions_recomputed(state1, cache1, state2, cache2, suggestion_count, key),
    ensures
        state2 == state1,
        cache2.predictions_cache@ == cache1.predictions_cache@,
        cache2 == (ConsoleCache { predictions_cache: cache2.predictions_cache, ..cache1 }),
{
}

/// When a recomputed prediction equals the input line exactly, nothing is highlighted and the
/// popup is not shown, so Enter and Tab do not replace the line.
pub proof fn lemma_exact_prediction_hides_popup(
    state0: ConsoleState,
    cache0: ConsoleCache,
    state1: ConsoleState,
    cache1: ConsoleCache,
    suggestion_count: usize,
    key: u64,
    has_focus: bool,
)
    requires
        predictions_recomputed(state0, cache0, state1, cache1, suggestion_count, key),
        state0.buf@.len() > 0,
        cache0.predictions_hash_key != Some(key),
        predictions_for(
            state0.buf@,
            crate::text::string_views(cache0.completion_entries@),
            suggestion_count,
        ).contains(state0.buf@),
    ensures
        state1.suggestion_index is None,
        !popup_selectable(cache1),
        !popup_visible(has_focus, state1, cache1),
{
}

proof fn lemma_ranked_pairs_match(
    query_lower: Seq<char>,
    pairs: Seq<(Seq<char>, Seq<char>)>,
    x: (Seq<char>, Seq<char>),
)
    requires
        ranked_pairs(query_lower, pairs).contains(x),
    ensures
        pairs.contains(x),
        spec_completion_rank(query_lower, x.1) is Some,
    decreases pairs.len(),
{
    let rest = ranked_pairs(query_lower, pairs.drop_last());
    if rest.contains(x) {
        lemma_ranked_pairs_match(query_lower, pairs.drop_last(), x);
        let k = choose|k: int| 0 <= k < pairs.drop_last().len() && pairs.drop_last()[k] == x;
        assert(pairs[k] == x);
    } else {
        let full = ranked_pairs(query_lower, pairs);
        let k = choose|k: int| 0 <= k < full.len() && full[k] == x;
        assert(full =~= rest.push(pairs.last()));
        assert(pairs[pairs.len() - 1] == x);
    }
}

/// The suggestions for a query are at most `suggestion_count` registered entries, each of which
/// matches the query, listed best first: prefix matches before substring matches before
/// in-order matches; within one kind of match, an earlier match position first; at the same
/// kind and position, a shorter entry (in bytes) first.
pub proof fn lemma_candidates_are_ranked_matches(
    query: Seq<char>,
    entries: Seq<Seq<char>>,
    suggestion_count: nat,
)
    ensures
        ({
            let result = spec_completion_candidates(query, entries, suggestion_count as int);
            let query_lower = lowercase(trim_seq(query));
            &&& result.len() <= suggestion_count
            &&& forall|i: int|
                0 <= i < result.len() ==> entries.contains(#[trigger] result[i])
                    && spec_completion_rank(query_lower, lowercase(result[i])) is Some
            &&& forall|i: int, j: int|
                0 <= i < j < result.len() ==> rank_of(query_lower, #[trigger] result[i]).0
                    <= rank_of(query_lower, #[trigger] result[j]).0
            &&& forall|i: int, j: int|
                0 <= i < j < result.len() && rank_of(query_lower, #[trigger] result[i]).0
                    == rank_of(query_lower, #[trigger] result[j]).0 ==> rank_of(
                    query_lower,
                    result[i],
                ).1 <= rank_of(query_lower, result[j]).1
            &&& forall|i: int, j: int|
                0 <= i < j < result.len() && rank_of(query_lower, #[trigger] result[i])
                    == rank_of(query_lower, #[trigger] result[j]) ==> byte_len(result[i]) <= byte_len(
                    result[j],
                )
        }),
{
    let result = spec_completion_candidates(query, entries, suggestion_count as int);
    let trimmed = trim_seq(query);
    let query_lower = lowercase(trimmed);
    if trimmed.len() == 0 || suggestion_count == 0 {
        return;
    }
    let pairs = lowered_entries(entries);
    let ranked = ranked_pairs(query_lower, pairs);
    lemma_pair_order_total(query_lower);
    let sorted = ranked.sort_by(pair_order(query_lower));
    ranked.lemma_sort_by_ensures(pair_order(query_lower));
    let names = firsts(sorted);
    assert forall|i: int| 0 <= i < result.len() implies sorted[i].0 == result[i] && sorted[i]
        == (result[i], lowercase(result[i])) && entries.contains(result[i])
        && spec_completion_rank(query_lower, lowercase(result[i])) is Some by {
        assert(result[i] == names[i]);
        assert(sorted.contains(sorted[i]));
        to_multiset_contains(sorted, sorted[i]);
        to_multiset_contains(ranked, sorted[i]);
        lemma_ranked_pairs_match(query_lower, pairs, sorted[i]);
        let k = choose|k: int| 0 <= k < pairs.len() && pairs[k] == sorted[i];
        assert(entries[k] == result[i]);
    }
    assert forall|i: int, j: int| 0 <= i < j < result.len() implies pair_le(
        query_lower,
        (result[i], lowercase(result[i])),
        (result[j], lowercase(result[j])),
    ) by {
        assert(sorted_by(sorted, pair_order(query_lower)));
        assert(pair_order(query_lower)(sorted[i], sorted[j]));
    }
    assert forall|i: int, j: int| 0 <= i < j < result.len() implies rank_of(
        query_lower,
        #[trigger] result[i],
    ).0 <= rank_of(query_lower, #[trigger] result[j]).0 by {
        assert(pair_le(
            query_lower,
            (result[i], lowercase(result[i])),
            (result[j], lowercase(result[j])),
        ));
    }
    assert forall|i: int, j: int|
        0 <= i < j < result.len() && rank_of(query_lower, #[trigger] result[i]).0 == rank_of(
            query_lower,
            #[trigger] result[j],
        ).0 implies rank_of(query_lower, result[i]).1 <= rank_of(query_lower, result[j]).1 by {
        assert(pair_le(
            query_lower,
            (result[i], lowercase(result[i])),
            (result[j], lowercase(result[j])),
        ));
    }
    assert forall|i: int, j: int|
        0 <= i < j < result.len() && rank_of(query_lower, #[trigger] result[i]) == rank_of(
            query_lower,
            #[trigger] result[j],
        ) implies byte_len(result[i]) <= byte_len(result[j]) by {
        assert(pair_le(
            query_lower,
            (result[i], lowercase(result[i])),
            (result[j], lowercase(result[j])),
        ));
    }
}

proof fn lemma_ranked_count(query_lower: Seq<char>, entries: Seq<Seq<char>>, p: (Seq<char>, Seq<char>))
    ensures
        ranked_pairs(query_lower, lowered_entries(entries)).to_multiset().count(p) == if spec_completion_rank(
            query_lower,
            p.1,
        ) is Some && p.1 == lowercase(p.0) {
            entries.to_multiset().count(p.0)
        } else {
            0
        },
    decreases entries.len(),
{
    broadcast use vstd::multiset::group_multiset_axioms;

    if entries.len() == 0 {
        to_multiset_contains(entries, p.0);
        to_multiset_contains(ranked_pairs(query_lower, lowered_entries(entries)), p);
    } else {
        let d = entries.drop_last();
        let last = entries.last();
        assert(lowered_entries(entries).drop_last() =~= lowered_entries(d));
        assert(lowered_entries(entries).last() == (last, lowercase(last)));
        lemma_ranked_count(query_lower, d, p);
        assert(entries =~= d.push(last));
        to_multiset_build(d, last);
        if spec_completion_rank(query_lower, lowercase(last)) is Some {
            to_multiset_build(ranked_pairs(query_lower, lowered_entries(d)), (last, lowercase(last)));
        }
    }
}

/// Ties are broken by the entries themselves, never by where they stand: entries given in
/// another order yield the same suggestions.
pub proof fn lemma_candidates_ignore_entry_order(
    query: Seq<char>,
    entries: Seq<Seq<char>>,
    reordered: Seq<Seq<char>>,
    suggestion_count: int,
)
    requires
        reordered.to_multiset() == entries.to_multiset(),
    ensures
        spec_completion_candidates(query, reordered, suggestion_count)
            == spec_completion_candidates(query, entries, suggestion_count),
{
    let trimmed = trim_seq(query);
    if trimmed.len() == 0 || suggestion_count == 0 {
        return;
    }
    let ql = lowercase(trimmed);
    let r1 = ranked_pairs(ql, lowered_entries(entries));
    let r2 = ranked_pairs(ql, lowered_entries(reordered));
    assert forall|p: (Seq<char>, Seq<char>)| r1.to_multiset().count(p) == r2.to_multiset().count(p) by {
        lemma_ranked_count(ql, entries, p);
        lemma_ranked_count(ql, reordered, p);
    }
    assert(r1.to_multiset() =~= r2.to_multiset());
    lemma_pair_order_total(ql);
    r1.lemma_sort_by_ensures(pair_order(ql));
    r2.lemma_sort_by_ensures(pair_order(ql));
    lemma_sorted_unique(r1.sort_by(pair_order(ql)), r2.sort_by(pair_order(ql)), pair_order(ql));
}

/// Submitting keeps at most `history_size` entries after the draft slot, keeps the draft, and
/// puts the submitted line right after it unless the history holds nothing.
pub proof fn lemma_history_bounded(history: Seq<Seq<char>>, line: Seq<char>, history_size: usize)
    requires
        1 <= history.len() <= history_size + 1,
    ensures
        ({
            let after = history_after_submit(history, line, history_size);
            &&& 1 <= after.len() <= history_size + 1
            &&& after[0] == history[0]
            &&& history_size > 0 ==> after[1] == line
        }),
{
}

} // verus!

verus! {

/// A command matches a list query exactly when the query's characters appear in its name (or
/// description) in order: substring matches are among the in-order matches.
pub proof fn lemma_list_match_is_in_order_match(haystack: Seq<char>, needle: Seq<char>)
    ensures
        crate::search::spec_contains_or_fuzzy_matches(haystack, needle)
            == crate::search::is_subsequence(needle, haystack),
{
    if crate::search::contains_seq(haystack, needle) {
        crate::search::lemma_substring_is_subsequence(haystack, needle);
    }
}

} // verus!

verus! {

/// Arrow up from a non-blank line in the draft slot, then arrow down, gives the line back: the
/// draft is saved before the older entry is shown.
pub proof fn lemma_history_up_down_restores_draft(history: Seq<String>, buf: String)
    requires
        history.len() > 1,
        crate::text::trim_seq(buf@).len() > 0,
    ensures
        ({
            let (saved, index, _) = crate::input::history_up(history, 0, buf);
            &&& index == 1
            &&& crate::input::history_down(saved, index) == (0usize, buf)
        }),
{
}

/// An entry is offered for a query exactly when the query's characters appear in it in order.
pub proof fn lemma_rank_iff_in_order_match(query: Seq<char>, candidate: Seq<char>)
    ensures
        spec_completion_rank(query, candidate) is Some <==> crate::search::is_subsequence(
            query,
            candidate,
        ),
{
    if crate::search::occurs_at(candidate, query, 0) {
        crate::search::lemma_substring_is_subsequence(candidate, query);
    } else if crate::search::contains_seq(candidate, query) {
        crate::search::lemma_substring_is_subsequence(candidate, query);
    } else if query.len() == 0 {
        assert(candidate.subrange(0, 0) =~= query);
    }
}

} // verus!

verus! {

/// Completion entries built from no commands and one custom sequence are that sequence alone.
pub proof fn lemma_single_sequence_entries(entries: Seq<Seq<char>>, arg_completions: Seq<Vec<String>>)
    requires
        arg_completions.len() == 1,
        crate::completions::strictly_sorted(entries),
        entries.to_set() == crate::completions::completion_sources(seq![], arg_completions).to_set(),
    ensures
        entries == seq![crate::completions::joined_completions(arg_completions)[0]],
{
    let c = crate::completions::joined_completions(arg_completions)[0];
    let sources = crate::completions::completion_sources(seq![], arg_completions);
    assert(sources =~= seq![c]);
    assert(seq![c].to_set() =~= set![c]) by {
        assert(seq![c].contains(c));
    }
    assert(entries.to_set().contains(c));
    assert(entries.contains(c));
    assert forall|i: int| 0 <= i < entries.len() implies entries[i] == c by {
        assert(entries.to_set().contains(entries[i]));
    }
    if entries.len() > 1 {
        assert(crate::completions::str_lt(entries[0], entries[1]));
    }
    assert(entries =~= seq![c]);
}

/// A custom completion sequence is offered and taken: with completion entries built from no
/// commands and that one ASCII sequence, recomputing the predictions for a line that is one
/// plain ASCII word, in lowercase a prefix of the sequence's lowercase form, gives the
/// sequence as the only prediction, highlighted (unless the line already is the sequence), so
/// Tab or Enter puts it on the line.
pub proof fn lemma_custom_completion_flow(
    arg_completions: Seq<Vec<String>>,
    state0: ConsoleState,
    cache0: ConsoleCache,
    state1: ConsoleState,
    cache1: ConsoleCache,
    suggestion_count: usize,
    key: u64,
)
    requires
        arg_completions.len() == 1,
        crate::completions::strictly_sorted(string_views(cache0.completion_entries@)),
        string_views(cache0.completion_entries@).to_set()
            == crate::completions::completion_sources(seq![], arg_completions).to_set(),
        suggestion_count >= 1,
        ({
            let c = crate::completions::joined_completions(arg_completions)[0];
            &&& all_ascii(c)
            &&& plain_ascii_line(state0.buf@)
            &&& crate::search::occurs_at(ascii_lowered(c), ascii_lowered(state0.buf@), 0)
            &&& state0.buf@ != c
        }),
        predictions_stored(
            state0,
            cache0,
            state1,
            cache1,
            plain_line_predictions(
                state0.buf@,
                string_views(cache0.completion_entries@),
                suggestion_count,
            ),
            key,
        ),
    ensures
        ({
            let c = crate::completions::joined_completions(arg_completions)[0];
            &&& string_views(cache1.predictions_cache@) == seq![c]
            &&& !cache1.prediction_matches_buffer
            &&& state1.suggestion_index == Some(0usize)
            &&& popup_selectable(cache1)
            &&& cache1.predictions_cache@[selected_prediction_index(state1, cache1)]@ == c
        }),
{
    let c = crate::completions::joined_completions(arg_completions)[0];
    let entries = string_views(cache0.completion_entries@);
    lemma_single_sequence_entries(entries, arg_completions);
    let line = state0.buf@;
    let ql = ascii_lowered(line);
    let pairs = entries.map_values(|e: Seq<char>| (e, ascii_lowered(e)));
    assert(pairs =~= seq![(c, ascii_lowered(c))]);
    assert(crate::search::spec_completion_rank(ql, ascii_lowered(c)) is Some);
    let ranked = ranked_pairs(ql, pairs);
    assert(pairs.drop_last() =~= Seq::<(Seq<char>, Seq<char>)>::empty());
    assert(ranked_pairs(ql, pairs.drop_last()) =~= Seq::<(Seq<char>, Seq<char>)>::empty());
    assert(pairs.last() == (c, ascii_lowered(c)));
    assert(ranked =~= seq![(c, ascii_lowered(c))]);
    lemma_pair_order_total(ql);
    ranked.lemma_sort_by_ensures(pair_order(ql));
    let sorted = ranked.sort_by(pair_order(ql));
    vstd::seq_lib::to_multiset_len(ranked);
    vstd::seq_lib::to_multiset_len(sorted);
    assert(sorted.len() == 1);
    to_multiset_contains(sorted, sorted[0]);
    to_multiset_contains(ranked, sorted[0]);
    assert(sorted[0] == (c, ascii_lowered(c)));
    assert(sorted =~= seq![(c, ascii_lowered(c))]);
    let preds = plain_line_predictions(line, entries, suggestion_count);
    assert(firsts(sorted) =~= seq![c]);
    assert(preds =~= seq![c]);
    assert(!preds.contains(line));
}

} // verus!

verus! {

/// Styling keeps the text: the styled segments, read one after another, are the line's
/// segments read one after another (dropping a segment without text loses nothing).
pub proof fn lemma_styling_keeps_text(parsed: Seq<crate::styling::ParsedSegment>)
    ensures
        crate::styling::styled_text(crate::styling::styled_views(parsed))
            == crate::styling::parsed_text(parsed),
    decreases parsed.len(),
{
    if parsed.len() > 0 {
        lemma_styling_keeps_text(parsed.drop_last());
        let rest = crate::styling::styled_views(parsed.drop_last());
        if parsed.last().text@.len() > 0 {
            let piece = (
                parsed.last().text@,
                crate::styling::overrides_applied(parsed.last().overrides@),
            );
            assert(rest.push(piece).drop_last() =~= rest);
        } else {
            assert(parsed.last().text@ =~= Seq::<char>::empty());
            assert(crate::styling::parsed_text(parsed) =~= crate::styling::parsed_text(
                parsed.drop_last(),
            ));
        }
    }
}

} // verus!

verus! {

/// A command is listed for a query exactly when the query, in lowercase, can be read in order
/// (possibly with gaps) in the command's lowercase name or lowercase description.
pub proof fn lemma_command_match_is_in_order_match(
    query: Seq<char>,
    name: Seq<char>,
    about: Option<Seq<char>>,
)
    ensures
        crate::search::spec_command_matches_query(query, name, about) <==> (
        crate::search::is_subsequence(lowercase(query), lowercase(name)) || (about matches Some(a)
            && crate::search::is_subsequence(lowercase(query), lowercase(a)))),
{
    lemma_list_match_is_in_order_match(lowercase(name), lowercase(query));
    if let Some(a) = about {
        lemma_list_match_is_in_order_match(lowercase(a), lowercase(query));
    }
}

/// With a non-blank query, a command is listed exactly when the trimmed query, in lowercase,
/// can be read in order in its lowercase name or description; with none, every command is.
pub proof fn lemma_listed_iff_in_order_match(
    query: Option<Seq<char>>,
    command: crate::help::CommandInfo,
)
    ensures
        crate::help::command_listed(crate::help::list_filter(query), command) <==> match query {
            Some(q) => trim_seq(q).len() == 0 || crate::search::is_subsequence(
                lowercase(trim_seq(q)),
                lowercase(command.name@),
            ) || (command.about_view() matches Some(a) && crate::search::is_subsequence(
                lowercase(trim_seq(q)),
                lowercase(a),
            )),
            None => true,
        },
{
    if let Some(q) = query {
        lemma_command_match_is_in_order_match(trim_seq(q), command.name@, command.about_view());
    }
}

/// Arrow down from an older history entry shows the next newer one: the shown index drops by
/// one and the line becomes that entry.
pub proof fn lemma_history_down_steps_one_newer(history: Seq<String>, history_index: usize)
    requires
        0 < history_index < history.len(),
    ensures
        ({
            let (index, buf) = crate::input::history_down(history, history_index);
            &&& index + 1 == history_index
            &&& buf == history[index as int]
        }),
{
}

/// Arrow up then arrow down from an entry of the history comes back to that entry: the same
/// index is shown with the same line.
pub proof fn lemma_history_up_down_round_trip(
    history: Seq<String>,
    history_index: usize,
)
    requires
        0 < history_index,
        history_index + 1 < history.len() <= usize::MAX,
    ensures
        ({
            let (saved, index, _) = crate::input::history_up(
                history,
                history_index,
                history[history_index as int],
            );
            &&& saved == history
            &&& crate::input::history_down(saved, index) == (
                history_index,
                history[history_index as int],
            )
        }),
{
}

/// A named key is listed exactly when a configured key has the same name; a key without a name
/// is listed exactly when a configured key has the same scan code.
pub proof fn lemma_key_listed_iff_equal(keys: Seq<crate::keys::ConsoleKey>, key: crate::keys::ConsoleKey)
    ensures
        crate::keys::key_listed(keys, key) <==> exists|i: int|
            0 <= i < keys.len() && match (#[trigger] keys[i], key) {
                (crate::keys::ConsoleKey::Named(x), crate::keys::ConsoleKey::Named(y)) => x@ =~= y@,
                (
                    crate::keys::ConsoleKey::Unidentified(m),
                    crate::keys::ConsoleKey::Unidentified(n),
                ) => m == n,
                _ => false,
            },
{
}

} // verus!
