//! The suggestions popup: which prediction is highlighted, accepting it, and recomputing the
//! predictions when the input line changes.

use vstd::prelude::*;

use crate::candidates::{
    all_ascii_entries, completion_candidates, spec_ascii_completion_candidates,
    spec_completion_candidates,
};
use crate::external::{
    all_ascii, buffer_hash, plain_shell_word, shell_words, split_shell_words,
};
use crate::state::{ConsoleCache, ConsoleState};
use crate::text::{join_strings, join_words, string_views, trim_seq};

verus! {

/// The popup is empty and nothing is highlighted; everything else is as before.
pub open spec fn popup_cleared(
    old_state: ConsoleState,
    old_cache: ConsoleCache,
    new_state: ConsoleState,
    new_cache: ConsoleCache,
) -> bool {
    &&& new_state == (ConsoleState { suggestion_index: None, ..old_state })
    &&& new_cache.predictions_cache@.len() == 0
    &&& new_cache == (ConsoleCache {
        predictions_cache: new_cache.predictions_cache,
        predictions_hash_key: None,
        prediction_matches_buffer: false,
        ..old_cache
    })
}

/// The popup offers predictions that can be selected: there are some, and none equals the
/// input line.
pub open spec fn popup_selectable(cache: ConsoleCache) -> bool {
    cache.predictions_cache@.len() > 0 && !cache.prediction_matches_buffer
}

/// The prediction that accepting takes: the highlighted one (the first when none is), the last
/// when the highlight lies past the end.
pub open spec fn selected_prediction_index(state: ConsoleState, cache: ConsoleCache) -> int {
    let wanted = match state.suggestion_index {
        Some(i) => i as int,
        None => 0,
    };
    if wanted < cache.predictions_cache@.len() - 1 {
        wanted
    } else {
        cache.predictions_cache@.len() - 1
    }
}

/// Empties the suggestions popup and drops the highlight.
pub fn clear_prediction_popup(state: &mut ConsoleState, cache: &mut ConsoleCache)
    ensures
        popup_cleared(*old(state), *old(cache), *final(state), *final(cache)),
{
    cache.predictions_cache = Vec::new();
    cache.predictions_hash_key = None;
    cache.prediction_matches_buffer = false;
    state.suggestion_index = None;
}

/// Replaces the input line with the highlighted prediction and closes the popup; returns
/// whether there was a prediction to accept.
pub fn accept_selected_suggestion(state: &mut ConsoleState, cache: &mut ConsoleCache) -> (r: bool)
    ensures
        r == popup_selectable(*old(cache)),
        !r ==> *final(state) == (ConsoleState { suggestion_index: None, ..*old(state) })
            && *final(cache) == *old(cache),
        r ==> final(state).buf@ == old(cache).predictions_cache@[selected_prediction_index(
            *old(state),
            *old(cache),
        )]@ && popup_cleared(
            ConsoleState { buf: final(state).buf, ..*old(state) },
            *old(cache),
            *final(state),
            *final(cache),
        ),
{
    if cache.predictions_cache.len() == 0 || cache.prediction_matches_buffer {
        state.suggestion_index = None;
        return false;
    }
    let wanted = match state.suggestion_index {
        Some(i) => i,
        None => 0,
    };
    let last = cache.predictions_cache.len() - 1;
    let index = if wanted < last {
        wanted
    } else {
        last
    };
    state.buf = cache.predictions_cache[index].clone();
    clear_prediction_popup(state, cache);
    true
}

/// The highlight after moving it by `direction` rows from the current one (the first when none
/// is highlighted), wrapping around the ends of the list.
pub open spec fn moved_selection(state: ConsoleState, cache: ConsoleCache, direction: isize) -> usize {
    let current = match state.suggestion_index {
        Some(i) => i as isize,
        None => 0isize,
    };
    ((current + direction) % (cache.predictions_cache@.len() as int)) as usize
}

/// The current highlight (the first row when none is), moved by `direction`, fits in `isize`.
pub open spec fn selection_move_in_range(state: ConsoleState, direction: isize) -> bool {
    let current = match state.suggestion_index {
        Some(i) => i as isize,
        None => 0isize,
    };
    isize::MIN <= current + direction <= isize::MAX
}

/// Moves the highlight by `direction` rows with wraparound; returns whether there were
/// selectable predictions (without them the highlight is dropped).
pub fn move_suggestion_selection(state: &mut ConsoleState, cache: &ConsoleCache, direction: isize) -> (r: bool)
    requires
        cache.predictions_cache@.len() <= isize::MAX,
        selection_move_in_range(*old(state), direction),
    ensures
        r == popup_selectable(*cache),
        !r ==> *final(state) == (ConsoleState { suggestion_index: None, ..*old(state) }),
        r ==> *final(state) == (ConsoleState {
            suggestion_index: Some(moved_selection(*old(state), *cache, direction)),
            ..*old(state)
        }),
        r ==> moved_selection(*old(state), *cache, direction) < cache.predictions_cache@.len(),
{
    if cache.predictions_cache.len() == 0 || cache.prediction_matches_buffer {
        state.suggestion_index = None;
        return false;
    }
    let len = cache.predictions_cache.len();
    let current = match state.suggestion_index {
        Some(i) => i as isize,
        None => 0isize,
    };
    let sum = current + direction;
    let next: usize = if sum >= 0 {
        (sum as usize) % len
    } else {
        let t = (-(sum + 1)) as usize;
        let a = t % len;
        proof {
            let s = sum as int;
            let l = len as int;
            let ti = t as int;
            let q = ti / l;
            assert(ti == q * l + a) by (nonlinear_arith)
                requires
                    l > 0,
                    q == ti / l,
                    a as int == ti % l,
            ;
            assert(s == (-(q + 1)) * l + (l - 1 - a)) by (nonlinear_arith)
                requires
                    ti == q * l + a,
                    ti == -(s + 1),
            ;
            assert(s % l == l - 1 - a) by (nonlinear_arith)
                requires
                    s == (-(q + 1)) * l + (l - 1 - a),
                    0 <= l - 1 - a < l,
            ;
        }
        len - 1 - a
    };
    state.suggestion_index = Some(next);
    true
}

/// Tab accepts the highlighted suggestion.
pub fn handle_tab_completion(state: &mut ConsoleState, cache: &mut ConsoleCache) -> (r: bool)
    ensures
        r == popup_selectable(*old(cache)),
        !r ==> *final(state) == (ConsoleState { suggestion_index: None, ..*old(state) })
            && *final(cache) == *old(cache),
        r ==> final(state).buf@ == old(cache).predictions_cache@[selected_prediction_index(
            *old(state),
            *old(cache),
        )]@ && popup_cleared(
            ConsoleState { buf: final(state).buf, ..*old(state) },
            *old(cache),
            *final(state),
            *final(cache),
        ),
{
    accept_selected_suggestion(state, cache)
}

/// The popup is drawn: the input has focus and text, and it offers selectable predictions.
pub open spec fn popup_visible(has_focus: bool, state: ConsoleState, cache: ConsoleCache) -> bool {
    has_focus && state.buf@.len() > 0 && popup_selectable(cache)
}

/// Whether the suggestions popup is drawn.
pub fn should_show_suggestions_popup(has_focus: bool, state: &ConsoleState, cache: &ConsoleCache) -> (r: bool)
    ensures
        r == popup_visible(has_focus, *state, *cache),
{
    has_focus && !state.buf.as_str().is_empty() && !cache.prediction_matches_buffer
        && cache.predictions_cache.len() != 0
}

/// The predictions for the words of an input line: the words joined with single spaces,
/// completed against the registered entries.
pub open spec fn predictions_for_words(
    words: Seq<Seq<char>>,
    entries: Seq<Seq<char>>,
    suggestion_count: usize,
) -> Seq<Seq<char>> {
    spec_completion_candidates(join_words(words, seq![' ']), entries, suggestion_count as int)
}

/// The predictions for an input line: its shell words joined with single spaces, completed
/// against the registered entries.
pub open spec fn predictions_for(line: Seq<char>, entries: Seq<Seq<char>>, suggestion_count: usize) -> Seq<
    Seq<char>,
> {
    predictions_for_words(shell_words(line), entries, suggestion_count)
}

/// The state after storing `preds` as the predictions under `key`: the first prediction is
/// highlighted unless one equals the line.
pub open spec fn predictions_stored(
    old_state: ConsoleState,
    old_cache: ConsoleCache,
    new_state: ConsoleState,
    new_cache: ConsoleCache,
    preds: Seq<Seq<char>>,
    key: u64,
) -> bool {
    let matches = preds.contains(old_state.buf@);
    &&& string_views(new_cache.predictions_cache@) == preds
    &&& new_cache == (ConsoleCache {
        predictions_cache: new_cache.predictions_cache,
        predictions_hash_key: Some(key),
        prediction_matches_buffer: matches,
        ..old_cache
    })
    &&& new_state == (ConsoleState {
        suggestion_index: if matches {
            None
        } else if preds.len() > 0 {
            Some(0)
        } else {
            None
        },
        ..old_state
    })
}

/// The state after storing the predictions for the line's `words` under `key`: the first
/// prediction is highlighted unless one equals the line.
pub open spec fn predictions_applied(
    old_state: ConsoleState,
    old_cache: ConsoleCache,
    new_state: ConsoleState,
    new_cache: ConsoleCache,
    words: Seq<Seq<char>>,
    suggestion_count: usize,
    key: u64,
) -> bool {
    predictions_stored(
        old_state,
        old_cache,
        new_state,
        new_cache,
        predictions_for_words(words, string_views(old_cache.completion_entries@), suggestion_count),
        key,
    )
}

/// A line that is one plain ASCII word with no surrounding whitespace: the shell lexer keeps it
/// as its only word, and its lowercase form is its ASCII lowering.
pub open spec fn plain_ascii_line(line: Seq<char>) -> bool {
    plain_shell_word(line) && all_ascii(line) && trim_seq(line) == line
}

/// The predictions for a plain ASCII line among ASCII entries.
pub open spec fn plain_line_predictions(
    line: Seq<char>,
    entries: Seq<Seq<char>>,
    suggestion_count: usize,
) -> Seq<Seq<char>> {
    spec_ascii_completion_candidates(line, entries, suggestion_count as int)
}

/// The state after recomputing the predictions for the input line, where `key` is the key of
/// the input line: an empty line closes the popup; a line whose key is the stored one keeps
/// everything; otherwise the predictions are recomputed, the key stored, and the first one
/// highlighted unless one equals the line.
pub open spec fn predictions_recomputed(
    old_state: ConsoleState,
    old_cache: ConsoleCache,
    new_state: ConsoleState,
    new_cache: ConsoleCache,
    suggestion_count: usize,
    key: u64,
) -> bool {
    if old_state.buf@.len() == 0 {
        popup_cleared(old_state, old_cache, new_state, new_cache)
    } else if old_cache.predictions_hash_key == Some(key) {
        new_state == old_state && new_cache == old_cache
    } else {
        predictions_applied(
            old_state,
            old_cache,
            new_state,
            new_cache,
            shell_words(old_state.buf@),
            suggestion_count,
            key,
        )
    }
}

/// Recomputes the predictions for the input line whose key is `key`, unless they were computed
/// for that key already.
pub fn recompute_predictions_for_key(
    state: &mut ConsoleState,
    cache: &mut ConsoleCache,
    suggestion_count: usize,
    key: u64,
)
    ensures
        predictions_recomputed(
            *old(state),
            *old(cache),
            *final(state),
            *final(cache),
            suggestion_count,
            key,
        ),
        plain_ascii_line(old(state).buf@) && all_ascii_entries(
            string_views(old(cache).completion_entries@),
        ) && old(cache).predictions_hash_key != Some(key) ==> predictions_stored(
            *old(state),
            *old(cache),
            *final(state),
            *final(cache),
            plain_line_predictions(
                old(state).buf@,
                string_views(old(cache).completion_entries@),
                suggestion_count,
            ),
            key,
        ),
{
    if state.buf.as_str().is_empty() {
        clear_prediction_popup(state, cache);
        return;
    }
    let recompute = match cache.predictions_hash_key {
        Some(stored) => stored != key,
        None => true,
    };
    if recompute {
        let words = split_shell_words(state.buf.as_str());
        proof {
            let line = state.buf@;
            if plain_shell_word(line) {
                let ws = seq![line];
                assert(join_words(ws, seq![' ']) == line);
                assert(string_views(words@) == ws);
                assert(join_words(string_views(words@), seq![' ']) == line);
            }
        }
        predict_from_words(state, cache, words.as_slice(), suggestion_count, key);
    }
}

/// Stores the predictions for the line whose shell words are `words` under `key`, and
/// highlights the first one unless one equals the line.
pub fn predict_from_words(
    state: &mut ConsoleState,
    cache: &mut ConsoleCache,
    words: &[String],
    suggestion_count: usize,
    key: u64,
)
    ensures
        predictions_applied(
            *old(state),
            *old(cache),
            *final(state),
            *final(cache),
            string_views(words@),
            suggestion_count,
            key,
        ),
        all_ascii(trim_seq(join_words(string_views(words@), seq![' '])))
            && all_ascii_entries(string_views(old(cache).completion_entries@)) ==> predictions_stored(
            *old(state),
            *old(cache),
            *final(state),
            *final(cache),
            spec_ascii_completion_candidates(
                join_words(string_views(words@), seq![' ']),
                string_views(old(cache).completion_entries@),
                suggestion_count as int,
            ),
            key,
        ),
{
    let query = join_strings(words, " ");
    proof {
        reveal_strlit(" ");
        assert(" "@ =~= seq![' ']);
    }
    let predictions = completion_candidates(
        query.as_str(),
        cache.completion_entries.as_slice(),
        suggestion_count,
    );
    let ghost preds = string_views(predictions@);
    let mut matches = false;
    let mut i: usize = 0;
    while i < predictions.len()
        invariant
            i <= predictions@.len(),
            preds == string_views(predictions@),
            matches == preds.take(i as int).contains(state.buf@),
        decreases predictions@.len() - i,
    {
        let ghost prefix = preds.take(i as int);
        let ghost next = preds.take(i + 1);
        proof {
            assert(next =~= prefix.push(preds[i as int]));
            assert(preds[i as int] == predictions@[i as int]@);
            assert(next[i as int] == preds[i as int]);
            assert forall|j: int| 0 <= j < prefix.len() implies next[j] == prefix[j] by {}
            if prefix.contains(state.buf@) {
                let j = choose|j: int| 0 <= j < prefix.len() && prefix[j] == state.buf@;
                assert(next[j] == state.buf@);
            }
            if next.contains(state.buf@) && !prefix.contains(state.buf@) {
                let j = choose|j: int| 0 <= j < next.len() && next[j] == state.buf@;
                if j < i {
                    assert(prefix[j] == state.buf@);
                }
            }
        }
        if predictions[i] == state.buf {
            matches = true;
        }
        i = i + 1;
    }
    assert(preds.take(predictions@.len() as int) =~= preds);
    cache.predictions_cache = predictions;
    cache.predictions_hash_key = Some(key);
    cache.prediction_matches_buffer = false;
    state.suggestion_index = None;
    if matches {
        cache.prediction_matches_buffer = true;
    } else if cache.predictions_cache.len() != 0 {
        state.suggestion_index = Some(0);
    }
}

/// Recompute predictions for the console based on the current buffer content.
/// If the buffer does not change the predictions are not recomputed: the line is known by its
/// hash key, and a line whose key is the stored one keeps the predictions. With no key stored,
/// the predictions are always computed; for a line that is one plain ASCII word among ASCII
/// entries they are stated in full.
pub fn recompute_predictions(state: &mut ConsoleState, cache: &mut ConsoleCache, suggestion_count: usize)
    ensures
        exists|key: u64|
            predictions_recomputed(
                *old(state),
                *old(cache),
                *final(state),
                *final(cache),
                suggestion_count,
                key,
            ),
        plain_ascii_line(old(state).buf@) && all_ascii_entries(
            string_views(old(cache).completion_entries@),
        ) && old(cache).predictions_hash_key is None ==> exists|key: u64|
            predictions_stored(
                *old(state),
                *old(cache),
                *final(state),
                *final(cache),
                plain_line_predictions(
                    old(state).buf@,
                    string_views(old(cache).completion_entries@),
                    suggestion_count,
                ),
                key,
            ),
{
    if state.buf.as_str().is_empty() {
        clear_prediction_popup(state, cache);
        assert(predictions_recomputed(*old(state), *old(cache), *state, *cache, suggestion_count, 0));
        return;
    }
    let key = buffer_hash(&state.buf);
    recompute_predictions_for_key(state, cache, suggestion_count, key);
}

} // verus!
