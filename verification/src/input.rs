//! What the console does with the keys pressed while it is open: submitting the input line,
//! walking the history and the suggestions, clearing, and opening and closing the console.

use vstd::prelude::*;

use crate::external::{shell_words, split_shell_words};
use crate::state::{ConsoleCache, ConsoleCommandEntered, ConsoleOpen, ConsoleSettings, ConsoleState};
use crate::suggestions::{
    accept_selected_suggestion, move_suggestion_selection, moved_selection, popup_cleared,
    popup_selectable, selected_prediction_index, selection_move_in_range,
};
use crate::text::{string_views, trim, trim_seq};

verus! {

/// The history after submitting `line`: it comes right after the draft slot, and the oldest
/// entry leaves when more than `history_size` entries follow the draft.
pub open spec fn history_after_submit(
    history: Seq<Seq<char>>,
    line: Seq<char>,
    history_size: usize,
) -> Seq<Seq<char>> {
    let h = history.insert(1, line);
    if h.len() > history_size + 1 {
        h.drop_last()
    } else {
        h
    }
}

/// Whether `name` is one of the strings in `names`.
fn contains_string(names: &[String], name: &String) -> (r: bool)
    ensures
        r == string_views(names@).contains(name@),
{
    let ghost all = string_views(names@);
    let mut i: usize = 0;
    while i < names.len()
        invariant
            i <= names@.len(),
            all == string_views(names@),
            forall|j: int| 0 <= j < i ==> all[j] != name@,
        decreases names@.len() - i,
    {
        assert(all[i as int] == names@[i as int]@);
        if names[i] == *name {
            assert(all[i as int] == name@);
            return true;
        }
        i = i + 1;
    }
    false
}

/// Whether the line's shell words name a registered command: there is a first word, and it
/// is one of the names.
pub open spec fn names_registered_command(words: Seq<Seq<char>>, command_names: Seq<Seq<char>>) -> bool {
    words.len() > 0 && command_names.contains(words[0])
}

/// Sends the words of a submitted line on as a command when the first one is a registered
/// name (the rest are its arguments); reports an invalid command in the scrollback when it is
/// not; does nothing for a line without words.
pub fn dispatch_command_words(
    command_names: &[String],
    state: &mut ConsoleState,
    words: Vec<String>,
) -> (entered: Option<ConsoleCommandEntered>)
    ensures
        ({
            let w = string_views(words@);
            let recognized = names_registered_command(w, string_views(command_names@));
            &&& entered is Some <==> recognized
            &&& entered matches Some(e) ==> e.command_name@ == w[0] && string_views(e.args@)
                == w.drop_first()
            &&& string_views(final(state).scrollback@) == string_views(old(state).scrollback@)
                + if w.len() > 0 && !recognized {
                seq!["error: Invalid command"@]
            } else {
                Seq::<Seq<char>>::empty()
            }
            &&& *final(state) == (ConsoleState { scrollback: final(state).scrollback, ..*old(state) })
        }),
{
    let ghost w = string_views(words@);
    let ghost before = string_views(state.scrollback@);
    let mut args = words;
    if args.len() > 0 {
        let command_name = args.remove(0);
        assert(string_views(args@) =~= w.drop_first());
        if contains_string(command_names, &command_name) {
            assert(string_views(state.scrollback@) =~= before + Seq::<Seq<char>>::empty());
            Some(ConsoleCommandEntered { command_name, args })
        } else {
            state.scrollback.push(String::from_str("error: Invalid command"));
            assert(string_views(state.scrollback@) =~= before + seq!["error: Invalid command"@]);
            None
        }
    } else {
        assert(string_views(state.scrollback@) =~= before + Seq::<Seq<char>>::empty());
        None
    }
}

/// Enter on the input line. A highlighted suggestion is accepted first. Otherwise the line is
/// echoed to the scrollback, a non-blank line is recorded in the history and parsed with shell
/// syntax, and the command is returned when its name is registered; the popup closes.
pub fn handle_enter(
    settings: &ConsoleSettings,
    command_names: &[String],
    state: &mut ConsoleState,
    cache: &mut ConsoleCache,
) -> (entered: Option<ConsoleCommandEntered>)
    requires
        old(state).wf(),
        !popup_selectable(*old(cache)) && trim_seq(old(state).buf@).len() > 0
            ==> settings.history_size < usize::MAX,
    ensures
        final(state).wf(),
        old(state).history@.len() <= settings.history_size + 1 ==> final(state).history@.len()
            <= settings.history_size + 1,
        popup_selectable(*old(cache)) ==> {
            &&& entered is None
            &&& final(state).buf@ == old(cache).predictions_cache@[selected_prediction_index(
                *old(state),
                *old(cache),
            )]@
            &&& popup_cleared(
                ConsoleState { buf: final(state).buf, ..*old(state) },
                *old(cache),
                *final(state),
                *final(cache),
            )
        },
        !popup_selectable(*old(cache)) ==> {
            let line = old(state).buf@;
            let words = shell_words(line);
            let recognized = words.len() > 0 && string_views(command_names@).contains(words[0]);
            &&& popup_cleared(
                ConsoleState {
                    buf: final(state).buf,
                    scrollback: final(state).scrollback,
                    history: final(state).history,
                    history_index: final(state).history_index,
                    ..*old(state)
                },
                *old(cache),
                *final(state),
                *final(cache),
            )
            &&& if trim_seq(line).len() == 0 {
                &&& entered is None
                &&& string_views(final(state).scrollback@) == string_views(
                    old(state).scrollback@,
                ).push(Seq::<char>::empty())
                &&& final(state).buf == old(state).buf
                &&& final(state).history == old(state).history
                &&& final(state).history_index == old(state).history_index
            } else {
                &&& string_views(final(state).scrollback@) == string_views(
                    old(state).scrollback@,
                ).push(settings.symbol@ + line) + if words.len() > 0 && !recognized {
                    seq!["error: Invalid command"@]
                } else {
                    Seq::<Seq<char>>::empty()
                }
                &&& string_views(final(state).history@) == history_after_submit(
                    string_views(old(state).history@),
                    line,
                    settings.history_size,
                )
                &&& final(state).history_index == 0
                &&& final(state).buf@ == Seq::<char>::empty()
                &&& entered is Some <==> recognized
                &&& entered matches Some(e) ==> e.command_name@ == words[0] && string_views(
                    e.args@,
                ) == words.drop_first()
            }
        },
{
    if accept_selected_suggestion(state, cache) {
        return None;
    }
    let ghost unselected = *state;
    let mut entered: Option<ConsoleCommandEntered> = None;
    let trimmed = trim(state.buf.as_str());
    if trimmed.as_str().is_empty() {
        state.scrollback.push(String::new());
        assert(string_views(state.scrollback@) =~= string_views(unselected.scrollback@).push(
            Seq::<char>::empty(),
        ));
    } else {
        let ghost line = state.buf@;
        let mut msg = String::from_str(settings.symbol.as_str());
        msg.append(state.buf.as_str());
        state.scrollback.push(msg);
        let ghost echoed = string_views(state.scrollback@);
        assert(echoed =~= string_views(unselected.scrollback@).push(settings.symbol@ + line));
        let cmd_string = state.buf.clone();
        state.history.insert(1, cmd_string);
        if state.history.len() > settings.history_size + 1 {
            state.history.pop_back();
        }
        assert(string_views(state.history@) =~= history_after_submit(
            string_views(unselected.history@),
            line,
            settings.history_size,
        ));
        state.history_index = 0;
        let args = split_shell_words(state.buf.as_str());
        entered = dispatch_command_words(command_names, state, args);
        state.buf = String::new();
    }
    crate::suggestions::clear_prediction_popup(state, cache);
    entered
}

/// The history as arrow up leaves it: a non-blank line typed in the draft slot (index 0) is
/// saved there before moving to an older entry.
pub open spec fn history_with_draft(history: Seq<String>, history_index: usize, buf: String) -> Seq<
    String,
> {
    if history_index == 0 && trim_seq(buf@).len() > 0 {
        history.update(0, buf)
    } else {
        history
    }
}

/// History, shown entry and input line after arrow up: the draft is saved, and the next older
/// entry is shown.
pub open spec fn history_up(history: Seq<String>, history_index: usize, buf: String) -> (
    Seq<String>,
    usize,
    String,
) {
    let saved = history_with_draft(history, history_index, buf);
    (saved, (history_index + 1) as usize, saved[history_index + 1])
}

/// Shown entry and input line after arrow down: the next newer entry is shown.
pub open spec fn history_down(history: Seq<String>, history_index: usize) -> (usize, String) {
    ((history_index - 1) as usize, history[history_index - 1])
}

/// The input state after moving the suggestion highlight by `direction` (dropped when nothing
/// is selectable).
pub open spec fn selection_moved(state: ConsoleState, cache: ConsoleCache, direction: isize) -> ConsoleState {
    if popup_selectable(cache) {
        ConsoleState { suggestion_index: Some(moved_selection(state, cache, direction)), ..state }
    } else {
        ConsoleState { suggestion_index: None, ..state }
    }
}

/// Arrow up or down on the focused input line: with the popup shown they move the highlight;
/// otherwise they walk the history, up towards older entries (saving a non-blank draft first)
/// and down towards the draft. Returns whether the input line was replaced from the history.
pub fn handle_arrow_keys(
    state: &mut ConsoleState,
    cache: &ConsoleCache,
    has_focus: bool,
    popup_visible: bool,
    arrow_up: bool,
    arrow_down: bool,
) -> (replaced: bool)
    requires
        old(state).wf(),
        cache.predictions_cache@.len() <= isize::MAX,
        has_focus && popup_visible && arrow_down ==> selection_move_in_range(*old(state), 1isize),
        has_focus && popup_visible && arrow_up ==> selection_move_in_range(*old(state), -1isize),
    ensures
        final(state).wf(),
        final(state).history@.len() == old(state).history@.len(),
        if has_focus && popup_visible && arrow_down {
            !replaced && *final(state) == selection_moved(*old(state), *cache, 1isize)
        } else if has_focus && popup_visible && arrow_up {
            !replaced && *final(state) == selection_moved(*old(state), *cache, -1isize)
        } else if has_focus && arrow_up && old(state).history@.len() > 1
            && old(state).history_index < old(state).history@.len() - 1 {
            let (history, index, buf) = history_up(
                old(state).history@,
                old(state).history_index,
                old(state).buf,
            );
            &&& replaced
            &&& final(state).history@ == history
            &&& final(state).history_index == index
            &&& final(state).buf == buf
            &&& final(state).scrollback == old(state).scrollback
            &&& final(state).suggestion_index == old(state).suggestion_index
        } else if has_focus && arrow_down && old(state).history_index > 0 {
            &&& replaced
            &&& *final(state) == (ConsoleState {
                buf: history_down(old(state).history@, old(state).history_index).1,
                history_index: history_down(old(state).history@, old(state).history_index).0,
                ..*old(state)
            })
        } else {
            !replaced && *final(state) == *old(state)
        },
{
    if has_focus && popup_visible && arrow_down {
        move_suggestion_selection(state, cache, 1);
        false
    } else if has_focus && popup_visible && arrow_up {
        move_suggestion_selection(state, cache, -1);
        false
    } else if has_focus && arrow_up && state.history.len() > 1 && state.history_index
        < state.history.len() - 1 {
        if state.history_index == 0 {
            let trimmed = trim(state.buf.as_str());
            if !trimmed.as_str().is_empty() {
                let draft = state.buf.clone();
                let ghost before = state.history@;
                state.history.pop_front();
                state.history.push_front(draft);
                assert(state.history@ =~= before.update(0, draft));
            }
        }
        state.history_index = state.history_index + 1;
        state.buf = state.history[state.history_index].clone();
        true
    } else if has_focus && arrow_down && state.history_index > 0 {
        state.history_index = state.history_index - 1;
        state.buf = state.history[state.history_index].clone();
        true
    } else {
        false
    }
}

/// Tab on the focused input line: with Shift and the popup shown it moves the highlight up;
/// otherwise it accepts the highlighted suggestion. Returns whether one was accepted.
pub fn handle_tab_keys(
    state: &mut ConsoleState,
    cache: &mut ConsoleCache,
    has_focus: bool,
    popup_visible: bool,
    shift_tab_pressed: bool,
    tab_pressed: bool,
) -> (accepted: bool)
    requires
        old(cache).predictions_cache@.len() <= isize::MAX,
        has_focus && popup_visible && shift_tab_pressed ==> selection_move_in_range(
            *old(state),
            -1isize,
        ),
    ensures
        if has_focus && popup_visible && shift_tab_pressed {
            !accepted && *final(state) == selection_moved(*old(state), *old(cache), -1isize)
                && *final(cache) == *old(cache)
        } else if has_focus && tab_pressed {
            &&& accepted == popup_selectable(*old(cache))
            &&& !accepted ==> *final(state) == (ConsoleState {
                suggestion_index: None,
                ..*old(state)
            }) && *final(cache) == *old(cache)
            &&& accepted ==> final(state).buf@ == old(cache).predictions_cache@[selected_prediction_index(
                *old(state),
                *old(cache),
            )]@ && popup_cleared(
                ConsoleState { buf: final(state).buf, ..*old(state) },
                *old(cache),
                *final(state),
                *final(cache),
            )
        } else {
            !accepted && *final(state) == *old(state) && *final(cache) == *old(cache)
        },
{
    if has_focus && popup_visible && shift_tab_pressed {
        move_suggestion_selection(state, cache, -1);
        false
    } else if has_focus && tab_pressed {
        crate::suggestions::handle_tab_completion(state, cache)
    } else {
        false
    }
}

/// Ctrl+C clears the input line and Ctrl+L clears the scrollback; returns whether either
/// applied, which ends the frame's input handling.
pub fn handle_clear_shortcuts(
    state: &mut ConsoleState,
    ctrl_held: bool,
    c_pressed: bool,
    l_pressed: bool,
) -> (handled: bool)
    ensures
        handled == (ctrl_held && (c_pressed || l_pressed)),
        ctrl_held && c_pressed ==> final(state).buf@ == Seq::<char>::empty() && *final(state) == (
        ConsoleState { buf: final(state).buf, ..*old(state) }),
        ctrl_held && !c_pressed && l_pressed ==> final(state).scrollback@.len() == 0
            && *final(state) == (ConsoleState { scrollback: final(state).scrollback, ..*old(state) }),
        !handled ==> *final(state) == *old(state),
{
    if ctrl_held && c_pressed {
        state.buf = String::new();
        return true;
    }
    if ctrl_held && l_pressed {
        state.scrollback = Vec::new();
        return true;
    }
    false
}

/// The console toggles when its key is pressed and either it is open or no other widget wants
/// the keyboard. Returns whether it toggled.
pub fn toggle_console(console_open: &mut ConsoleOpen, pressed: bool, wants_keyboard_input: bool) -> (changed: bool)
    ensures
        changed == (pressed && (old(console_open).open || !wants_keyboard_input)),
        final(console_open).open == (old(console_open).open != changed),
{
    if pressed && (console_open.open || !wants_keyboard_input) {
        console_open.open = !console_open.open;
        true
    } else {
        false
    }
}

/// Mouse buttons are withheld from the game when blocking is on and the pointer is over the
/// console or the console wants it.
pub fn mouse_input_blocked(block_mouse: bool, pointer_over_area: bool, wants_pointer_input: bool) -> (r: bool)
    ensures
        r == (block_mouse && (pointer_over_area || wants_pointer_input)),
{
    block_mouse && (pointer_over_area || wants_pointer_input)
}

/// Keys are withheld from the game when blocking is on and the console wants the keyboard.
pub fn keyboard_input_blocked(block_keyboard: bool, wants_keyboard_input: bool) -> (r: bool)
    ensures
        r == (block_keyboard && wants_keyboard_input),
{
    block_keyboard && wants_keyboard_input
}

} // verus!
