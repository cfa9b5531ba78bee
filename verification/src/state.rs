//! The console's data: its settings, input state, completion cache and messages.

use trie_rs::Trie;
use vstd::prelude::*;

use crate::text::string_views;

verus! {

/// The console settings that the input and completion logic reads.
pub struct ConsoleSettings {
    /// Number of commands to store in history
    pub history_size: usize,
    /// Line prefix symbol
    pub symbol: String,
    /// allows window to be collapsed
    pub collapsible: bool,
    /// Title name of console window
    pub title_name: String,
    /// allows window to be resizable
    pub resizable: bool,
    /// allows window to be movable
    pub moveable: bool,
    /// show the title bar or not
    pub show_title_bar: bool,
    /// Background color of console window, premultiplied RGBA
    pub background_color: [u8; 4],
    /// Foreground (text) color, premultiplied RGBA
    pub foreground_color: [u8; 4],
    /// Number of suggested commands to show
    pub num_suggestions: usize,
    /// Background color of the suggestions popup, premultiplied RGBA
    pub suggestion_background_color: [u8; 4],
    /// Border color of the suggestions popup, premultiplied RGBA
    pub suggestion_border_color: [u8; 4],
    /// Background color of the selected suggestion row, premultiplied RGBA
    pub suggestion_selected_background_color: [u8; 4],
    /// Blocks mouse from clicking through console
    pub block_mouse: bool,
    /// Blocks keyboard from interacting outside console when active
    pub block_keyboard: bool,
    /// Custom completion sequences,
    /// for example [vec!["custom", "foo"]], will complete `custom foo` when typing `custom`
    pub arg_completions: Vec<Vec<String>>,
}

impl Default for ConsoleSettings {
    fn default() -> (r: Self)
        ensures
            r.history_size == 20,
            r.symbol@ == "$ "@,
            !r.collapsible,
            r.title_name@ == "Console"@,
            r.resizable,
            r.moveable,
            r.show_title_bar,
            r.background_color == [0u8, 0u8, 0u8, 102u8],
            r.foreground_color == [220u8, 220u8, 220u8, 255u8],
            r.num_suggestions == 4,
            r.suggestion_background_color == [0u8, 0u8, 0u8, 230u8],
            r.suggestion_border_color == [96u8, 96u8, 96u8, 255u8],
            r.suggestion_selected_background_color == [48u8, 92u8, 150u8, 255u8],
            !r.block_mouse,
            !r.block_keyboard,
            r.arg_completions@.len() == 0,
    {
        ConsoleSettings {
            history_size: 20,
            symbol: String::from_str("$ "),
            collapsible: false,
            title_name: String::from_str("Console"),
            resizable: true,
            moveable: true,
            show_title_bar: true,
            background_color: [0, 0, 0, 102],
            foreground_color: [220, 220, 220, 255],
            num_suggestions: 4,
            suggestion_background_color: [0, 0, 0, 230],
            suggestion_border_color: [96, 96, 96, 255],
            suggestion_selected_background_color: [48, 92, 150, 255],
            block_mouse: false,
            block_keyboard: false,
            arg_completions: Vec::new(),
        }
    }
}

/// The strings of each completion sequence.
pub open spec fn completion_views(arg_completions: Seq<Vec<String>>) -> Seq<Seq<Seq<char>>> {
    arg_completions.map_values(|c: Vec<String>| string_views(c@))
}

fn clone_strings(v: &Vec<String>) -> (r: Vec<String>)
    ensures
        string_views(r@) == string_views(v@),
{
    let mut r: Vec<String> = Vec::new();
    let mut i: usize = 0;
    while i < v.len()
        invariant
            i <= v@.len(),
            r@.len() == i,
            forall|k: int| 0 <= k < i ==> #[trigger] r@[k]@ == v@[k]@,
        decreases v@.len() - i,
    {
        r.push(v[i].clone());
        i = i + 1;
    }
    assert(string_views(r@) =~= string_views(v@));
    r
}

impl Clone for ConsoleSettings {
    fn clone(&self) -> (r: Self)
        ensures
            r.history_size == self.history_size,
            r.symbol@ == self.symbol@,
            r.collapsible == self.collapsible,
            r.title_name@ == self.title_name@,
            r.resizable == self.resizable,
            r.moveable == self.moveable,
            r.show_title_bar == self.show_title_bar,
            r.background_color == self.background_color,
            r.foreground_color == self.foreground_color,
            r.num_suggestions == self.num_suggestions,
            r.suggestion_background_color == self.suggestion_background_color,
            r.suggestion_border_color == self.suggestion_border_color,
            r.suggestion_selected_background_color == self.suggestion_selected_background_color,
            r.block_mouse == self.block_mouse,
            r.block_keyboard == self.block_keyboard,
            completion_views(r.arg_completions@) == completion_views(self.arg_completions@),
    {
        let mut arg_completions: Vec<Vec<String>> = Vec::new();
        let mut i: usize = 0;
        while i < self.arg_completions.len()
            invariant
                i <= self.arg_completions@.len(),
                arg_completions@.len() == i,
                forall|k: int|
                    0 <= k < i ==> string_views(#[trigger] arg_completions@[k]@) == string_views(
                        self.arg_completions@[k]@,
                    ),
            decreases self.arg_completions@.len() - i,
        {
            arg_completions.push(clone_strings(&self.arg_completions[i]));
            i = i + 1;
        }
        assert(completion_views(arg_completions@) =~= completion_views(self.arg_completions@));
        ConsoleSettings {
            history_size: self.history_size,
            symbol: self.symbol.clone(),
            collapsible: self.collapsible,
            title_name: self.title_name.clone(),
            resizable: self.resizable,
            moveable: self.moveable,
            show_title_bar: self.show_title_bar,
            background_color: self.background_color,
            foreground_color: self.foreground_color,
            num_suggestions: self.num_suggestions,
            suggestion_background_color: self.suggestion_background_color,
            suggestion_border_color: self.suggestion_border_color,
            suggestion_selected_background_color: self.suggestion_selected_background_color,
            block_mouse: self.block_mouse,
            block_keyboard: self.block_keyboard,
            arg_completions,
        }
    }
}

/// Console open state
pub struct ConsoleOpen {
    /// Console open
    pub open: bool,
}

impl Default for ConsoleOpen {
    fn default() -> (r: Self)
        ensures
            !r.open,
    {
        ConsoleOpen { open: false }
    }
}

/// The input line, scrollback, command history and suggestion selection of the console.
pub struct ConsoleState {
    /// The line being typed.
    pub buf: String,
    /// The lines shown above the input line.
    pub scrollback: Vec<String>,
    /// Entered commands, most recent first after the draft kept at index 0.
    pub history: std::collections::VecDeque<String>,
    /// The history entry shown in the input line; 0 is the draft.
    pub history_index: usize,
    /// The highlighted suggestion, if any.
    pub suggestion_index: Option<usize>,
}

impl ConsoleState {
    /// The history always holds the draft slot, and the shown entry exists.
    pub open spec fn wf(&self) -> bool {
        &&& self.history@.len() >= 1
        &&& self.history_index < self.history@.len()
    }
}

impl Default for ConsoleState {
    fn default() -> (r: Self)
        ensures
            r.buf@ == Seq::<char>::empty(),
            r.scrollback@.len() == 0,
            string_views(r.history@) == seq![Seq::<char>::empty()],
            r.history_index == 0,
            r.suggestion_index is None,
            r.wf(),
    {
        let mut history = std::collections::VecDeque::new();
        history.push_back(String::new());
        let r = ConsoleState {
            buf: String::new(),
            scrollback: Vec::new(),
            history,
            history_index: 0,
            suggestion_index: None,
        };
        assert(string_views(r.history@) =~= seq![Seq::<char>::empty()]);
        r
    }
}

/// Completion data derived from the registered commands, and the predictions shown for the
/// current input line.
pub struct ConsoleCache {
    /// Trie of the registered command names and completions.
    pub commands_trie: Option<Trie<u8>>,
    /// The registered command names and completions, sorted and without repeats.
    pub completion_entries: Vec<String>,
    /// Key of the input line for which the predictions were computed.
    pub predictions_hash_key: Option<u64>,
    /// The predictions shown for the input line, best first.
    pub predictions_cache: Vec<String>,
    /// Whether one of the predictions equals the input line exactly.
    pub prediction_matches_buffer: bool,
}

impl Default for ConsoleCache {
    fn default() -> (r: Self)
        ensures
            r.commands_trie is None,
            r.completion_entries@.len() == 0,
            r.predictions_hash_key is None,
            r.predictions_cache@.len() == 0,
            !r.prediction_matches_buffer,
    {
        ConsoleCache {
            commands_trie: None,
            completion_entries: Vec::new(),
            predictions_hash_key: None,
            predictions_cache: Vec::new(),
            prediction_matches_buffer: false,
        }
    }
}

/// Events to print to the console.
pub struct PrintConsoleLine {
    /// Console line
    pub line: String,
}

impl PrintConsoleLine {
    /// Creates a new console line to print.
    pub fn new(line: String) -> (r: Self)
        ensures
            r.line == line,
    {
        Self { line }
    }
}

/// Parsed raw console command into `command` and `args`.
pub struct ConsoleCommandEntered {
    /// the command definition
    pub command_name: String,
    /// Raw parsed arguments
    pub args: Vec<String>,
}

} // verus!
