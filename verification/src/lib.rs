//! Command discovery, completion and input handling for an in-game developer console.

pub mod candidates;
pub mod completions;
pub mod external;
pub mod help;
pub mod input;
pub mod keys;
pub mod laws;
pub mod messages;
pub mod order;
pub mod search;
pub mod state;
pub mod styling;
pub mod suggestions;
pub mod text;

pub use candidates::{completion_candidates, rank_lowered_candidates};
pub use completions::init_completions;
pub use help::{command_list_lines, help_lines, list_lines, CommandInfo};
pub use input::{
    dispatch_command_words, handle_arrow_keys, handle_clear_shortcuts, handle_enter,
    handle_tab_keys, keyboard_input_blocked, mouse_input_blocked, toggle_console,
};
pub use keys::{console_key_pressed, ConsoleKey, NativeKey};
pub use messages::{receive_console_line, ConsoleCommand};
pub use search::{
    command_matches_query, completion_rank, contains_or_fuzzy_matches, fuzzy_match_position,
};
pub use state::{
    ConsoleCache, ConsoleCommandEntered, ConsoleOpen, ConsoleSettings, ConsoleState, PrintConsoleLine,
};
pub use styling::{style_segments, ParsedSegment, SegmentStyle, StyledSegment, TextOverride};
pub use suggestions::{
    accept_selected_suggestion, clear_prediction_popup, handle_tab_completion,
    move_suggestion_selection, predict_from_words, recompute_predictions,
    recompute_predictions_for_key,
    should_show_suggestions_popup,
};
