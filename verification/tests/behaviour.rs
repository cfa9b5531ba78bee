use bevy_egui::egui::Color32;
use bevy_console::{
    command_list_lines, command_matches_query, completion_candidates, completion_rank,
    contains_or_fuzzy_matches, fuzzy_match_position, handle_arrow_keys, handle_clear_shortcuts,
    handle_enter, handle_tab_keys, help_lines, init_completions, keyboard_input_blocked,
    list_lines, mouse_input_blocked, move_suggestion_selection, receive_console_line,
    recompute_predictions, toggle_console, CommandInfo, ConsoleCache, ConsoleCommand,
    ConsoleOpen, ConsoleSettings, ConsoleState, PrintConsoleLine,
};
use bevy_console::{style_segments, ParsedSegment, SegmentStyle, TextOverride};
use bevy_console::text::{trim, trim_end};

fn strings(items: &[&str]) -> Vec<String> {
    items.iter().map(|s| s.to_string()).collect()
}

fn info(name: &str, about: Option<&str>) -> CommandInfo {
    CommandInfo {
        name: name.to_string(),
        about: about.map(|a| a.to_string()),
    }
}

#[test]
fn selection_moved_forward_and_back_returns_to_start() {
    let mut state = ConsoleState {
        buf: "scene".to_string(),
        suggestion_index: Some(1),
        ..Default::default()
    };
    let cache = ConsoleCache {
        predictions_cache: strings(&["a", "b", "c", "d"]),
        ..Default::default()
    };
    assert!(move_suggestion_selection(&mut state, &cache, 3));
    assert_eq!(state.suggestion_index, Some(0));
    assert!(move_suggestion_selection(&mut state, &cache, -3));
    assert_eq!(state.suggestion_index, Some(1));
}

#[test]
fn recompute_keeps_selection_while_buffer_is_unchanged() {
    let mut state = ConsoleState {
        buf: "scene".to_string(),
        ..Default::default()
    };
    let mut cache = ConsoleCache {
        completion_entries: strings(&["scene.inspect", "debug.scene.load", "scene.load"]),
        ..Default::default()
    };
    recompute_predictions(&mut state, &mut cache, 8);
    assert_eq!(
        cache.predictions_cache,
        strings(&["scene.load", "scene.inspect", "debug.scene.load"])
    );
    assert_eq!(state.suggestion_index, Some(0));
    assert!(move_suggestion_selection(&mut state, &cache, 1));
    recompute_predictions(&mut state, &mut cache, 8);
    assert_eq!(state.suggestion_index, Some(1));

    state.buf = "scene.l".to_string();
    recompute_predictions(&mut state, &mut cache, 8);
    assert_eq!(cache.predictions_cache, strings(&["scene.load", "debug.scene.load"]));
    assert_eq!(state.suggestion_index, Some(0));

    state.buf.clear();
    recompute_predictions(&mut state, &mut cache, 8);
    assert!(cache.predictions_cache.is_empty());
    assert_eq!(cache.predictions_hash_key, None);
    assert_eq!(state.suggestion_index, None);
}

#[test]
fn recompute_uses_shell_words_of_the_line() {
    let mut state = ConsoleState {
        buf: "'custom'   foo".to_string(),
        ..Default::default()
    };
    let mut cache = ConsoleCache {
        completion_entries: strings(&["custom foo", "custom bar"]),
        ..Default::default()
    };
    recompute_predictions(&mut state, &mut cache, 4);
    assert_eq!(cache.predictions_cache, strings(&["custom foo"]));
}

#[test]
fn candidates_are_limited_and_blank_queries_give_none() {
    let entries = strings(&["scene.load", "scene.inspect", "debug.scene.load"]);
    assert_eq!(completion_candidates("scene", &entries, 1), strings(&["scene.load"]));
    assert_eq!(completion_candidates("   ", &entries, 4), Vec::<String>::new());
    assert_eq!(completion_candidates("scene", &entries, 0), Vec::<String>::new());
    assert_eq!(completion_candidates("  SCENE.I ", &entries, 4), strings(&["scene.inspect"]));
    assert_eq!(completion_candidates("zzz", &entries, 4), Vec::<String>::new());
}

#[test]
fn equal_rank_candidates_order_by_length_then_bytes() {
    let entries = strings(&["abd", "abc", "ab", "abcd"]);
    assert_eq!(
        completion_candidates("ab", &entries, 8),
        strings(&["ab", "abc", "abd", "abcd"])
    );
}

#[test]
fn completion_rank_classes_and_byte_positions() {
    assert_eq!(completion_rank("sce", "scene.inspect"), Some((0, 0)));
    assert_eq!(completion_rank("sce", "debug.scene.load"), Some((1, 6)));
    assert_eq!(completion_rank("sce", "spawn.crop.enable"), Some((2, 0)));
    assert_eq!(completion_rank("sce", "debug.time.set"), None);
    assert_eq!(completion_rank("b", "éb"), Some((1, 2)));
    assert_eq!(completion_rank("", "anything"), Some((0, 0)));
}

#[test]
fn fuzzy_position_is_first_matched_byte() {
    assert_eq!(fuzzy_match_position("b", "éxb"), Some(3));
    assert_eq!(fuzzy_match_position("dsl", "debug.scene.load"), Some(0));
    assert_eq!(fuzzy_match_position("sl", "debug.scene.load"), Some(6));
    assert_eq!(fuzzy_match_position("ls", "load"), None);
    assert_eq!(fuzzy_match_position("", "load"), None);
}

#[test]
fn list_matches_are_in_order_matches() {
    assert!(contains_or_fuzzy_matches("debug.scene.load", "scene"));
    assert!(contains_or_fuzzy_matches("debug.scene.load", "dsl"));
    assert!(contains_or_fuzzy_matches("abc", ""));
    assert!(!contains_or_fuzzy_matches("abc", "ca"));
}

#[test]
fn command_query_ignores_case() {
    assert!(command_matches_query("SCENE", "debug.Scene.load", None));
    assert!(command_matches_query("current", "debug.time.set", Some("Set CURRENT time".to_string())));
    assert!(!command_matches_query("zzz", "debug.time.set", Some("Set time".to_string())));
}

#[test]
fn enter_submits_registered_command_with_shell_arguments() {
    let settings = ConsoleSettings::default();
    let names = strings(&["say", "help"]);
    let mut state = ConsoleState {
        buf: "say \"hello world\" again".to_string(),
        ..Default::default()
    };
    let mut cache = ConsoleCache::default();
    let entered = handle_enter(&settings, &names, &mut state, &mut cache).unwrap();
    assert_eq!(entered.command_name, "say");
    assert_eq!(entered.args, strings(&["hello world", "again"]));
    assert_eq!(state.scrollback, strings(&["$ say \"hello world\" again"]));
    assert_eq!(state.history.len(), 2);
    assert_eq!(state.history[1], "say \"hello world\" again");
    assert_eq!(state.history_index, 0);
    assert!(state.buf.is_empty());
}

#[test]
fn enter_reports_unknown_command_and_echoes_blank_lines() {
    let settings = ConsoleSettings::default();
    let names = strings(&["help"]);
    let mut state = ConsoleState {
        buf: "nosuch 1".to_string(),
        ..Default::default()
    };
    let mut cache = ConsoleCache::default();
    assert!(handle_enter(&settings, &names, &mut state, &mut cache).is_none());
    assert_eq!(state.scrollback, strings(&["$ nosuch 1", "error: Invalid command"]));

    state.buf = "   ".to_string();
    assert!(handle_enter(&settings, &names, &mut state, &mut cache).is_none());
    assert_eq!(state.scrollback, strings(&["$ nosuch 1", "error: Invalid command", ""]));
    assert_eq!(state.buf, "   ");
    assert_eq!(state.history.len(), 2);
}

#[test]
fn enter_accepts_highlighted_suggestion_before_submitting() {
    let settings = ConsoleSettings::default();
    let names = strings(&["scene.inspect"]);
    let mut state = ConsoleState {
        buf: "sce".to_string(),
        suggestion_index: Some(0),
        ..Default::default()
    };
    let mut cache = ConsoleCache {
        predictions_cache: strings(&["scene.inspect"]),
        ..Default::default()
    };
    assert!(handle_enter(&settings, &names, &mut state, &mut cache).is_none());
    assert_eq!(state.buf, "scene.inspect");
    assert!(state.scrollback.is_empty());
    assert!(cache.predictions_cache.is_empty());
}

#[test]
fn history_keeps_at_most_history_size_entries() {
    let settings = ConsoleSettings {
        history_size: 2,
        ..Default::default()
    };
    let names: Vec<String> = Vec::new();
    let mut state = ConsoleState::default();
    let mut cache = ConsoleCache::default();
    for line in ["one", "two", "three"] {
        state.buf = line.to_string();
        handle_enter(&settings, &names, &mut state, &mut cache);
    }
    assert_eq!(state.history.len(), 3);
    assert_eq!(state.history[0], "");
    assert_eq!(state.history[1], "three");
    assert_eq!(state.history[2], "two");
}

#[test]
fn history_up_then_down_restores_draft() {
    let settings = ConsoleSettings::default();
    let names: Vec<String> = Vec::new();
    let mut state = ConsoleState::default();
    let mut cache = ConsoleCache::default();
    state.buf = "older".to_string();
    handle_enter(&settings, &names, &mut state, &mut cache);
    state.buf = "draft".to_string();

    assert!(handle_arrow_keys(&mut state, &cache, true, false, true, false));
    assert_eq!(state.buf, "older");
    assert_eq!(state.history_index, 1);
    assert!(!handle_arrow_keys(&mut state, &cache, true, false, true, false));
    assert!(handle_arrow_keys(&mut state, &cache, true, false, false, true));
    assert_eq!(state.buf, "draft");
    assert_eq!(state.history_index, 0);
    assert!(!handle_arrow_keys(&mut state, &cache, false, false, false, true));
}

#[test]
fn arrows_move_highlight_when_popup_is_shown() {
    let mut state = ConsoleState {
        buf: "s".to_string(),
        suggestion_index: Some(0),
        ..Default::default()
    };
    let cache = ConsoleCache {
        predictions_cache: strings(&["a", "b"]),
        ..Default::default()
    };
    assert!(!handle_arrow_keys(&mut state, &cache, true, true, true, false));
    assert_eq!(state.suggestion_index, Some(1));
    assert!(!handle_arrow_keys(&mut state, &cache, true, true, false, true));
    assert_eq!(state.suggestion_index, Some(0));
    assert_eq!(state.buf, "s");
}

#[test]
fn shift_tab_moves_up_and_tab_accepts() {
    let mut state = ConsoleState {
        buf: "s".to_string(),
        suggestion_index: Some(0),
        ..Default::default()
    };
    let mut cache = ConsoleCache {
        predictions_cache: strings(&["a", "b", "c"]),
        ..Default::default()
    };
    assert!(!handle_tab_keys(&mut state, &mut cache, true, true, true, true));
    assert_eq!(state.suggestion_index, Some(2));
    assert!(handle_tab_keys(&mut state, &mut cache, true, true, false, true));
    assert_eq!(state.buf, "c");
    assert!(cache.predictions_cache.is_empty());
    assert!(!handle_tab_keys(&mut state, &mut cache, true, false, false, true));
}

#[test]
fn ctrl_c_clears_input_and_ctrl_l_clears_scrollback() {
    let mut state = ConsoleState {
        buf: "typed".to_string(),
        scrollback: strings(&["x"]),
        ..Default::default()
    };
    assert!(!handle_clear_shortcuts(&mut state, false, true, true));
    assert_eq!(state.buf, "typed");
    assert!(handle_clear_shortcuts(&mut state, true, false, true));
    assert!(state.scrollback.is_empty());
    assert_eq!(state.buf, "typed");
    assert!(handle_clear_shortcuts(&mut state, true, true, false));
    assert!(state.buf.is_empty());
}

#[test]
fn console_toggles_unless_another_widget_has_the_keyboard() {
    let mut open = ConsoleOpen::default();
    assert!(!toggle_console(&mut open, true, true));
    assert!(!open.open);
    assert!(toggle_console(&mut open, true, false));
    assert!(open.open);
    assert!(toggle_console(&mut open, true, true));
    assert!(!open.open);
    assert!(!toggle_console(&mut open, false, false));
}

#[test]
fn input_blocking_decisions() {
    assert!(mouse_input_blocked(true, true, false));
    assert!(mouse_input_blocked(true, false, true));
    assert!(!mouse_input_blocked(true, false, false));
    assert!(!mouse_input_blocked(false, true, true));
    assert!(keyboard_input_blocked(true, true));
    assert!(!keyboard_input_blocked(false, true));
}

#[test]
fn completions_are_sorted_unique_and_in_the_trie() {
    let mut cache = ConsoleCache::default();
    let names = strings(&["help", "list", "custom"]);
    let completions = vec![strings(&["custom", "foo"]), strings(&["help"])];
    init_completions(&mut cache, &names, &completions);
    assert_eq!(
        cache.completion_entries,
        strings(&["custom", "custom foo", "help", "list"])
    );
    let trie = cache.commands_trie.as_ref().unwrap();
    assert!(trie.exact_match("custom foo"));
    assert!(trie.exact_match("list"));
    assert!(!trie.exact_match("cust"));
}

#[test]
fn custom_completion_is_offered_for_its_first_word() {
    let mut cache = ConsoleCache::default();
    init_completions(&mut cache, &strings(&["help"]), &[strings(&["custom", "foo"])]);
    let mut state = ConsoleState {
        buf: "custom".to_string(),
        ..Default::default()
    };
    recompute_predictions(&mut state, &mut cache, 4);
    assert_eq!(cache.predictions_cache, strings(&["custom foo"]));
}

#[test]
fn help_and_list_replies() {
    let commands = vec![
        info("debug.scene.load", Some("Load a scene by id")),
        info("help", Some("Prints available arguments and usage")),
    ];
    assert!(help_lines(&commands, Some("help")).is_none());
    assert_eq!(
        help_lines(&commands, Some("zzz")).unwrap(),
        strings(&["Command 'zzz' does not exist"])
    );
    assert_eq!(
        help_lines(&commands, Some("scene")).unwrap(),
        strings(&["Matching commands:", "  debug.scene.load - Load a scene by id", ""])
    );
    assert_eq!(
        help_lines(&commands, None).unwrap(),
        strings(&[
            "Available commands:",
            "  debug.scene.load - Load a scene by id",
            "  help             - Prints available arguments and usage",
            "",
        ])
    );
    assert_eq!(
        list_lines(&commands, Some("  ")),
        strings(&[
            "Matching commands:",
            "  debug.scene.load - Load a scene by id",
            "  help             - Prints available arguments and usage",
            "",
        ])
    );
    assert_eq!(list_lines(&[], None), strings(&["Available commands:", ""]));
}

#[test]
fn listing_pads_names_to_the_longest_and_trims() {
    let commands = vec![info("a", Some("  ")), info("bbb", None)];
    assert_eq!(command_list_lines(&commands, None), strings(&["  a   -", "  bbb"]));
}

#[test]
fn console_command_take_and_replies() {
    let mut command = ConsoleCommand::new(Some(7u32));
    assert_eq!(command.take(), Some(7));
    assert_eq!(command.take(), None);
    command.reply_ok("done".to_string());
    command.reply_failed("bad".to_string());
    command.reply("plain".to_string());
    let printed: Vec<String> = command.take_printed().into_iter().map(|l| l.line).collect();
    assert_eq!(printed, strings(&["done", "[ok]", "bad", "[failed]", "plain"]));
    assert!(command.take_printed().is_empty());
}

#[test]
fn printed_lines_are_appended_to_scrollback() {
    let mut state = ConsoleState {
        scrollback: strings(&["first"]),
        ..Default::default()
    };
    let lines = vec![
        PrintConsoleLine::new("second".to_string()),
        PrintConsoleLine::new("third".to_string()),
    ];
    receive_console_line(&mut state, &lines);
    assert_eq!(state.scrollback, strings(&["first", "second", "third"]));
}

#[test]
fn trimming_uses_unicode_whitespace() {
    assert_eq!(trim("\u{3000} a b \t\n"), "a b");
    assert_eq!(trim_end("  a \u{85}"), "  a");
    assert_eq!(trim("   "), "");
}

#[test]
fn settings_defaults_and_clone() {
    let settings = ConsoleSettings::default();
    assert_eq!(settings.history_size, 20);
    assert_eq!(settings.symbol, "$ ");
    assert_eq!(settings.title_name, "Console");
    assert_eq!(settings.num_suggestions, 4);
    assert!(settings.resizable && settings.moveable && settings.show_title_bar);
    assert!(!settings.collapsible && !settings.block_mouse && !settings.block_keyboard);

    let custom = ConsoleSettings {
        history_size: 73,
        title_name: "Farmer Console".to_string(),
        arg_completions: vec![strings(&["custom", "foo"])],
        ..Default::default()
    };
    let cloned = custom.clone();
    assert_eq!(cloned.history_size, 73);
    assert_eq!(cloned.title_name, "Farmer Console");
    assert_eq!(cloned.arg_completions, vec![strings(&["custom", "foo"])]);
}

#[test]
fn settings_default_colours_match_the_egui_defaults() {
    let settings = ConsoleSettings::default();
    assert_eq!(settings.background_color, Color32::from_black_alpha(102).to_array());
    assert_eq!(settings.foreground_color, Color32::LIGHT_GRAY.to_array());
    assert_eq!(
        settings.suggestion_background_color,
        Color32::from_black_alpha(230).to_array()
    );
    assert_eq!(settings.suggestion_border_color, Color32::from_gray(96).to_array());
    assert_eq!(
        settings.suggestion_selected_background_color,
        Color32::from_rgb(48, 92, 150).to_array()
    );
}

#[test]
fn rank_lowered_candidates_orders_by_match_class_then_length() {
    let entries = strings(&["Spawn", "despawn", "SP"]);
    let lowered = strings(&["spawn", "despawn", "sp"]);
    let r = bevy_console::rank_lowered_candidates("sp", &entries, &lowered, 5);
    assert_eq!(r, strings(&["SP", "Spawn", "despawn"]));
    let r = bevy_console::rank_lowered_candidates("sp", &entries, &lowered, 1);
    assert_eq!(r, strings(&["SP"]));
}

#[test]
fn completion_candidates_ignore_entry_order() {
    let a = strings(&["help", "clear", "exit", "heal", "shell"]);
    let b = strings(&["shell", "heal", "exit", "clear", "help"]);
    assert_eq!(completion_candidates("he", &a, 4), completion_candidates("he", &b, 4));
    assert_eq!(completion_candidates("he", &a, 4), strings(&["heal", "help", "shell"]));
}

#[test]
fn dispatch_command_words_sends_registered_and_reports_unknown() {
    let names = strings(&["help", "clear"]);
    let mut state = ConsoleState::default();
    let entered = bevy_console::dispatch_command_words(&names, &mut state, strings(&["help", "list"]));
    let entered = entered.expect("registered command is sent");
    assert_eq!(entered.command_name, "help");
    assert_eq!(entered.args, strings(&["list"]));
    assert!(state.scrollback.is_empty());

    let none = bevy_console::dispatch_command_words(&names, &mut state, strings(&["nope", "x"]));
    assert!(none.is_none());
    assert_eq!(state.scrollback, strings(&["error: Invalid command"]));

    let empty = bevy_console::dispatch_command_words(&names, &mut state, Vec::new());
    assert!(empty.is_none());
    assert_eq!(state.scrollback.len(), 1);
}

#[test]
fn predict_from_words_completes_custom_sequence() {
    let mut cache = ConsoleCache::default();
    init_completions(&mut cache, &[], &[strings(&["custom", "foo"])]);
    let mut state = ConsoleState {
        buf: "custom".to_string(),
        ..Default::default()
    };
    bevy_console::predict_from_words(&mut state, &mut cache, &strings(&["custom"]), 4, 7);
    assert_eq!(cache.predictions_cache, strings(&["custom foo"]));
    assert!(!cache.prediction_matches_buffer);
    assert_eq!(state.suggestion_index, Some(0));
    assert_eq!(cache.predictions_hash_key, Some(7));
}

fn parsed(text: &str, overrides: Vec<TextOverride>) -> ParsedSegment {
    ParsedSegment {
        text: text.to_string(),
        overrides,
    }
}

#[test]
fn style_segments_applies_overrides_in_order_and_drops_empty_text() {
    let line = vec![
        parsed("plain ", vec![]),
        parsed("", vec![TextOverride::Bold]),
        parsed(
            "warn",
            vec![
                TextOverride::Dim,
                TextOverride::Foreground([255, 255, 0, 255]),
                TextOverride::Dim,
                TextOverride::Bold,
                TextOverride::Underline,
                TextOverride::Background([0, 0, 0, 255]),
            ],
        ),
        parsed(" x", vec![TextOverride::Italic, TextOverride::Strikethrough, TextOverride::Dim]),
    ];
    let styled = style_segments(&line);
    assert_eq!(styled.len(), 3);
    let texts: String = styled.iter().map(|s| s.text.as_str()).collect();
    assert_eq!(texts, "plain warn x");

    assert_eq!(
        styled[0].style,
        SegmentStyle {
            bold: false,
            dim_steps: 0,
            italic: false,
            underline: false,
            strikethrough: false,
            foreground: None,
            background: None,
        }
    );
    assert_eq!(
        styled[1].style,
        SegmentStyle {
            bold: true,
            dim_steps: 1,
            italic: false,
            underline: true,
            strikethrough: false,
            foreground: Some([255, 255, 0, 255]),
            background: Some([0, 0, 0, 255]),
        }
    );
    assert_eq!(
        styled[2].style,
        SegmentStyle {
            bold: false,
            dim_steps: 1,
            italic: true,
            underline: false,
            strikethrough: true,
            foreground: None,
            background: None,
        }
    );
}

#[test]
fn console_key_pressed_matches_named_keys_by_name() {
    let backquote = bevy_console::ConsoleKey::Named("Backquote".to_string());
    let escape = bevy_console::ConsoleKey::Named("Escape".to_string());
    let scan = bevy_console::ConsoleKey::Unidentified(bevy_console::NativeKey::Xkb(49));
    let configured = vec![backquote.clone(), scan.clone()];
    assert!(bevy_console::console_key_pressed(true, &backquote, &configured));
    assert!(bevy_console::console_key_pressed(true, &scan, &configured));
    assert!(!bevy_console::console_key_pressed(true, &escape, &configured));
    assert!(!bevy_console::console_key_pressed(false, &backquote, &configured));
}

#[test]
fn custom_completion_flow_from_init_to_tab() {
    let mut cache = ConsoleCache::default();
    init_completions(&mut cache, &[], &[strings(&["custom", "foo"])]);
    let mut state = ConsoleState {
        buf: "custom".to_string(),
        ..Default::default()
    };
    recompute_predictions(&mut state, &mut cache, 1);
    assert_eq!(cache.predictions_cache, strings(&["custom foo"]));
    assert!(!cache.prediction_matches_buffer);
    assert_eq!(state.suggestion_index, Some(0));
    assert!(bevy_console::handle_tab_completion(&mut state, &mut cache));
    assert_eq!(state.buf, "custom foo");
}
