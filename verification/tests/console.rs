use bevy::input::keyboard::{Key, KeyboardInput, NativeKey, NativeKeyCode};
use bevy::input::ButtonState;
use bevy::prelude::{Entity, KeyCode};
use bevy_console::{
    accept_selected_suggestion, completion_candidates, console_key_pressed, handle_tab_completion,
    move_suggestion_selection, recompute_predictions, should_show_suggestions_popup, ConsoleCache,
    ConsoleKey, ConsoleSettings, ConsoleState,
};
use bevy_egui::egui::Color32;

fn console_key(key: &KeyCode) -> ConsoleKey {
    match key {
        KeyCode::Unidentified(native) => ConsoleKey::Unidentified(match native {
            NativeKeyCode::Unidentified => bevy_console::NativeKey::Unidentified,
            NativeKeyCode::Android(code) => bevy_console::NativeKey::Android(*code),
            NativeKeyCode::MacOS(code) => bevy_console::NativeKey::MacOS(*code),
            NativeKeyCode::Windows(code) => bevy_console::NativeKey::Windows(*code),
            NativeKeyCode::Xkb(code) => bevy_console::NativeKey::Xkb(*code),
        }),
        named => ConsoleKey::Named(format!("{named:?}")),
    }
}

fn key_pressed(input: &KeyboardInput, config: &[KeyCode]) -> bool {
    let configured: Vec<ConsoleKey> = config.iter().map(console_key).collect();
    console_key_pressed(input.state.is_pressed(), &console_key(&input.key_code), &configured)
}

#[test]
fn test_console_key_pressed_scan_code() {
    let input = KeyboardInput {
        key_code: KeyCode::Unidentified(NativeKeyCode::Xkb(41)),
        logical_key: Key::Unidentified(NativeKey::Xkb(41)),
        state: ButtonState::Pressed,
        window: Entity::PLACEHOLDER,
        repeat: false,
        text: None,
    };

    let config = vec![KeyCode::Unidentified(NativeKeyCode::Xkb(41))];

    let result = key_pressed(&input, &config);
    assert!(result);
}

#[test]
fn test_console_wrong_key_pressed_scan_code() {
    let input = KeyboardInput {
        key_code: KeyCode::Unidentified(NativeKeyCode::Xkb(42)),
        logical_key: Key::Unidentified(NativeKey::Xkb(42)),
        state: ButtonState::Pressed,
        window: Entity::PLACEHOLDER,
        repeat: false,
        text: None,
    };

    let config = vec![KeyCode::Unidentified(NativeKeyCode::Xkb(41))];

    let result = key_pressed(&input, &config);
    assert!(!result);
}

#[test]
fn test_console_key_pressed_key_code() {
    let input = KeyboardInput {
        key_code: KeyCode::Backquote,
        logical_key: Key::Character("`".into()),
        state: ButtonState::Pressed,
        window: Entity::PLACEHOLDER,
        repeat: false,
        text: None,
    };

    let config = vec![KeyCode::Backquote];

    let result = key_pressed(&input, &config);
    assert!(result);
}

#[test]
fn test_console_wrong_key_pressed_key_code() {
    let input = KeyboardInput {
        key_code: KeyCode::KeyA,
        logical_key: Key::Character("A".into()),
        state: ButtonState::Pressed,
        window: Entity::PLACEHOLDER,
        repeat: false,
        text: None,
    };

    let config = vec![KeyCode::Backquote];

    let result = key_pressed(&input, &config);
    assert!(!result);
}

#[test]
fn test_console_key_right_key_but_not_pressed() {
    let input = KeyboardInput {
        key_code: KeyCode::Backquote,
        logical_key: Key::Character("`".into()),
        state: ButtonState::Released,
        window: Entity::PLACEHOLDER,
        repeat: false,
        text: None,
    };

    let config = vec![KeyCode::Backquote];

    let result = key_pressed(&input, &config);
    assert!(!result);
}

#[test]
fn completion_candidates_rank_prefix_before_substring_and_fuzzy() {
    let entries = vec![
        "debug.scene.load".to_string(),
        "debug.time.set".to_string(),
        "scene.inspect".to_string(),
        "spawn.crop.enable".to_string(),
    ];

    let result = completion_candidates("sce", &entries, 4);

    assert_eq!(
        result,
        vec![
            "scene.inspect".to_string(),
            "debug.scene.load".to_string(),
            "spawn.crop.enable".to_string(),
        ]
    );
}

#[test]
fn tab_completion_accepts_single_candidate() {
    let mut state = ConsoleState {
        buf: "debug.sc".to_string(),
        ..Default::default()
    };
    let mut cache = ConsoleCache {
        predictions_cache: vec!["debug.scene.load".to_string()],
        prediction_matches_buffer: false,
        ..Default::default()
    };

    let accepted = handle_tab_completion(&mut state, &mut cache);

    assert!(accepted);
    assert_eq!(state.buf, "debug.scene.load");
    assert_eq!(state.suggestion_index, None);
    assert!(cache.predictions_cache.is_empty());
}

#[test]
fn tab_completion_accepts_top_candidate_when_multiple_match() {
    let mut state = ConsoleState {
        buf: "scene".to_string(),
        ..Default::default()
    };
    let mut cache = ConsoleCache {
        predictions_cache: vec!["scene.inspect".to_string(), "debug.scene.load".to_string()],
        prediction_matches_buffer: false,
        ..Default::default()
    };

    assert!(handle_tab_completion(&mut state, &mut cache));
    assert_eq!(state.buf, "scene.inspect");
    assert_eq!(state.suggestion_index, None);
    assert!(cache.predictions_cache.is_empty());
}

#[test]
fn tab_completion_accepts_currently_selected_candidate() {
    let mut state = ConsoleState {
        buf: "scene".to_string(),
        suggestion_index: Some(1),
        ..Default::default()
    };
    let mut cache = ConsoleCache {
        predictions_cache: vec!["scene.inspect".to_string(), "debug.scene.load".to_string()],
        prediction_matches_buffer: false,
        ..Default::default()
    };

    assert!(handle_tab_completion(&mut state, &mut cache));
    assert_eq!(state.buf, "debug.scene.load");
    assert_eq!(state.suggestion_index, None);
    assert!(cache.predictions_cache.is_empty());
}

#[test]
fn selected_suggestion_can_be_accepted_before_submit() {
    let mut state = ConsoleState {
        buf: "scene".to_string(),
        suggestion_index: Some(1),
        ..Default::default()
    };
    let mut cache = ConsoleCache {
        predictions_cache: vec!["scene.inspect".to_string(), "debug.scene.load".to_string()],
        prediction_matches_buffer: false,
        ..Default::default()
    };

    let accepted = accept_selected_suggestion(&mut state, &mut cache);

    assert!(accepted);
    assert_eq!(state.buf, "debug.scene.load");
    assert_eq!(state.suggestion_index, None);
    assert!(cache.predictions_cache.is_empty());
}

#[test]
fn recompute_predictions_selects_top_candidate_by_default() {
    let mut state = ConsoleState {
        buf: "scene".to_string(),
        ..Default::default()
    };
    let mut cache = ConsoleCache {
        completion_entries: vec!["scene.inspect".to_string(), "debug.scene.load".to_string()],
        ..Default::default()
    };

    recompute_predictions(&mut state, &mut cache, 8);

    assert_eq!(
        cache.predictions_cache,
        vec!["scene.inspect".to_string(), "debug.scene.load".to_string()]
    );
    assert!(!cache.prediction_matches_buffer);
    assert_eq!(state.suggestion_index, Some(0));
}

#[test]
fn recompute_predictions_does_not_select_exact_command_match() {
    let mut state = ConsoleState {
        buf: "scene.inspect".to_string(),
        ..Default::default()
    };
    let mut cache = ConsoleCache {
        completion_entries: vec!["scene.inspect".to_string()],
        ..Default::default()
    };

    recompute_predictions(&mut state, &mut cache, 8);

    assert!(cache.prediction_matches_buffer);
    assert_eq!(state.suggestion_index, None);
}

#[test]
fn recompute_predictions_hides_popup_for_exact_alias_with_longer_canonical_match() {
    let mut state = ConsoleState {
        buf: "grid".to_string(),
        ..Default::default()
    };
    let mut cache = ConsoleCache {
        completion_entries: vec!["grid".to_string(), "debug.grid".to_string()],
        ..Default::default()
    };

    recompute_predictions(&mut state, &mut cache, 8);

    assert_eq!(
        cache.predictions_cache,
        vec!["grid".to_string(), "debug.grid".to_string()]
    );
    assert!(cache.prediction_matches_buffer);
    assert_eq!(state.suggestion_index, None);
    assert!(!should_show_suggestions_popup(true, &state, &cache));
    assert!(!accept_selected_suggestion(&mut state, &mut cache));
}

#[test]
fn suggestion_selection_moves_with_wraparound() {
    let mut state = ConsoleState {
        buf: "scene".to_string(),
        suggestion_index: Some(0),
        ..Default::default()
    };
    let cache = ConsoleCache {
        predictions_cache: vec![
            "scene.inspect".to_string(),
            "scene.load".to_string(),
            "scene.reload".to_string(),
        ],
        prediction_matches_buffer: false,
        ..Default::default()
    };

    assert!(move_suggestion_selection(&mut state, &cache, 1));
    assert_eq!(state.suggestion_index, Some(1));

    assert!(move_suggestion_selection(&mut state, &cache, -1));
    assert_eq!(state.suggestion_index, Some(0));

    assert!(move_suggestion_selection(&mut state, &cache, -1));
    assert_eq!(state.suggestion_index, Some(2));
}

#[test]
fn suggestion_selection_is_disabled_for_exact_match() {
    let mut state = ConsoleState {
        buf: "scene.inspect".to_string(),
        suggestion_index: Some(0),
        ..Default::default()
    };
    let cache = ConsoleCache {
        predictions_cache: vec!["scene.inspect".to_string()],
        prediction_matches_buffer: true,
        ..Default::default()
    };

    assert!(!move_suggestion_selection(&mut state, &cache, 1));
    assert_eq!(state.suggestion_index, None);
}

#[test]
fn suggestions_popup_is_hidden_without_predictions() {
    let state = ConsoleState {
        buf: "scene.load --x 1".to_string(),
        ..Default::default()
    };
    let cache = ConsoleCache {
        predictions_cache: Vec::new(),
        prediction_matches_buffer: false,
        ..Default::default()
    };

    assert!(!should_show_suggestions_popup(true, &state, &cache));
}

#[test]
fn console_configuration_clone_preserves_configuration_fields() {
    let config = ConsoleSettings {
        history_size: 73,
        symbol: "$ ".to_string(),
        collapsible: false,
        title_name: "Farmer Console".to_string(),
        resizable: false,
        moveable: false,
        show_title_bar: false,
        background_color: Color32::from_black_alpha(180).to_array(),
        foreground_color: Color32::YELLOW.to_array(),
        num_suggestions: 9,
        suggestion_background_color: Color32::from_black_alpha(240).to_array(),
        suggestion_border_color: Color32::from_gray(120).to_array(),
        suggestion_selected_background_color: Color32::from_rgb(32, 64, 96).to_array(),
        ..Default::default()
    };

    let cloned = config.clone();

    assert_eq!(cloned.history_size, config.history_size);
    assert_eq!(cloned.symbol, config.symbol);
    assert_eq!(cloned.collapsible, config.collapsible);
    assert_eq!(cloned.title_name, config.title_name);
    assert_eq!(cloned.resizable, config.resizable);
    assert_eq!(cloned.moveable, config.moveable);
    assert_eq!(cloned.show_title_bar, config.show_title_bar);
    assert_eq!(cloned.background_color, config.background_color);
    assert_eq!(cloned.foreground_color, config.foreground_color);
    assert_eq!(cloned.num_suggestions, config.num_suggestions);
    assert_eq!(
        cloned.suggestion_background_color,
        config.suggestion_background_color
    );
    assert_eq!(
        cloned.suggestion_border_color,
        config.suggestion_border_color
    );
    assert_eq!(
        cloned.suggestion_selected_background_color,
        config.suggestion_selected_background_color
    );
}
