use std::collections::BTreeMap;

use bevy_console::{command_list_lines, CommandInfo};

fn command(name: &str, about: Option<&str>) -> CommandInfo {
    CommandInfo {
        name: name.to_string(),
        about: about.map(|a| a.to_string()),
    }
}

fn registry(commands: BTreeMap<&'static str, CommandInfo>) -> Vec<CommandInfo> {
    commands.into_values().collect()
}

#[test]
fn command_list_lines_filters_by_fuzzy_command_name() {
    let mut commands = BTreeMap::new();
    commands.insert("debug.scene.load", command("debug.scene.load", None));
    commands.insert("debug.time.set", command("debug.time.set", None));
    commands.insert("inventory.give", command("inventory.give", None));

    let lines = command_list_lines(&registry(commands), Some("sce"));

    assert_eq!(lines, vec!["  debug.scene.load"]);
}

#[test]
fn command_list_lines_filters_by_about_text() {
    let mut commands = BTreeMap::new();
    commands.insert(
        "debug.scene.load",
        command("debug.scene.load", Some("Load a scene by id")),
    );
    commands.insert(
        "debug.time.set",
        command("debug.time.set", Some("Set current time")),
    );

    let lines = command_list_lines(&registry(commands), Some("current"));

    assert_eq!(lines, vec!["  debug.time.set - Set current time"]);
}
