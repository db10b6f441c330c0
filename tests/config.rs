use diff_tool::config::{
    add_key_to_group, combine_keys_by_value, longest_combined_keymap, AppConfig, ConfigError,
    KeyMap,
};
use diff_tool::message::Message;

fn s(x: &str) -> String {
    x.to_string()
}

#[test]
fn default_keymap_bindings() {
    let map = KeyMap::default_keymap();
    assert_eq!(map.get("q"), Some(Message::Quit));
    assert_eq!(map.get("esc"), Some(Message::Quit));
    assert_eq!(map.get("ctrl+c"), Some(Message::Quit));
    assert_eq!(map.get("shift+g"), Some(Message::LastRow));
    assert_eq!(map.get("g"), Some(Message::FirstRow));
    assert_eq!(map.get("j"), Some(Message::NextRow));
    assert_eq!(map.get("k"), Some(Message::PrevRow));
    assert_eq!(map.get("x"), None);
    assert_eq!(map.entries().len(), 8);
}

#[test]
fn later_entry_wins() {
    let map = KeyMap::from_entries(vec![(s("a"), Message::Quit), (s("a"), Message::NextRow)]);
    assert_eq!(map.get("a"), Some(Message::NextRow));
    assert_eq!(map.entries().len(), 1);
}

#[test]
fn repeated_key_is_listed_once_in_help() {
    let map = KeyMap::from_entries(vec![
        (s("a"), Message::Quit),
        (s("b"), Message::Quit),
        (s("a"), Message::NextRow),
    ]);
    assert_eq!(map.entries(), &vec![(s("a"), Message::NextRow), (s("b"), Message::Quit)]);
    assert_eq!(
        combine_keys_by_value(&map),
        vec![(s("A"), Message::NextRow), (s("B"), Message::Quit)]
    );
}

#[test]
fn config_without_file_uses_default_keymap() {
    let config = AppConfig::new(None).unwrap();
    assert_eq!(config.keymap().get("j"), Some(Message::NextRow));
    assert_eq!(AppConfig::default_config().keymap().get("k"), Some(Message::PrevRow));
}

#[test]
fn config_from_file_entries() {
    let config = AppConfig::new(Some(vec![(s("key1"), s("Quit")), (s("n"), s("NextRow"))])).unwrap();
    assert_eq!(config.keymap().get("key1"), Some(Message::Quit));
    assert_eq!(config.keymap().get("n"), Some(Message::NextRow));
    assert_eq!(config.keymap().get("q"), None);
}

#[test]
fn config_with_unknown_command_is_refused() {
    let result = AppConfig::new(Some(vec![
        (s("a"), s("Quit")),
        (s("b"), s("Jump")),
        (s("c"), s("Fly")),
    ]));
    match result {
        Err(ConfigError::UnknownMessage { key, name }) => {
            assert_eq!(key, "b");
            assert_eq!(name, "Jump");
        }
        Ok(_) => panic!("an unknown command was accepted"),
    }
    assert!(KeyMap::from_named(&vec![(s("a"), s("quit"))]).is_err());
}

#[test]
fn keys_grouped_by_command() {
    let rows = combine_keys_by_value(&KeyMap::default_keymap());
    assert_eq!(
        rows,
        vec![
            (s("ESC | Q | CTRL+C | CTRL+D"), Message::Quit),
            (s("SHIFT+G"), Message::LastRow),
            (s("G"), Message::FirstRow),
            (s("J"), Message::NextRow),
            (s("K"), Message::PrevRow),
        ]
    );
}

#[test]
fn adding_a_key_to_groups() {
    let mut groups = vec![(s("Q"), Message::Quit)];
    add_key_to_group(&mut groups, s("ESC"), Message::Quit);
    add_key_to_group(&mut groups, s("J"), Message::NextRow);
    assert_eq!(groups, vec![(s("Q | ESC"), Message::Quit), (s("J"), Message::NextRow)]);
}

#[test]
fn longest_key_text() {
    let rows = combine_keys_by_value(&KeyMap::default_keymap());
    assert_eq!(longest_combined_keymap(&rows), 25);
    assert_eq!(longest_combined_keymap(&vec![(s("é"), Message::Quit)]), 2);
}

#[test]
fn command_names_and_descriptions() {
    assert_eq!(Message::from_name("PrevRow"), Some(Message::PrevRow));
    assert_eq!(Message::from_name("NextRow"), Some(Message::NextRow));
    assert_eq!(Message::from_name("LastRow"), Some(Message::LastRow));
    assert_eq!(Message::from_name("FirstRow"), Some(Message::FirstRow));
    assert_eq!(Message::from_name("Quit"), Some(Message::Quit));
    assert_eq!(Message::from_name("quit"), None);
    assert_eq!(Message::PrevRow.description(), "Scroll up one row");
    assert_eq!(Message::NextRow.description(), "Scroll down one row");
    assert_eq!(Message::LastRow.description(), "Jump to bottom row");
    assert_eq!(Message::FirstRow.description(), "Jump to top row");
    assert_eq!(Message::Quit.description(), "Quit application");
}
