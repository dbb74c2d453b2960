use overwatch::game_mode::GameMode;
use overwatch::watcher_config::{
    complete_modes, ConfigError, ModeEntry, RoomConfig, WatcherConfig,
};

fn plain(name: &str, players: &str) -> GameMode {
    GameMode::new(name.to_string(), players.to_string())
}

fn entry(name: Option<&str>, players: Option<&str>) -> ModeEntry {
    ModeEntry {
        name: name.map(|s| s.to_string()),
        players: players.map(|s| s.to_string()),
        image: None,
        description: None,
        label: None,
    }
}

fn walk(config: &WatcherConfig) -> Vec<(u64, Vec<String>)> {
    config
        .walk_rooms()
        .into_iter()
        .map(|(room, modes)| (room, modes.iter().map(|m| m.name.clone()).collect()))
        .collect()
}

#[test]
fn complete_entry_names_a_mode() {
    let mode = ModeEntry {
        name: Some("A".to_string()),
        players: Some("6v6".to_string()),
        image: None,
        description: Some("text".to_string()),
        label: None,
    }
    .to_mode()
    .unwrap();
    assert_eq!(mode.name, "A");
    assert_eq!(mode.players, "6v6");
    assert_eq!(mode.description.unwrap(), "text");
    assert!(mode.image.is_none());
    assert!(mode.label.is_none());
}

#[test]
fn entry_without_name_or_players_names_nothing() {
    assert!(entry(None, Some("6v6")).to_mode().is_none());
    assert!(entry(Some("A"), None).to_mode().is_none());
    assert!(entry(None, None).to_mode().is_none());
}

#[test]
fn first_incomplete_entry_is_reported() {
    let entries = vec![
        entry(Some("A"), Some("6v6")),
        entry(Some("B"), None),
        entry(None, Some("6v6")),
    ];
    assert_eq!(complete_modes(&entries).unwrap_err(), 1);
    let good = vec![entry(Some("A"), Some("6v6")), entry(Some("B"), Some("3v3"))];
    let modes = complete_modes(&good).unwrap();
    assert_eq!(modes.len(), 2);
    assert_eq!(modes[1].name, "B");
    assert!(complete_modes(&Vec::new()).unwrap().is_empty());
}

#[test]
fn configuration_holds_rooms_in_order() {
    let entries = vec![
        (20, vec![entry(Some("A"), Some("6v6")), entry(Some("B"), Some("6v6"))]),
        (10, vec![]),
        (30, vec![entry(Some("C"), Some("6v6"))]),
    ];
    let config = WatcherConfig::from_entries(&entries).unwrap();
    assert_eq!(
        walk(&config),
        vec![
            (20, vec!["A".to_string(), "B".to_string()]),
            (10, vec![]),
            (30, vec!["C".to_string()]),
        ]
    );
    assert!(config.contains_room(10));
    assert!(!config.contains_room(11));
}

#[test]
fn empty_configuration() {
    let config = WatcherConfig::from_entries(&Vec::new()).unwrap();
    assert!(config.walk_rooms().is_empty());
    assert!(WatcherConfig::new().walk_rooms().is_empty());
}

#[test]
fn room_listed_twice_is_refused() {
    let entries = vec![
        (1, vec![entry(Some("A"), Some("6v6"))]),
        (2, vec![]),
        (1, vec![entry(Some("B"), Some("6v6"))]),
    ];
    assert_eq!(
        WatcherConfig::from_entries(&entries).unwrap_err(),
        ConfigError::DuplicateRoom { room: 1 }
    );
}

#[test]
fn malformed_mode_is_refused_with_its_place() {
    let entries = vec![
        (1, vec![entry(Some("A"), Some("6v6"))]),
        (2, vec![entry(Some("B"), Some("6v6")), entry(Some("C"), Some("6v6")), entry(None, None)]),
    ];
    assert_eq!(
        WatcherConfig::from_entries(&entries).unwrap_err(),
        ConfigError::MalformedMode { room: 2, index: 2 }
    );
}

#[test]
fn first_faulty_entry_decides_the_error() {
    let malformed_first = vec![
        (1, vec![entry(None, Some("6v6"))]),
        (1, vec![]),
    ];
    assert_eq!(
        WatcherConfig::from_entries(&malformed_first).unwrap_err(),
        ConfigError::MalformedMode { room: 1, index: 0 }
    );
    let duplicate_first = vec![
        (1, vec![]),
        (1, vec![entry(None, None)]),
        (2, vec![entry(None, None)]),
    ];
    assert_eq!(
        WatcherConfig::from_entries(&duplicate_first).unwrap_err(),
        ConfigError::DuplicateRoom { room: 1 }
    );
}

#[test]
fn insert_refuses_a_configured_room_and_changes_nothing() {
    let mut config = WatcherConfig::new();
    assert!(config.insert(5, RoomConfig::new(vec![plain("A", "6v6")])).is_ok());
    assert_eq!(
        config.insert(5, RoomConfig::new(vec![plain("B", "6v6")])).unwrap_err(),
        ConfigError::DuplicateRoom { room: 5 }
    );
    assert!(config.insert(6, RoomConfig::new(vec![])).is_ok());
    assert_eq!(walk(&config), vec![(5, vec!["A".to_string()]), (6, vec![])]);
}

#[test]
fn room_config_hands_out_its_modes() {
    let room = RoomConfig::new(vec![plain("A", "6v6"), plain("B", "3v3")]);
    assert_eq!(room.gamemodes().len(), 2);
    assert_eq!(room.gamemodes()[1].players, "3v3");
}
