use overwatch::game_mode::{GameImage, GameMode};
use overwatch::mode_set::ModeSet;

fn plain(name: &str, players: &str) -> GameMode {
    GameMode::new(name.to_string(), players.to_string())
}

fn pictured(name: &str, players: &str, url: &str) -> GameMode {
    GameMode {
        name: name.to_string(),
        players: players.to_string(),
        image: Some(GameImage { url: url.to_string() }),
        description: Some("a description".to_string()),
        label: Some("Daily".to_string()),
    }
}

fn ids(modes: &[GameMode]) -> Vec<(String, String)> {
    modes.iter().map(|m| (m.name.clone(), m.players.clone())).collect()
}

#[test]
fn equality_looks_at_name_and_players_only() {
    let bare = plain("Mystery Heroes", "6v6");
    let full = pictured("Mystery Heroes", "6v6", "http://example.org/mh.jpg");
    assert!(bare == full);
    assert!(bare.same_mode(&full));
    assert!(bare != plain("Mystery Heroes", "3v3"));
    assert!(bare != plain("Total Mayhem", "6v6"));
    assert!(!bare.same_mode(&plain("Total Mayhem", "6v6")));
}

#[test]
fn clone_keeps_every_field() {
    let full = pictured("Mystery Heroes", "6v6", "http://example.org/mh.jpg");
    let copy = full.clone();
    assert_eq!(copy.name, "Mystery Heroes");
    assert_eq!(copy.players, "6v6");
    assert_eq!(copy.image.unwrap().url, "http://example.org/mh.jpg");
    assert_eq!(copy.description.unwrap(), "a description");
    assert_eq!(copy.label.unwrap(), "Daily");
}

#[test]
fn line_without_picture() {
    assert_eq!(plain("Mystery Heroes", "6v6").to_line(), "6v6 Mystery Heroes");
}

#[test]
fn line_with_picture() {
    let mode = pictured("Mystery Heroes", "6v6", "http://example.org/mh.jpg");
    assert_eq!(mode.to_line(), "6v6 Mystery Heroes http://example.org/mh.jpg");
}

#[test]
fn new_set_is_empty() {
    let set = ModeSet::new();
    assert!(set.is_empty());
    assert_eq!(set.len(), 0);
    assert!(set.get(0).is_none());
    assert!(!set.contains(&plain("A", "1v1")));
    assert!(set.to_vec().is_empty());
}

#[test]
fn insert_keeps_the_record_that_came_first() {
    let mut set = ModeSet::new();
    assert!(set.insert(pictured("A", "1v1", "first")));
    assert!(!set.insert(pictured("A", "1v1", "second")));
    assert!(set.insert(plain("A", "2v2")));
    assert_eq!(set.len(), 2);
    assert_eq!(set.get(0).unwrap().image.as_ref().unwrap().url, "first");
    assert_eq!(set.get(1).unwrap().players, "2v2");
    assert!(set.get(2).is_none());
}

#[test]
fn from_modes_counts_each_mode_once() {
    let set = ModeSet::from_modes(&vec![
        pictured("A", "1v1", "first"),
        plain("B", "1v1"),
        plain("A", "1v1"),
        plain("B", "1v1"),
        plain("C", "1v1"),
    ]);
    assert_eq!(set.len(), 3);
    let records = set.to_vec();
    assert_eq!(
        ids(&records),
        vec![
            ("A".to_string(), "1v1".to_string()),
            ("B".to_string(), "1v1".to_string()),
            ("C".to_string(), "1v1".to_string()),
        ]
    );
    assert_eq!(records[0].image.as_ref().unwrap().url, "first");
    assert!(set.contains(&plain("C", "1v1")));
    assert!(!set.contains(&plain("C", "2v2")));
    assert!(!set.is_empty());
}

#[test]
fn difference_keeps_records_and_order_of_the_left_set() {
    let left = ModeSet::from_modes(&vec![
        pictured("A", "1v1", "left-a"),
        plain("B", "1v1"),
        pictured("C", "1v1", "left-c"),
    ]);
    let right = ModeSet::from_modes(&vec![pictured("B", "1v1", "right-b"), plain("D", "1v1")]);
    let only_left = left.difference(&right).to_vec();
    assert_eq!(
        ids(&only_left),
        vec![("A".to_string(), "1v1".to_string()), ("C".to_string(), "1v1".to_string())]
    );
    assert_eq!(only_left[0].image.as_ref().unwrap().url, "left-a");
    assert_eq!(only_left[1].image.as_ref().unwrap().url, "left-c");
    let only_right = right.difference(&left).to_vec();
    assert_eq!(ids(&only_right), vec![("D".to_string(), "1v1".to_string())]);
}

#[test]
fn intersection_keeps_records_and_order_of_the_left_set() {
    let left = ModeSet::from_modes(&vec![
        pictured("A", "1v1", "left-a"),
        plain("B", "1v1"),
        pictured("C", "1v1", "left-c"),
    ]);
    let right = ModeSet::from_modes(&vec![plain("C", "1v1"), plain("A", "1v1"), plain("D", "1v1")]);
    let both = left.intersection(&right).to_vec();
    assert_eq!(
        ids(&both),
        vec![("A".to_string(), "1v1".to_string()), ("C".to_string(), "1v1".to_string())]
    );
    assert_eq!(both[0].image.as_ref().unwrap().url, "left-a");
    assert_eq!(both[1].image.as_ref().unwrap().url, "left-c");
    assert!(left.intersection(&ModeSet::new()).is_empty());
    assert!(ModeSet::new().intersection(&left).is_empty());
}
