use overwatch::arcade_state::{copy_of, ArcadeState, MemoryState, S3State};
use overwatch::game_mode::GameMode;
use overwatch::stupids3::StupidS3Error;

fn plain(name: &str, players: &str) -> GameMode {
    GameMode::new(name.to_string(), players.to_string())
}

fn names(modes: &[GameMode]) -> Vec<String> {
    modes.iter().map(|m| m.name.clone()).collect()
}

#[test]
fn missing_object_means_nothing_recorded() {
    let read = Err(StupidS3Error::NoSuchKey { bucket: "b".to_string(), key: "k".to_string() });
    let previous = S3State::previous_from(read).unwrap();
    assert!(previous.is_empty());
}

#[test]
fn decoded_list_is_the_record() {
    let previous = S3State::previous_from(Ok(vec![plain("A", "6v6"), plain("B", "3v3")])).unwrap();
    assert_eq!(names(&previous), vec!["A".to_string(), "B".to_string()]);
}

#[test]
fn undecodable_record_is_an_error() {
    let read = Err(StupidS3Error::ContentInvalid("expected value at line 1".to_string()));
    match S3State::previous_from(read) {
        Err(StupidS3Error::ContentInvalid(why)) => assert_eq!(why, "expected value at line 1"),
        other => panic!("expected ContentInvalid, got {:?}", other),
    }
}

#[test]
fn record_without_body_is_an_error() {
    assert!(matches!(
        S3State::previous_from(Err(StupidS3Error::ContentMissing)),
        Err(StupidS3Error::ContentMissing)
    ));
}

#[test]
fn transport_failure_is_an_error() {
    let read = Err(StupidS3Error::UnknownError {
        bucket: "b".to_string(),
        key: "k".to_string(),
        error: "timed out".to_string(),
    });
    match S3State::previous_from(read) {
        Err(StupidS3Error::UnknownError { bucket, key, error }) => {
            assert_eq!(bucket, "b");
            assert_eq!(key, "k");
            assert_eq!(error, "timed out");
        }
        other => panic!("expected UnknownError, got {:?}", other),
    }
}

#[test]
fn fresh_memory_reads_as_empty() {
    let state = MemoryState::new();
    assert!(state.previous_modes().unwrap().is_empty());
    let diff = state.mode_diff(&vec![plain("A", "6v6"), plain("B", "6v6")]).unwrap();
    assert_eq!(names(&diff.added.to_vec()), vec!["A".to_string(), "B".to_string()]);
    assert!(diff.removed.is_empty());
}

#[test]
fn write_then_read_returns_what_was_written() {
    let mut state = MemoryState::holding(vec![plain("Old", "6v6")]);
    let written = vec![plain("A", "6v6"), plain("B", "3v3")];
    state.set_modes(&written).unwrap();
    let read = state.previous_modes().unwrap();
    assert_eq!(read.len(), 2);
    assert_eq!(names(&read), vec!["A".to_string(), "B".to_string()]);
    assert_eq!(read[1].players, "3v3");
    state.set_modes(&Vec::new()).unwrap();
    assert!(state.previous_modes().unwrap().is_empty());
}

#[test]
fn mode_diff_writes_nothing() {
    let state = MemoryState::holding(vec![plain("A", "6v6"), plain("B", "6v6")]);
    let diff = state.mode_diff(&vec![plain("B", "6v6"), plain("C", "6v6")]).unwrap();
    assert_eq!(names(&diff.added.to_vec()), vec!["C".to_string()]);
    assert_eq!(names(&diff.removed.to_vec()), vec!["A".to_string()]);
    assert_eq!(names(&state.previous_modes().unwrap()), vec!["A".to_string(), "B".to_string()]);
}

#[test]
fn copy_of_copies_every_record() {
    let modes = vec![plain("A", "6v6"), plain("B", "3v3")];
    let copy = copy_of(&modes);
    assert_eq!(names(&copy), vec!["A".to_string(), "B".to_string()]);
    assert_eq!(copy[1].players, "3v3");
}
