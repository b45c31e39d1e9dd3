use dcautoquest::path::{path_to_portable_string, RelPath};
use dcautoquest::workspace::{
    build_isolated_work_dir, fake_games_root, temp_root, FAKE_GAMES_DIR_NAME, TEMP_ROOT_NAME,
};

fn path(parts: &[&str]) -> RelPath {
    RelPath { parts: parts.iter().map(|part| part.to_string()).collect() }
}

#[test]
fn uses_system_temp_directory() {
    assert_eq!(temp_root(), path(&[TEMP_ROOT_NAME]));
}

#[test]
fn builds_fake_game_directory_under_temp_root() {
    let dir = build_isolated_work_dir("Overwatch 2", 4242, 1_700_000_000_000_000_001);

    assert!(dir.parts.starts_with(&temp_root().join(&path(&[FAKE_GAMES_DIR_NAME])).parts));
    assert!(path_to_portable_string(&dir).contains("Overwatch 2"));
}

#[test]
fn work_directories_are_named_exactly() {
    assert_eq!(
        build_isolated_work_dir("Overwatch 2", 4242, 1_700_000_000_000_000_001),
        path(&["DCAutoQuest", "fake_games", "Overwatch 2-4242-1700000000000000001"])
    );
    assert_eq!(fake_games_root(), path(&["DCAutoQuest", "fake_games"]));
}

#[test]
fn work_directories_differ() {
    let dir = build_isolated_work_dir("A-1", 2, 3);
    assert_ne!(dir, build_isolated_work_dir("A", 12, 3));
    assert_ne!(dir, build_isolated_work_dir("A-1", 2, 4));
    assert_ne!(dir, build_isolated_work_dir("A-1-2", 2, 3));
}

#[test]
fn paths_join_and_have_parents() {
    let a = path(&["a", "b"]);
    assert_eq!(a.join(&path(&["c"])), path(&["a", "b", "c"]));
    assert_eq!(a.parent(), path(&["a"]));
    assert_eq!(path(&[]).parent(), path(&[]));
    assert_eq!(a.duplicate(), a);
    assert_eq!(path_to_portable_string(&a), "a/b");
    assert_eq!(path_to_portable_string(&path(&[])), "");
}
