use banshee::paths::{checkpoint_dir, checkpoints_dir, format_path, join_path, path_is_absolute, resolve_target_path};
use banshee::text::{command_display, join_spaces, same_text, timestamp_ms};

#[test]
fn joining() {
    assert_eq!(join_path("/a", "b"), "/a/b");
    assert_eq!(join_path("/a/", "b"), "/a/b");
    assert_eq!(join_path("", "b"), "b");
    assert_eq!(join_path("/a", "/b"), "/b");
    assert!(path_is_absolute("/x") && !path_is_absolute("x") && !path_is_absolute(""));
}

#[test]
fn checkpoint_directories() {
    assert_eq!(checkpoints_dir("/proj"), "/proj/.conductor/hartford/.checkpoints");
    assert_eq!(checkpoint_dir("/proj", "cp-1"), "/proj/.conductor/hartford/.checkpoints/cp-1");
}

#[test]
fn target_paths() {
    assert_eq!(resolve_target_path("/proj", "src/a.rs"), "/proj/src/a.rs");
    assert_eq!(resolve_target_path("/proj", "/proj/src/a.rs"), "/proj/src/a.rs");
    assert_eq!(resolve_target_path("/proj", "/other/dir/b.rs"), "/proj/b.rs");
    assert_eq!(resolve_target_path("/proj", "/"), "/proj");
}

#[test]
fn shown_paths() {
    assert_eq!(format_path("/proj/src/a.rs", "/proj"), "src/a.rs");
    assert_eq!(format_path("/proj2/a.rs", "/proj"), "/proj2/a.rs");
    assert_eq!(format_path("/proj", "/proj"), "");
}

#[test]
fn text_helpers() {
    assert_eq!(join_spaces(&vec!["a".to_string(), "b c".to_string()]), "a b c");
    assert_eq!(join_spaces(&Vec::new()), "");
    assert_eq!(command_display(&vec!["rm".to_string(), "-rf".to_string(), "x y".to_string()]), "rm -rf 'x y'");
    assert!(same_text("ab", "ab") && !same_text("ab", "abc"));
    assert!(timestamp_ms() > 1_600_000_000_000);
}
