use banshee::checkpoint::{
    content_file_name, file_mapping, lookup_index, restore_mode_from, restore_writes, select_requested,
    snapshot_file_name, stale_checkpoints, CheckpointFileData, CheckpointMetadata, FileSnapshot, RestoreMode,
    Timestamp,
};

fn snap(path: &str, original: &str, current: &str) -> FileSnapshot {
    FileSnapshot { path: path.to_string(), original_content: original.to_string(), current_content: current.to_string(), checksum: None }
}

#[test]
fn file_names() {
    assert_eq!(snapshot_file_name(0), "file_0.json");
    assert_eq!(snapshot_file_name(12), "file_12.json");
    assert_eq!(content_file_name(7), "content_7.txt");
}

#[test]
fn mapping_later_duplicate_wins() {
    let files = vec![snap("a", "1", "2"), snap("b", "3", "4"), snap("a", "5", "6")];
    let mut m = file_mapping(&files);
    m.sort();
    assert_eq!(m, vec![("a".to_string(), 2), ("b".to_string(), 1)]);
    assert!(file_mapping(&Vec::new()).is_empty());
}

#[test]
fn round_trip_original_and_current() {
    let files = vec![snap("src/a.rs", "old a", "new a"), snap("/proj/b.rs", "old b", "new b"), snap("/far/c.rs", "old c", "new c")];
    let mapping = file_mapping(&files);
    let entries: Vec<(String, FileSnapshot)> = mapping.iter().map(|(p, i)| (p.clone(), files[*i].clone())).collect();
    let mut original = restore_writes("/proj", &entries, RestoreMode::Original);
    original.sort();
    assert_eq!(
        original,
        vec![
            ("/proj/b.rs".to_string(), "old b".to_string()),
            ("/proj/c.rs".to_string(), "old c".to_string()),
            ("/proj/src/a.rs".to_string(), "old a".to_string()),
        ]
    );
    let mut current = restore_writes("/proj", &entries, restore_mode_from("current"));
    current.sort();
    assert_eq!(current[2], ("/proj/src/a.rs".to_string(), "new a".to_string()));
    assert_eq!(restore_mode_from("original"), RestoreMode::Original);
    assert_eq!(restore_mode_from("whatever"), RestoreMode::Original);
}

#[test]
fn lookups() {
    let files = vec![snap("a", "", ""), snap("b", "", "")];
    let m = file_mapping(&files);
    assert_eq!(lookup_index(&m, "b"), Ok(1));
    assert_eq!(lookup_index(&m, "z"), Err("File not found in checkpoint: z".to_string()));
    let (found, err) = select_requested(&m, &vec!["b".to_string(), "a".to_string()]);
    assert_eq!(found, vec![("b".to_string(), 1), ("a".to_string(), 0)]);
    assert_eq!(err, None);
    let (found, err) = select_requested(&m, &vec!["a".to_string(), "q".to_string(), "b".to_string()]);
    assert_eq!(found, vec![("a".to_string(), 0)]);
    assert_eq!(err, Some("File not found in checkpoint: q".to_string()));
}

fn ts(secs: i64, nanos: u32) -> Timestamp {
    Timestamp { secs, nanos }
}

fn listing() -> Vec<(String, Timestamp)> {
    vec![
        ("c1".to_string(), ts(100, 0)),
        ("c2".to_string(), ts(300, 0)),
        ("c3".to_string(), ts(200, 5)),
        ("c4".to_string(), ts(200, 9)),
    ]
}

#[test]
fn retention_keeps_newest() {
    assert_eq!(stale_checkpoints(&listing(), 2), vec!["c1".to_string(), "c3".to_string()]);
    assert_eq!(stale_checkpoints(&listing(), 1), vec!["c1".to_string(), "c3".to_string(), "c4".to_string()]);
}

#[test]
fn retention_edges() {
    assert_eq!(stale_checkpoints(&listing(), 0), vec!["c1".to_string(), "c2".to_string(), "c3".to_string(), "c4".to_string()]);
    assert!(stale_checkpoints(&listing(), 4).is_empty());
    assert!(stale_checkpoints(&listing(), 10).is_empty());
    assert!(stale_checkpoints(&Vec::new(), 0).is_empty());
}

#[test]
fn retention_ties_keep_listed_order() {
    let l = vec![("x".to_string(), ts(5, 0)), ("y".to_string(), ts(5, 0)), ("z".to_string(), ts(5, 0))];
    assert_eq!(stale_checkpoints(&l, 1), vec!["y".to_string(), "z".to_string()]);
}

#[test]
fn metadata_for_save() {
    let files = vec![snap("a", "", ""), snap("b", "", "")];
    let m = CheckpointMetadata::for_save("cp1".to_string(), &files, Some("edit".to_string()), Some("main".to_string()), None);
    assert_eq!(m.id, "cp1");
    assert_eq!(m.checkpoint_type, "auto");
    assert_eq!(m.file_count, 2);
    assert_eq!(m.trigger.as_deref(), Some("edit"));
    assert_eq!(m.git_branch.as_deref(), Some("main"));
    assert!(m.name.is_none() && m.git_commit.is_none());
    assert!(m.timestamp.secs > 1_600_000_000);
    let d = CheckpointFileData::from_snapshot(snap("p", "o", "c"));
    assert_eq!((d.path.as_str(), d.original_content.as_str(), d.current_content.as_str()), ("p", "o", "c"));
}

use banshee::checkpoint::newest_first;

#[test]
fn listing_newest_first() {
    assert_eq!(newest_first(&listing()), vec![1, 3, 2, 0]);
    let ties = vec![("x".to_string(), ts(5, 0)), ("y".to_string(), ts(7, 0)), ("z".to_string(), ts(5, 0))];
    assert_eq!(newest_first(&ties), vec![1, 0, 2]);
    assert!(newest_first(&Vec::new()).is_empty());
    let kept: Vec<usize> = newest_first(&listing()).into_iter().take(2).collect();
    let stale = stale_checkpoints(&listing(), 2);
    for i in kept {
        assert!(!stale.contains(&listing()[i].0));
    }
}
