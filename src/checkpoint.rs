//! Checkpoints of edited files: their records, the path to index mapping,
//! what a restore writes, and which old checkpoints a retention count deletes.
use vstd::prelude::*;
use vstd::set_lib::{lemma_int_range, lemma_map_size, lemma_subset_equality, set_int_range};
use crate::paths::{resolve_target_path, spec_target_path};
use crate::text::{digits_of, push_digits, same_text};

verus! {

/// One file as a checkpoint holds it: its content before and after the edit.
#[derive(Clone, Debug)]
pub struct FileSnapshot {
    pub path: String,
    pub original_content: String,
    pub current_content: String,
    pub checksum: Option<String>,
}

/// A UTC instant: whole seconds since the Unix epoch and the nanoseconds past them.
#[derive(Clone, Copy, Debug, PartialEq, Eq, Structural)]
pub struct Timestamp {
    pub secs: i64,
    pub nanos: u32,
}

/// Whether instant `a` comes strictly after instant `b`.
pub open spec fn later(a: Timestamp, b: Timestamp) -> bool {
    a.secs > b.secs || (a.secs == b.secs && a.nanos > b.nanos)
}

pub fn is_later(a: &Timestamp, b: &Timestamp) -> (r: bool)
    ensures
        r == later(*a, *b),
{
    a.secs > b.secs || (a.secs == b.secs && a.nanos > b.nanos)
}

/// What is recorded about a checkpoint besides its files.
#[derive(Clone, Debug)]
pub struct CheckpointMetadata {
    pub id: String,
    pub timestamp: Timestamp,
    pub name: Option<String>,
    pub checkpoint_type: String,
    pub trigger: Option<String>,
    pub file_count: usize,
    pub git_branch: Option<String>,
    pub git_commit: Option<String>,
}

/// One file of a checkpoint as the application reads it.
#[derive(Clone, Debug)]
pub struct CheckpointFileData {
    pub path: String,
    pub original_content: String,
    pub current_content: String,
}

/// Which of its two contents a restored file gets.
#[derive(Clone, Copy, Debug, PartialEq, Eq, Structural)]
pub enum RestoreMode {
    Original,
    Current,
}

/// Relies on chrono::Utc::now, read with DateTime::timestamp and
/// DateTime::timestamp_subsec_nanos.
#[verifier::external_body]
fn now_timestamp() -> (r: Timestamp) {
    let now = chrono::Utc::now();
    Timestamp { secs: now.timestamp(), nanos: now.timestamp_subsec_nanos() }
}

impl CheckpointMetadata {
    /// The record of a checkpoint saved automatically at `timestamp`.
    pub fn auto(
        id: String,
        timestamp: Timestamp,
        trigger: Option<String>,
        file_count: usize,
        git_branch: Option<String>,
        git_commit: Option<String>,
    ) -> (r: Self)
        ensures
            r.id == id,
            r.timestamp == timestamp,
            r.name is None,
            r.checkpoint_type@ == "auto"@,
            r.trigger == trigger,
            r.file_count == file_count,
            r.git_branch == git_branch,
            r.git_commit == git_commit,
    {
        CheckpointMetadata {
            id,
            timestamp,
            name: None,
            checkpoint_type: "auto".to_string(),
            trigger,
            file_count,
            git_branch,
            git_commit,
        }
    }

    /// The record of a checkpoint of `files` saved now.
    pub fn for_save(
        id: String,
        files: &Vec<FileSnapshot>,
        trigger: Option<String>,
        git_branch: Option<String>,
        git_commit: Option<String>,
    ) -> (r: Self)
        ensures
            r.id == id,
            r.name is None,
            r.checkpoint_type@ == "auto"@,
            r.trigger == trigger,
            r.file_count == files@.len(),
            r.git_branch == git_branch,
            r.git_commit == git_commit,
    {
        let timestamp = now_timestamp();
        CheckpointMetadata::auto(id, timestamp, trigger, files.len(), git_branch, git_commit)
    }
}

impl CheckpointFileData {
    pub fn from_snapshot(s: FileSnapshot) -> (r: Self)
        ensures
            r.path == s.path,
            r.original_content == s.original_content,
            r.current_content == s.current_content,
    {
        CheckpointFileData {
            path: s.path,
            original_content: s.original_content,
            current_content: s.current_content,
        }
    }
}

pub open spec fn spec_restore_mode(mode: Seq<char>) -> RestoreMode {
    if mode == "current"@ {
        RestoreMode::Current
    } else {
        RestoreMode::Original
    }
}

/// "current" restores the current contents; any other word the originals.
pub fn restore_mode_from(mode: &str) -> (r: RestoreMode)
    ensures
        r == spec_restore_mode(mode@),
{
    if same_text(mode, "current") {
        RestoreMode::Current
    } else {
        RestoreMode::Original
    }
}

// ----- file names inside a checkpoint -----

pub open spec fn spec_snapshot_name(index: nat) -> Seq<char> {
    "file_"@ + digits_of(index) + ".json"@
}

pub open spec fn spec_content_name(index: nat) -> Seq<char> {
    "content_"@ + digits_of(index) + ".txt"@
}

/// The name of the record of file `index`.
pub fn snapshot_file_name(index: usize) -> (r: String)
    ensures
        r@ == spec_snapshot_name(index as nat),
{
    let mut out = "file_".to_string();
    push_digits(&mut out, index as u64);
    out.append(".json");
    out
}

/// The name of the raw current content of file `index`.
pub fn content_file_name(index: usize) -> (r: String)
    ensures
        r@ == spec_content_name(index as nat),
{
    let mut out = "content_".to_string();
    push_digits(&mut out, index as u64);
    out.append(".txt");
    out
}

// ----- the path to index mapping -----

/// `e`'s index is the last one in `files` whose path is `e`'s path.
pub open spec fn last_holder(e: (String, usize), files: Seq<FileSnapshot>) -> bool {
    let i = e.1 as int;
    &&& i < files.len()
    &&& files[i].path@ == e.0@
    &&& forall|l: int| i < l < files.len() ==> files[l].path@ != e.0@
}

/// `mapping` sends each path of `files` to the last index that holds it, and
/// has one entry per path.
pub open spec fn mapping_of(mapping: Seq<(String, usize)>, files: Seq<FileSnapshot>) -> bool {
    &&& forall|a: int, b: int| 0 <= a < b < mapping.len() ==> mapping[a].0@ != mapping[b].0@
    &&& forall|j: int| 0 <= j < mapping.len() ==> #[trigger] last_holder(mapping[j], files)
    &&& forall|i: int|
        0 <= i < files.len() ==> exists|j: int| 0 <= j < mapping.len() && mapping[j].0@ == #[trigger] files[i].path@
}

proof fn lemma_mapping_replace(
    before: Seq<(String, usize)>,
    after: Seq<(String, usize)>,
    prev: Seq<FileSnapshot>,
    next: Seq<FileSnapshot>,
    j: int,
)
    requires
        mapping_of(before, prev),
        next.len() == prev.len() + 1,
        forall|l: int| 0 <= l < prev.len() ==> next[l] == prev[l],
        0 <= j < before.len(),
        before[j].0@ == next[prev.len() as int].path@,
        after.len() == before.len(),
        after[j].0@ == next[prev.len() as int].path@,
        after[j].1 == prev.len(),
        forall|k: int| 0 <= k < before.len() && k != j ==> after[k] == before[k],
    ensures
        mapping_of(after, next),
{
    let i = prev.len() as int;
    assert forall|a: int, b: int| 0 <= a < b < after.len() implies after[a].0@ != after[b].0@ by {
        assert(before[a].0@ != before[b].0@);
        if a != j && b != j {
            assert(after[a] == before[a]);
            assert(after[b] == before[b]);
        } else if a == j {
            assert(after[b] == before[b]);
        } else {
            assert(after[a] == before[a]);
        }
    }
    assert forall|k: int| 0 <= k < after.len() implies #[trigger] last_holder(after[k], next) by {
        if k != j {
            assert(before[k].0@ != before[j].0@);
            assert(after[k] == before[k]);
            assert(last_holder(before[k], prev));
            let x = before[k].1 as int;
            assert(prev[x] == next[x]);
            assert forall|l: int| x < l < next.len() implies next[l].path@ != after[k].0@ by {
                if l < i {
                    assert(prev[l] == next[l]);
                }
            }
        }
    }
    assert forall|m: int| 0 <= m < next.len() implies exists|k: int|
        0 <= k < after.len() && after[k].0@ == #[trigger] next[m].path@ by {
        if m < i {
            assert(prev[m] == next[m]);
            let k = choose|k: int| 0 <= k < before.len() && before[k].0@ == prev[m].path@;
            if k != j {
                assert(after[k] == before[k]);
            }
        } else {
            assert(after[j].0@ == next[m].path@);
        }
    }
}

proof fn lemma_mapping_append(
    before: Seq<(String, usize)>,
    after: Seq<(String, usize)>,
    prev: Seq<FileSnapshot>,
    next: Seq<FileSnapshot>,
)
    requires
        mapping_of(before, prev),
        next.len() == prev.len() + 1,
        forall|l: int| 0 <= l < prev.len() ==> next[l] == prev[l],
        forall|k: int| 0 <= k < before.len() ==> before[k].0@ != next[prev.len() as int].path@,
        after.len() == before.len() + 1,
        forall|k: int| 0 <= k < before.len() ==> after[k] == before[k],
        after[before.len() as int].0@ == next[prev.len() as int].path@,
        after[before.len() as int].1 == prev.len(),
    ensures
        mapping_of(after, next),
{
    let i = prev.len() as int;
    let n = before.len() as int;
    assert forall|a: int, b: int| 0 <= a < b < after.len() implies after[a].0@ != after[b].0@ by {
        assert(after[a] == before[a]);
        if b < n {
            assert(after[b] == before[b]);
            assert(before[a].0@ != before[b].0@);
        }
    }
    assert forall|k: int| 0 <= k < after.len() implies #[trigger] last_holder(after[k], next) by {
        if k < n {
            assert(after[k] == before[k]);
            assert(last_holder(before[k], prev));
            let x = before[k].1 as int;
            assert(prev[x] == next[x]);
            assert forall|l: int| x < l < next.len() implies next[l].path@ != after[k].0@ by {
                if l < i {
                    assert(prev[l] == next[l]);
                }
            }
        }
    }
    assert forall|m: int| 0 <= m < next.len() implies exists|k: int|
        0 <= k < after.len() && after[k].0@ == #[trigger] next[m].path@ by {
        if m < i {
            assert(prev[m] == next[m]);
            let k = choose|k: int| 0 <= k < before.len() && before[k].0@ == prev[m].path@;
            assert(after[k] == before[k]);
        } else {
            assert(after[n].0@ == next[m].path@);
        }
    }
}

/// The path to index mapping of a checkpoint: a later file with the same
/// path takes the place of an earlier one.
pub fn file_mapping(files: &Vec<FileSnapshot>) -> (r: Vec<(String, usize)>)
    ensures
        mapping_of(r@, files@),
{
    let mut out: Vec<(String, usize)> = Vec::new();
    let mut i: usize = 0;
    while i < files.len()
        invariant
            i <= files@.len(),
            mapping_of(out@, files@.subrange(0, i as int)),
        decreases files@.len() - i,
    {
        let ghost prev = files@.subrange(0, i as int);
        let ghost next = files@.subrange(0, i as int + 1);
        let ghost before = out@;
        let path = &files[i].path;
        let mut j: usize = 0;
        let mut found: Option<usize> = None;
        while j < out.len() && found.is_none()
            invariant
                j <= out@.len(),
                out@ == before,
                match found {
                    Some(f) => f < before.len() && before[f as int].0@ == path@,
                    None => forall|l: int| 0 <= l < j ==> before[l].0@ != path@,
                },
            decreases out@.len() - j,
        {
            if same_text(out[j].0.as_str(), path.as_str()) {
                found = Some(j);
            }
            j = j + 1;
        }
        proof {
            assert(next[i as int] == files@[i as int]);
        }
        match found {
            Some(f) => {
                out.set(f, (path.clone(), i));
                proof {
                    lemma_mapping_replace(before, out@, prev, next, f as int);
                }
            },
            None => {
                out.push((path.clone(), i));
                proof {
                    lemma_mapping_append(before, out@, prev, next);
                }
            },
        }
        i = i + 1;
    }
    assert(files@.subrange(0, files@.len() as int) =~= files@);
    out
}

// ----- restoring -----

pub open spec fn mode_content(f: FileSnapshot, mode: RestoreMode) -> Seq<char> {
    match mode {
        RestoreMode::Current => f.current_content@,
        RestoreMode::Original => f.original_content@,
    }
}

/// `writes` puts, for each recorded file in turn, the chosen content at the
/// file's place under the project root.
pub open spec fn restore_matches(
    root: Seq<char>,
    entries: Seq<(String, FileSnapshot)>,
    mode: RestoreMode,
    writes: Seq<(String, String)>,
) -> bool {
    &&& writes.len() == entries.len()
    &&& forall|j: int|
        0 <= j < entries.len() ==> (#[trigger] writes[j]).0@ == spec_target_path(root, entries[j].0@)
            && writes[j].1@ == mode_content(entries[j].1, mode)
}

/// The files to write to restore a checkpoint: each recorded path with the
/// record read for it, as (target path, content).
pub fn restore_writes(project_root: &str, entries: &Vec<(String, FileSnapshot)>, mode: RestoreMode) -> (r: Vec<(String, String)>)
    ensures
        restore_matches(project_root@, entries@, mode, r@),
{
    let mut out: Vec<(String, String)> = Vec::new();
    let mut j: usize = 0;
    while j < entries.len()
        invariant
            j <= entries@.len(),
            out@.len() == j,
            forall|k: int|
                0 <= k < j ==> (#[trigger] out@[k]).0@ == spec_target_path(project_root@, entries@[k].0@)
                    && out@[k].1@ == mode_content(entries@[k].1, mode),
        decreases entries@.len() - j,
    {
        let target = resolve_target_path(project_root, entries[j].0.as_str());
        let content = match mode {
            RestoreMode::Current => entries[j].1.current_content.clone(),
            RestoreMode::Original => entries[j].1.original_content.clone(),
        };
        out.push((target, content));
        j = j + 1;
    }
    out
}

pub open spec fn mapped_index(mapping: Seq<(String, usize)>, path: Seq<char>, i: usize) -> bool {
    exists|j: int| 0 <= j < mapping.len() && mapping[j].0@ == path && mapping[j].1 == i
}

pub open spec fn is_mapped(mapping: Seq<(String, usize)>, path: Seq<char>) -> bool {
    exists|j: int| 0 <= j < mapping.len() && #[trigger] mapping[j].0@ == path
}

fn find_mapped(mapping: &Vec<(String, usize)>, path: &str) -> (r: Option<usize>)
    ensures
        r matches Some(i) ==> mapped_index(mapping@, path@, i),
        r is None <==> !is_mapped(mapping@, path@),
{
    let mut j: usize = 0;
    while j < mapping.len()
        invariant
            j <= mapping@.len(),
            forall|k: int| 0 <= k < j ==> mapping@[k].0@ != path@,
        decreases mapping@.len() - j,
    {
        if same_text(mapping[j].0.as_str(), path) {
            return Some(mapping[j].1);
        }
        j = j + 1;
    }
    None
}

/// The index recorded for a path, or the error that the checkpoint lacks it.
pub fn lookup_index(mapping: &Vec<(String, usize)>, path: &str) -> (r: Result<usize, String>)
    ensures
        r matches Ok(i) ==> mapped_index(mapping@, path@, i),
        r is Err <==> !is_mapped(mapping@, path@),
        r matches Err(e) ==> e@ == "File not found in checkpoint: "@ + path@,
{
    match find_mapped(mapping, path) {
        Some(i) => Ok(i),
        None => {
            let mut e = "File not found in checkpoint: ".to_string();
            e.append(path);
            Err(e)
        },
    }
}

/// The requested files up to the first one that the checkpoint lacks, each
/// with its index, and the error for that one if there is one.
pub fn select_requested(mapping: &Vec<(String, usize)>, requested: &Vec<String>) -> (r: (
    Vec<(String, usize)>,
    Option<String>,
))
    ensures
        r.0@.len() <= requested@.len(),
        forall|k: int|
            0 <= k < r.0@.len() ==> (#[trigger] r.0@[k]).0@ == requested@[k]@ && mapped_index(
                mapping@,
                requested@[k]@,
                r.0@[k].1,
            ),
        r.1 is Some <==> r.0@.len() < requested@.len(),
        r.1 matches Some(e) ==> !is_mapped(mapping@, requested@[r.0@.len() as int]@) && e@
            == "File not found in checkpoint: "@ + requested@[r.0@.len() as int]@,
{
    let mut out: Vec<(String, usize)> = Vec::new();
    let mut k: usize = 0;
    while k < requested.len()
        invariant
            k <= requested@.len(),
            out@.len() == k,
            forall|m: int|
                0 <= m < k ==> (#[trigger] out@[m]).0@ == requested@[m]@ && mapped_index(
                    mapping@,
                    requested@[m]@,
                    out@[m].1,
                ),
        decreases requested@.len() - k,
    {
        match lookup_index(mapping, requested[k].as_str()) {
            Ok(i) => out.push((requested[k].clone(), i)),
            Err(e) => {
                return (out, Some(e));
            },
        }
        k = k + 1;
    }
    (out, None)
}

/// Some write puts `f`'s chosen content at its place under the root.
pub open spec fn restores_file(writes: Seq<(String, String)>, root: Seq<char>, f: FileSnapshot, mode: RestoreMode) -> bool {
    exists|j: int|
        0 <= j < writes.len() && writes[j].0@ == spec_target_path(root, f.path@) && writes[j].1@
            == mode_content(f, mode)
}

/// `w` puts some saved file's chosen content at that file's place.
pub open spec fn writes_some_file(w: (String, String), files: Seq<FileSnapshot>, root: Seq<char>, mode: RestoreMode) -> bool {
    exists|i: int|
        0 <= i < files.len() && w.0@ == spec_target_path(root, files[i].path@) && w.1@ == mode_content(
            files[i],
            mode,
        )
}

/// Restoring what was saved gives back each file's chosen content at its
/// place under the project root, and writes nothing else; this holds where
/// no two saved files share a path and each record is read back as it was
/// saved.
pub proof fn lemma_checkpoint_round_trip(
    root: Seq<char>,
    files: Seq<FileSnapshot>,
    mapping: Seq<(String, usize)>,
    entries: Seq<(String, FileSnapshot)>,
    mode: RestoreMode,
    writes: Seq<(String, String)>,
)
    requires
        forall|a: int, b: int| 0 <= a < b < files.len() ==> files[a].path@ != files[b].path@,
        mapping_of(mapping, files),
        entries.len() == mapping.len(),
        forall|j: int|
            0 <= j < mapping.len() ==> (#[trigger] entries[j]).0 == mapping[j].0 && entries[j].1
                == files[mapping[j].1 as int],
        restore_matches(root, entries, mode, writes),
    ensures
        forall|i: int| 0 <= i < files.len() ==> restores_file(writes, root, #[trigger] files[i], mode),
        forall|j: int| 0 <= j < writes.len() ==> writes_some_file(#[trigger] writes[j], files, root, mode),
{
    assert forall|i: int| 0 <= i < files.len() implies restores_file(writes, root, #[trigger] files[i], mode) by {
        let j = choose|j: int| 0 <= j < mapping.len() && mapping[j].0@ == files[i].path@;
        assert(last_holder(mapping[j], files));
        let x = mapping[j].1 as int;
        if x != i {
            if x < i {
                assert(files[x].path@ != files[i].path@);
            } else {
                assert(files[i].path@ != files[x].path@);
            }
        }
        assert(entries[j].1 == files[i]);
        assert(writes[j].0@ == spec_target_path(root, entries[j].0@));
    }
    assert forall|j: int| 0 <= j < writes.len() implies writes_some_file(#[trigger] writes[j], files, root, mode) by {
        assert(last_holder(mapping[j], files));
        let x = mapping[j].1 as int;
        assert(entries[j].1 == files[x]);
        assert(writes[j].0@ == spec_target_path(root, entries[j].0@));
    }
}

// ----- retention -----

/// In the newest-first order of the checkpoints (ties keep their listed
/// order), whether entry `a` comes before entry `b`.
pub open spec fn precedes(s: Seq<(String, Timestamp)>, a: int, b: int) -> bool {
    later(s[a].1, s[b].1) || (s[a].1 == s[b].1 && a < b)
}

/// How many of the first `n` entries come before entry `i`.
pub open spec fn count_before(s: Seq<(String, Timestamp)>, i: int, n: int) -> nat
    decreases n,
{
    if n <= 0 {
        0
    } else {
        count_before(s, i, n - 1) + (if precedes(s, n - 1, i) {
            1nat
        } else {
            0nat
        })
    }
}

/// The place of entry `i` in the newest-first order, counted from 0.
pub open spec fn rank(s: Seq<(String, Timestamp)>, i: int) -> nat {
    count_before(s, i, s.len() as int)
}

/// The paths of the first `n` entries that fall beyond the `keep` newest, in listed order.
pub open spec fn stale_paths(s: Seq<(String, Timestamp)>, keep: nat, n: int) -> Seq<Seq<char>>
    decreases n,
{
    if n <= 0 {
        Seq::empty()
    } else if rank(s, n - 1) >= keep {
        stale_paths(s, keep, n - 1).push(s[n - 1].0@)
    } else {
        stale_paths(s, keep, n - 1)
    }
}

fn rank_of(entries: &Vec<(String, Timestamp)>, i: usize) -> (r: usize)
    requires
        i < entries@.len(),
    ensures
        r == rank(entries@, i as int),
{
    let mut n: usize = 0;
    let mut count: usize = 0;
    while n < entries.len()
        invariant
            n <= entries@.len(),
            i < entries@.len(),
            count == count_before(entries@, i as int, n as int),
            count <= n,
        decreases entries@.len() - n,
    {
        let before = is_later(&entries[n].1, &entries[i].1) || (entries[n].1 == entries[i].1 && n < i);
        if before {
            count = count + 1;
        }
        n = n + 1;
    }
    count
}

/// The checkpoints to delete so that only the `keep` newest remain: those
/// beyond the first `keep` in newest-first order, in listed order.
pub fn stale_checkpoints(entries: &Vec<(String, Timestamp)>, keep: usize) -> (r: Vec<String>)
    ensures
        r@.map_values(|p: String| p@) == stale_paths(entries@, keep as nat, entries@.len() as int),
{
    let mut out: Vec<String> = Vec::new();
    let mut i: usize = 0;
    while i < entries.len()
        invariant
            i <= entries@.len(),
            out@.map_values(|p: String| p@) == stale_paths(entries@, keep as nat, i as int),
        decreases entries@.len() - i,
    {
        let ghost before = out@;
        if rank_of(entries, i) >= keep {
            out.push(entries[i].0.clone());
            assert(out@.map_values(|p: String| p@) =~= before.map_values(|p: String| p@).push(
                entries@[i as int].0@,
            ));
        }
        i = i + 1;
    }
    out
}

proof fn lemma_count_bound(s: Seq<(String, Timestamp)>, i: int, n: int)
    ensures
        count_before(s, i, n) <= if n < 0 { 0 } else { n },
    decreases n,
{
    if n > 0 {
        lemma_count_bound(s, i, n - 1);
    }
}

proof fn lemma_count_less(s: Seq<(String, Timestamp)>, i: int, j: int, n: int)
    requires
        0 <= i < s.len(),
        0 <= j < s.len(),
        precedes(s, i, j),
        i < n <= s.len(),
    ensures
        count_before(s, i, n) < count_before(s, j, n),
    decreases n,
{
    lemma_count_monotone(s, i, j, n - 1);
    if n - 1 > i {
        lemma_count_less(s, i, j, n - 1);
    }
    assert(!precedes(s, i, i));
}

proof fn lemma_count_monotone(s: Seq<(String, Timestamp)>, i: int, j: int, n: int)
    requires
        0 <= i < s.len(),
        0 <= j < s.len(),
        precedes(s, i, j),
        n <= s.len(),
    ensures
        count_before(s, i, n) <= count_before(s, j, n),
    decreases n,
{
    if n > 0 {
        lemma_count_monotone(s, i, j, n - 1);
        if precedes(s, n - 1, i) {
            assert(precedes(s, n - 1, j));
        }
    }
}

proof fn lemma_rank_bound(s: Seq<(String, Timestamp)>, i: int, n: int)
    requires
        0 <= i < n,
    ensures
        count_before(s, i, n) < n,
    decreases n,
{
    if n - 1 > i {
        lemma_rank_bound(s, i, n - 1);
    } else {
        lemma_count_bound(s, i, n - 1);
        assert(!precedes(s, i, i));
    }
}

proof fn lemma_stale_paths_all(s: Seq<(String, Timestamp)>, n: int)
    requires
        0 <= n <= s.len(),
    ensures
        stale_paths(s, 0, n) == s.subrange(0, n).map_values(|e: (String, Timestamp)| e.0@),
    decreases n,
{
    if n > 0 {
        lemma_stale_paths_all(s, n - 1);
        assert(s.subrange(0, n).map_values(|e: (String, Timestamp)| e.0@) =~= s.subrange(0, n - 1).map_values(
            |e: (String, Timestamp)| e.0@,
        ).push(s[n - 1].0@));
    } else {
        assert(s.subrange(0, 0).map_values(|e: (String, Timestamp)| e.0@) =~= Seq::<Seq<char>>::empty());
    }
}

proof fn lemma_stale_paths_none(s: Seq<(String, Timestamp)>, keep: nat, n: int)
    requires
        keep >= s.len(),
        n <= s.len(),
    ensures
        stale_paths(s, keep, n) == Seq::<Seq<char>>::empty(),
    decreases n,
{
    if n > 0 {
        lemma_stale_paths_none(s, keep, n - 1);
        lemma_rank_bound(s, n - 1, s.len() as int);
    }
}

proof fn lemma_ranks_distinct(s: Seq<(String, Timestamp)>, i: int, j: int)
    requires
        0 <= i < s.len(),
        0 <= j < s.len(),
        i != j,
    ensures
        rank(s, i) != rank(s, j),
{
    if precedes(s, i, j) {
        lemma_count_less(s, i, j, s.len() as int);
    } else {
        assert(precedes(s, j, i));
        lemma_count_less(s, j, i, s.len() as int);
    }
}

/// The entries among the first `m` that stay.
pub open spec fn kept_set(s: Seq<(String, Timestamp)>, keep: nat, m: int) -> Set<int> {
    Set::new(|i: int| 0 <= i < m && rank(s, i) < keep)
}

proof fn lemma_stale_len(s: Seq<(String, Timestamp)>, keep: nat, m: int)
    requires
        0 <= m <= s.len(),
    ensures
        kept_set(s, keep, m).finite(),
        stale_paths(s, keep, m).len() == m - kept_set(s, keep, m).len(),
    decreases m,
{
    if m == 0 {
        assert(kept_set(s, keep, 0) =~= Set::<int>::empty());
    } else {
        lemma_stale_len(s, keep, m - 1);
        if rank(s, m - 1) < keep {
            assert(kept_set(s, keep, m) =~= kept_set(s, keep, m - 1).insert(m - 1));
        } else {
            assert(kept_set(s, keep, m) =~= kept_set(s, keep, m - 1));
        }
    }
}

proof fn lemma_kept_count(s: Seq<(String, Timestamp)>, keep: nat)
    ensures
        kept_set(s, keep, s.len() as int).len() == if keep < s.len() { keep as int } else { s.len() as int },
{
    let n = s.len() as int;
    let lim = if keep < s.len() { keep as int } else { n };
    let all = set_int_range(0, n);
    let f = |i: int| rank(s, i) as int;
    lemma_int_range(0, n);
    lemma_int_range(0, lim);
    assert(vstd::relations::injective_on(f, all)) by {
        assert forall|a: int, b: int| all.contains(a) && all.contains(b) && #[trigger] f(a) == #[trigger] f(b)
            implies a == b by {
            if a != b {
                lemma_ranks_distinct(s, a, b);
            }
        }
    }
    lemma_map_size(all, all.map(f), f);
    assert(all.map(f).subset_of(set_int_range(0, n))) by {
        assert forall|r: int| all.map(f).contains(r) implies set_int_range(0, n).contains(r) by {
            let i = choose|i: int| all.contains(i) && f(i) == r;
            lemma_rank_bound(s, i, n);
        }
    }
    lemma_subset_equality(all.map(f), set_int_range(0, n));
    let kept = kept_set(s, keep, n);
    assert(kept.subset_of(all));
    vstd::set_lib::lemma_len_subset(kept, all);
    assert(kept.map(f) =~= set_int_range(0, lim)) by {
        assert forall|r: int| kept.map(f).contains(r) implies set_int_range(0, lim).contains(r) by {
            let i = choose|i: int| kept.contains(i) && f(i) == r;
            lemma_rank_bound(s, i, n);
        }
        assert forall|r: int| set_int_range(0, lim).contains(r) implies kept.map(f).contains(r) by {
            assert(set_int_range(0, n).contains(r));
            assert(all.map(f).contains(r));
            let i = choose|i: int| all.contains(i) && f(i) == r;
            assert(kept.contains(i));
        }
    }
    assert(vstd::relations::injective_on(f, kept));
    lemma_map_size(kept, kept.map(f), f);
}

/// Every place in the newest-first order is taken by some entry.
proof fn lemma_ranks_onto(s: Seq<(String, Timestamp)>, r: int)
    requires
        0 <= r < s.len(),
    ensures
        exists|i: int| 0 <= i < s.len() && rank(s, i) == r,
{
    let n = s.len() as int;
    lemma_kept_count(s, n as nat);
    let kept = kept_set(s, n as nat, n);
    let all = set_int_range(0, n);
    lemma_int_range(0, n);
    let f = |i: int| rank(s, i) as int;
    assert(kept =~= all) by {
        assert forall|i: int| all.contains(i) implies kept.contains(i) by {
            lemma_rank_bound(s, i, n);
        }
    }
    assert(vstd::relations::injective_on(f, all)) by {
        assert forall|a: int, b: int| all.contains(a) && all.contains(b) && #[trigger] f(a) == #[trigger] f(b)
            implies a == b by {
            if a != b {
                lemma_ranks_distinct(s, a, b);
            }
        }
    }
    lemma_map_size(all, all.map(f), f);
    assert(all.map(f).subset_of(set_int_range(0, n))) by {
        assert forall|x: int| all.map(f).contains(x) implies set_int_range(0, n).contains(x) by {
            let i = choose|i: int| all.contains(i) && f(i) == x;
            lemma_rank_bound(s, i, n);
        }
    }
    lemma_subset_equality(all.map(f), set_int_range(0, n));
    assert(all.map(f).contains(r));
}

/// Entry `m` stands at its place in `order`.
pub open spec fn placed(order: Seq<usize>, s: Seq<(String, Timestamp)>, m: int) -> bool {
    rank(s, m) < order.len() && order[rank(s, m) as int] == m
}

/// The checkpoints in newest-first order (ties keep their listed order),
/// as indices into `entries`: place `j` holds the entry of rank `j`.
pub fn newest_first(entries: &Vec<(String, Timestamp)>) -> (r: Vec<usize>)
    ensures
        r@.len() == entries@.len(),
        forall|j: int| 0 <= j < r@.len() ==> r@[j] < entries@.len() && rank(entries@, r@[j] as int) == j,
{
    let n = entries.len();
    let mut order: Vec<usize> = Vec::new();
    let mut k: usize = 0;
    while k < n
        invariant
            n == entries@.len(),
            k <= n,
            order@.len() == k,
        decreases n - k,
    {
        order.push(0);
        k = k + 1;
    }
    let mut i: usize = 0;
    while i < n
        invariant
            n == entries@.len(),
            i <= n,
            order@.len() == n,
            forall|m: int| 0 <= m < i ==> #[trigger] placed(order@, entries@, m),
        decreases n - i,
    {
        let r = rank_of(entries, i);
        proof {
            lemma_rank_bound(entries@, i as int, n as int);
        }
        let ghost before = order@;
        order.set(r, i);
        proof {
            assert forall|m: int| 0 <= m < i + 1 implies #[trigger] placed(order@, entries@, m) by {
                lemma_rank_bound(entries@, m, n as int);
                if m < i {
                    lemma_ranks_distinct(entries@, m, i as int);
                    assert(placed(before, entries@, m));
                }
            }
        }
        i = i + 1;
    }
    assert forall|j: int| 0 <= j < n implies order@[j] < n && rank(entries@, order@[j] as int) == j by {
        lemma_ranks_onto(entries@, j);
        let m = choose|m: int| 0 <= m < n && rank(entries@, m) == j;
        assert(placed(order@, entries@, m));
    }
    order
}

/// Keeping the `keep` newest checkpoints deletes all but `keep` of them
/// (none where there are no more than `keep`), and a kept checkpoint is
/// never older than a deleted one; keeping none deletes all of them.
pub proof fn lemma_retention(s: Seq<(String, Timestamp)>, keep: nat)
    ensures
        stale_paths(s, keep, s.len() as int).len() == if keep < s.len() {
            s.len() - keep
        } else {
            0
        },
        forall|i: int, j: int|
            0 <= i < s.len() && 0 <= j < s.len() && #[trigger] rank(s, i) >= keep && #[trigger] rank(s, j)
                < keep ==> !later(s[i].1, s[j].1),
        keep == 0 ==> stale_paths(s, keep, s.len() as int) == s.map_values(|e: (String, Timestamp)| e.0@),
        keep >= s.len() ==> stale_paths(s, keep, s.len() as int) == Seq::<Seq<char>>::empty(),
{
    lemma_stale_len(s, keep, s.len() as int);
    lemma_kept_count(s, keep);
    assert forall|i: int, j: int|
        0 <= i < s.len() && 0 <= j < s.len() && #[trigger] rank(s, i) >= keep && #[trigger] rank(s, j)
            < keep implies !later(s[i].1, s[j].1) by {
        if later(s[i].1, s[j].1) {
            lemma_count_less(s, i, j, s.len() as int);
        }
    }
    if keep == 0 {
        lemma_stale_paths_all(s, s.len() as int);
        assert(s.subrange(0, s.len() as int) =~= s);
    }
    if keep >= s.len() {
        lemma_stale_paths_none(s, keep, s.len() as int);
    }
}

} // verus!
