//! Paths as text: joining, showing a path relative to the project, and
//! where checkpoints and restored files live.
use vstd::prelude::*;

verus! {

/// What is left of `path` once the leading components of `base` are taken
/// off, where they lead it.
pub uninterp spec fn path_rest(path: Seq<char>, base: Seq<char>) -> Option<Seq<char>>;

/// The last component of a path, where it ends in a normal one.
pub uninterp spec fn path_file_name(path: Seq<char>) -> Option<Seq<char>>;

/// Relies on std::path::Path::strip_prefix, shown with Path::display.
#[verifier::external_body]
fn strip_path_prefix(path: &str, base: &str) -> (r: Option<String>)
    ensures
        r matches Some(s) ==> path_rest(path@, base@) == Some(s@),
        r is None <==> path_rest(path@, base@) is None,
{
    std::path::Path::new(path).strip_prefix(base).ok().map(|p| p.display().to_string())
}

/// Relies on std::path::Path::file_name, shown with OsStr::to_string_lossy.
#[verifier::external_body]
fn file_name_of(path: &str) -> (r: Option<String>)
    ensures
        r matches Some(s) ==> path_file_name(path@) == Some(s@),
        r is None <==> path_file_name(path@) is None,
{
    std::path::Path::new(path).file_name().map(|n| n.to_string_lossy().into_owned())
}

/// A path that starts at the root.
pub open spec fn is_absolute(p: Seq<char>) -> bool {
    p.len() > 0 && p[0] == '/'
}

/// `base` extended by `p`: an absolute `p` replaces it; otherwise one
/// separator stands between them unless `base` is empty or already ends in one.
pub open spec fn spec_join(base: Seq<char>, p: Seq<char>) -> Seq<char> {
    if is_absolute(p) {
        p
    } else if base.len() == 0 || base.last() == '/' {
        base + p
    } else {
        base.push('/') + p
    }
}

pub fn path_is_absolute(p: &str) -> (r: bool)
    ensures
        r == is_absolute(p@),
{
    let n = p.unicode_len();
    n > 0 && p.get_char(0) == '/'
}

pub fn join_path(base: &str, p: &str) -> (r: String)
    ensures
        r@ == spec_join(base@, p@),
{
    if path_is_absolute(p) {
        return p.to_string();
    }
    let n = base.unicode_len();
    let mut out = base.to_string();
    if n > 0 && base.get_char(n - 1) != '/' {
        out.append("/");
        proof {
            reveal_strlit("/");
            assert("/"@ =~= seq!['/']);
        }
    }
    out.append(p);
    out
}

/// A path shown relative to the project directory where it lies inside it.
pub fn format_path(path: &str, project_dir: &str) -> (r: String)
    ensures
        r@ == match path_rest(path@, project_dir@) {
            Some(rest) => rest,
            None => path@,
        },
{
    match strip_path_prefix(path, project_dir) {
        Some(rest) => rest,
        None => path.to_string(),
    }
}

pub open spec fn spec_target_path(base: Seq<char>, file_path: Seq<char>) -> Seq<char> {
    if is_absolute(file_path) {
        match path_rest(file_path, base) {
            Some(rest) => spec_join(base, rest),
            None => match path_file_name(file_path) {
                Some(name) => spec_join(base, name),
                None => base,
            },
        }
    } else {
        spec_join(base, file_path)
    }
}

/// Where a file recorded in a checkpoint is written back under the project
/// root: a relative path is taken from the root, an absolute one inside the
/// root keeps its place, and any other keeps only its file name.
pub fn resolve_target_path(base: &str, file_path: &str) -> (r: String)
    ensures
        r@ == spec_target_path(base@, file_path@),
{
    if path_is_absolute(file_path) {
        match strip_path_prefix(file_path, base) {
            Some(rest) => join_path(base, rest.as_str()),
            None => match file_name_of(file_path) {
                Some(name) => join_path(base, name.as_str()),
                None => base.to_string(),
            },
        }
    } else {
        join_path(base, file_path)
    }
}

pub open spec fn spec_checkpoints_dir(root: Seq<char>) -> Seq<char> {
    spec_join(spec_join(spec_join(root, ".conductor"@), "hartford"@), ".checkpoints"@)
}

/// The directory that holds every checkpoint of a project.
pub fn checkpoints_dir(project_root: &str) -> (r: String)
    ensures
        r@ == spec_checkpoints_dir(project_root@),
{
    let a = join_path(project_root, ".conductor");
    let b = join_path(a.as_str(), "hartford");
    join_path(b.as_str(), ".checkpoints")
}

/// The directory of one checkpoint.
pub fn checkpoint_dir(project_root: &str, checkpoint_id: &str) -> (r: String)
    ensures
        r@ == spec_join(spec_checkpoints_dir(project_root@), checkpoint_id@),
{
    let dir = checkpoints_dir(project_root);
    join_path(dir.as_str(), checkpoint_id)
}

} // verus!
