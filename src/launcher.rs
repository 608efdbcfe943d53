//! Finding an agent binary and the environment it is launched with.
use vstd::prelude::*;
use crate::paths::spec_join;
use crate::paths::join_path;
use crate::text::{opt_text, contains_text, has_prefix, is_infix, same_text, starts_with_text};

verus! {

broadcast use vstd::string::group_string_axioms;

/// The environment variables handed on to a launched agent: those that
/// tools need to be found and to behave (search path, home and user, shell,
/// locale, Node and Homebrew locations, proxies), and no others.
pub open spec fn forwarded_env_var(k: Seq<char>) -> bool {
    ||| k == "PATH"@
    ||| k == "HOME"@
    ||| k == "USER"@
    ||| k == "SHELL"@
    ||| k == "LANG"@
    ||| k == "LC_ALL"@
    ||| has_prefix(k, "LC_"@)
    ||| k == "NODE_PATH"@
    ||| k == "NVM_DIR"@
    ||| k == "NVM_BIN"@
    ||| k == "HOMEBREW_PREFIX"@
    ||| k == "HOMEBREW_CELLAR"@
    ||| k == "HTTP_PROXY"@
    ||| k == "HTTPS_PROXY"@
    ||| k == "NO_PROXY"@
    ||| k == "ALL_PROXY"@
}

pub fn is_forwarded_env_var(key: &str) -> (r: bool)
    ensures
        r == forwarded_env_var(key@),
{
    same_text(key, "PATH") || same_text(key, "HOME") || same_text(key, "USER") || same_text(key, "SHELL")
        || same_text(key, "LANG") || same_text(key, "LC_ALL") || starts_with_text(key, "LC_")
        || same_text(key, "NODE_PATH") || same_text(key, "NVM_DIR") || same_text(key, "NVM_BIN")
        || same_text(key, "HOMEBREW_PREFIX") || same_text(key, "HOMEBREW_CELLAR")
        || same_text(key, "HTTP_PROXY") || same_text(key, "HTTPS_PROXY") || same_text(key, "NO_PROXY")
        || same_text(key, "ALL_PROXY")
}

/// The directory part of a path, where it has one.
pub uninterp spec fn path_parent(p: Seq<char>) -> Option<Seq<char>>;

/// Relies on std::path::Path::parent, shown with OsStr::to_string_lossy.
#[verifier::external_body]
fn parent_of(p: &str) -> (r: Option<String>)
    ensures
        r matches Some(s) ==> path_parent(p@) == Some(s@),
        r is None <==> path_parent(p@) is None,
{
    std::path::Path::new(p).parent().map(|d| d.to_string_lossy().into_owned())
}

/// The search path for a launched program: its own directory put in front,
/// unless the search path already mentions it.
pub open spec fn augmented_path(program: Seq<char>, path: Seq<char>) -> Option<Seq<char>> {
    match path_parent(program) {
        Some(dir) => if is_infix(dir, path) {
            None
        } else {
            Some(dir + ":"@ + path)
        },
        None => None,
    }
}

/// The new value of PATH for launching `program`, where it needs one.
pub fn path_with_program_dir(program: &str, path: &str) -> (r: Option<String>)
    ensures
        opt_text(r) == augmented_path(program@, path@),
{
    match parent_of(program) {
        Some(dir) => {
            if contains_text(path, dir.as_str()) {
                None
            } else {
                let mut out = dir;
                out.append(":");
                out.append(path);
                Some(out)
            }
        },
        None => None,
    }
}

/// The places looked at for binary `name`, in order: the system and
/// Homebrew locations, then, under a home directory, the user-local ones
/// and each installed Node version's bin directory.
pub open spec fn candidates_spec(name: Seq<char>, home: Option<Seq<char>>, node_dirs: Seq<Seq<char>>) -> Seq<Seq<char>> {
    seq![
        "/usr/local/bin/"@ + name,
        "/opt/homebrew/bin/"@ + name,
        "/usr/bin/"@ + name,
        "/bin/"@ + name,
    ] + match home {
        Some(h) => seq![
            h + "/."@ + name + "/local/"@ + name,
            h + "/.local/bin/"@ + name,
            h + "/.npm-global/bin/"@ + name,
            h + "/.yarn/bin/"@ + name,
            h + "/.bun/bin/"@ + name,
            h + "/bin/"@ + name,
        ] + node_dirs.map_values(|d: Seq<char>| spec_join(spec_join(d, "bin"@), name)),
        None => Seq::empty(),
    }
}

/// Appends the text `a b c d e`, its parts joined without separators.
fn push_concat(out: &mut Vec<String>, a: &str, b: &str, c: &str, d: &str, e: &str)
    ensures
        final(out)@.len() == old(out)@.len() + 1,
        forall|i: int| 0 <= i < old(out)@.len() ==> final(out)@[i] == old(out)@[i],
        final(out)@.last()@ == a@ + b@ + c@ + d@ + e@,
{
    let mut s = a.to_string();
    s.append(b);
    s.append(c);
    s.append(d);
    s.append(e);
    out.push(s);
}

pub fn binary_candidates(name: &str, home: &Option<String>, node_dirs: &Vec<String>) -> (r: Vec<String>)
    ensures
        r@.map_values(|s: String| s@) == candidates_spec(
            name@,
            opt_text(*home),
            node_dirs@.map_values(|s: String| s@),
        ),
{
    let mut out: Vec<String> = Vec::new();
    push_concat(&mut out, "/usr/local/bin/", name, "", "", "");
    push_concat(&mut out, "/opt/homebrew/bin/", name, "", "", "");
    push_concat(&mut out, "/usr/bin/", name, "", "", "");
    push_concat(&mut out, "/bin/", name, "", "", "");
    proof {
        reveal_strlit("");
    }
    if let Some(h) = home {
        push_concat(&mut out, h.as_str(), "/.", name, "/local/", name);
        push_concat(&mut out, h.as_str(), "/.local/bin/", name, "", "");
        push_concat(&mut out, h.as_str(), "/.npm-global/bin/", name, "", "");
        push_concat(&mut out, h.as_str(), "/.yarn/bin/", name, "", "");
        push_concat(&mut out, h.as_str(), "/.bun/bin/", name, "", "");
        push_concat(&mut out, h.as_str(), "/bin/", name, "", "");
        let ghost head = out@;
        assert(head.map_values(|s: String| s@) =~= candidates_spec(
            name@,
            opt_text(*home),
            Seq::<Seq<char>>::empty(),
        ));
        let mut i: usize = 0;
        while i < node_dirs.len()
            invariant
                i <= node_dirs@.len(),
                out@.len() == head.len() + i,
                forall|j: int| 0 <= j < head.len() ==> out@[j] == head[j],
                forall|j: int|
                    0 <= j < i ==> (#[trigger] out@[head.len() + j])@ == spec_join(
                        spec_join(node_dirs@[j]@, "bin"@),
                        name@,
                    ),
            decreases node_dirs@.len() - i,
        {
            let bin = join_path(node_dirs[i].as_str(), "bin");
            let full = join_path(bin.as_str(), name);
            out.push(full);
            i = i + 1;
        }
        let ghost want = candidates_spec(name@, opt_text(*home), node_dirs@.map_values(|s: String| s@));
        assert(out@.map_values(|s: String| s@) =~= want) by {
            assert forall|j: int| 0 <= j < want.len() implies out@.map_values(|s: String| s@)[j] == want[j] by {
                if j >= head.len() {
                    assert(out@[head.len() + (j - head.len())] == out@[j]);
                } else {
                    assert(head.map_values(|s: String| s@)[j] == candidates_spec(
                        name@,
                        opt_text(*home),
                        Seq::<Seq<char>>::empty(),
                    )[j]);
                }
            }
        }
    } else {
        assert(out@.map_values(|s: String| s@) =~= candidates_spec(
            name@,
            opt_text(*home),
            node_dirs@.map_values(|s: String| s@),
        ));
    }
    out
}

/// The first candidate found to be a file.
pub open spec fn first_file(c: Seq<(String, bool)>) -> Option<Seq<char>>
    decreases c.len(),
{
    if c.len() == 0 {
        None
    } else if c[0].1 {
        Some(c[0].0@)
    } else {
        first_file(c.drop_first())
    }
}

/// Which binary to run: the explicit override, else what the search path
/// gives, else the first candidate that is a file, else the bare name, left
/// for the launch to resolve.
pub open spec fn chosen_binary(
    name: Seq<char>,
    override_found: Option<Seq<char>>,
    which_found: Option<Seq<char>>,
    candidates: Seq<(String, bool)>,
) -> Seq<char> {
    match override_found {
        Some(p) => p,
        None => match which_found {
            Some(w) => w,
            None => match first_file(candidates) {
                Some(c) => c,
                None => name,
            },
        },
    }
}

fn first_file_or_name(name: &str, candidates: &Vec<(String, bool)>) -> (r: String)
    ensures
        r@ == match first_file(candidates@) {
            Some(c) => c,
            None => name@,
        },
{
    let mut i: usize = 0;
    assert(candidates@.subrange(0, candidates@.len() as int) =~= candidates@);
    while i < candidates.len()
        invariant
            i <= candidates@.len(),
            first_file(candidates@) == first_file(candidates@.subrange(i as int, candidates@.len() as int)),
        decreases candidates@.len() - i,
    {
        let ghost rest = candidates@.subrange(i as int, candidates@.len() as int);
        assert(rest[0] == candidates@[i as int]);
        if candidates[i].1 {
            assert(first_file(rest) == Some(rest[0].0@));
            return candidates[i].0.clone();
        }
        assert(rest.drop_first() =~= candidates@.subrange(i + 1, candidates@.len() as int));
        i = i + 1;
    }
    assert(candidates@.subrange(i as int, candidates@.len() as int).len() == 0);
    name.to_string()
}

/// Picks binary `name` to run from what was found: `override_found` is the
/// override where it names a file, `which_found` the search path's answer
/// where it names a file, and each candidate comes with whether it is a file.
pub fn choose_binary(
    name: &str,
    override_found: Option<String>,
    which_found: Option<String>,
    candidates: &Vec<(String, bool)>,
) -> (r: String)
    ensures
        r@ == chosen_binary(name@, opt_text(override_found), opt_text(which_found), candidates@),
{
    match override_found {
        Some(p) => p,
        None => match which_found {
            Some(w) => w,
            None => first_file_or_name(name, candidates),
        },
    }
}

/// The flags that make a shell interactive: "-i" for bash, zsh and fish,
/// none for any other shell.
pub open spec fn shell_args_spec(shell: Seq<char>) -> Seq<Seq<char>> {
    if is_infix("bash"@, shell) || is_infix("zsh"@, shell) || is_infix("fish"@, shell) {
        seq!["-i"@]
    } else {
        Seq::empty()
    }
}

pub fn interactive_shell_args(shell: &str) -> (r: Vec<String>)
    ensures
        r@.map_values(|s: String| s@) == shell_args_spec(shell@),
{
    let mut out: Vec<String> = Vec::new();
    if contains_text(shell, "bash") || contains_text(shell, "zsh") || contains_text(shell, "fish") {
        out.push("-i".to_string());
    }
    assert(out@.map_values(|s: String| s@) =~= shell_args_spec(shell@));
    out
}

} // verus!
