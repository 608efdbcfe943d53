//! Command lines and outputs of agent CLIs, streamed line de-duplication,
//! language-server framing, `cd` handling and image payloads.
use vstd::prelude::*;
use base64::Engine;
use vstd::std_specs::iter::IteratorSpec;
use crate::paths::{join_path, spec_join};
use crate::text::{opt_text, digits_of, has_prefix, push_digits, same_text, starts_with_text, trim_text, trimmed};

verus! {

broadcast use vstd::string::group_string_axioms;

/// The arguments of one run of the streaming agent CLI: continue the last
/// conversation where one is active, the prompt, the model where one is
/// asked for, streamed JSON output, verbose, without permission prompts.
pub open spec fn cli_args_spec(has_active_session: bool, prompt: Seq<char>, model: Option<Seq<char>>) -> Seq<Seq<char>> {
    (if has_active_session {
        seq!["-c"@]
    } else {
        Seq::empty()
    }) + seq!["-p"@, prompt] + (match model {
        Some(m) => seq!["--model"@, m],
        None => Seq::empty(),
    }) + seq!["--output-format"@, "stream-json"@, "--verbose"@, "--dangerously-skip-permissions"@]
}

pub open spec fn texts(v: Seq<String>) -> Seq<Seq<char>> {
    v.map_values(|s: String| s@)
}

pub fn cli_args(has_active_session: bool, prompt: &str, model: &Option<String>) -> (r: Vec<String>)
    ensures
        texts(r@) == cli_args_spec(has_active_session, prompt@, opt_text(*model)),
{
    let mut args: Vec<String> = Vec::new();
    if has_active_session {
        args.push("-c".to_string());
    }
    args.push("-p".to_string());
    args.push(prompt.to_string());
    if let Some(m) = model {
        args.push("--model".to_string());
        args.push(m.clone());
    }
    args.push("--output-format".to_string());
    args.push("stream-json".to_string());
    args.push("--verbose".to_string());
    args.push("--dangerously-skip-permissions".to_string());
    assert(texts(args@) =~= cli_args_spec(has_active_session, prompt@, opt_text(*model)));
    args
}

/// Passes on the lines of a stream, trimmed, leaving out blank lines and
/// any line equal to the one passed on just before it.
pub struct LineDeduper {
    pub last: Option<String>,
}

impl LineDeduper {
    pub fn new() -> (r: Self)
        ensures
            r.last is None,
    {
        LineDeduper { last: None }
    }

    pub fn accept(&mut self, line: &str) -> (r: Option<String>)
        ensures
            ({
                let t = trimmed(line@);
                if t.len() == 0 || opt_text(old(self).last) == Some(t) {
                    r is None && final(self).last == old(self).last
                } else {
                    opt_text(r) == Some(t) && opt_text(final(self).last) == Some(t)
                }
            }),
    {
        let t = trim_text(line);
        if t.as_str().is_empty() {
            return None;
        }
        let duplicate = match &self.last {
            Some(prev) => *prev == t,
            None => false,
        };
        if duplicate {
            return None;
        }
        self.last = Some(t.clone());
        Some(t)
    }
}

/// Standard output and standard error of a command, one after the other.
pub fn combined_output(stdout: String, stderr: String) -> (r: String)
    ensures
        r@ == stdout@ + stderr@,
{
    if stderr.as_str().is_empty() {
        assert(stdout@ + stderr@ =~= stdout@);
        stdout
    } else if stdout.as_str().is_empty() {
        assert(stdout@ + stderr@ =~= stderr@);
        stderr
    } else {
        let mut out = stdout;
        out.append(stderr.as_str());
        out
    }
}

/// What a command run for a session reports: on success its output, or its
/// error output where the output is empty; on failure both.
pub fn session_command_output(success: bool, stdout: String, stderr: String) -> (r: String)
    ensures
        success && stdout@.len() > 0 ==> r@ == stdout@,
        success && stdout@.len() == 0 ==> r@ == stderr@,
        !success ==> r@ == stdout@ + stderr@,
{
    if success {
        if stdout.as_str().is_empty() {
            stderr
        } else {
            stdout
        }
    } else {
        combined_output(stdout, stderr)
    }
}

/// The result of a one-shot agent command: its output on success; else its
/// error output, or `failure` where that is empty.
pub fn cli_outcome(success: bool, stdout: String, stderr: String, failure: &str) -> (r: Result<String, String>)
    ensures
        success ==> (r matches Ok(o) && o@ == stdout@),
        !success && stderr@.len() > 0 ==> (r matches Err(e) && e@ == stderr@),
        !success && stderr@.len() == 0 ==> (r matches Err(e) && e@ == failure@),
{
    if success {
        Ok(stdout)
    } else if stderr.as_str().is_empty() {
        Err(failure.to_string())
    } else {
        Err(stderr)
    }
}

/// A message framed for a language server: its length in bytes in a
/// header, a blank line, then the message.
pub fn lsp_frame(request: &str) -> (r: String)
    ensures
        r@ == "Content-Length: "@ + digits_of(request.len() as nat) + "\r\n\r\n"@ + request@,
{
    let mut out = "Content-Length: ".to_string();
    push_digits(&mut out, request.len() as u64);
    out.append("\r\n\r\n");
    out.append(request);
    out
}

/// `c` is the first comma of `s`.
pub open spec fn first_comma(s: Seq<char>, c: int) -> bool {
    0 <= c < s.len() && s[c] == ',' && forall|k: int| 0 <= k < c ==> s[k] != ','
}

pub open spec fn has_comma(s: Seq<char>) -> bool {
    exists|k: int| 0 <= k < s.len() && s[k] == ','
}

/// `part` is the base64 text of an image given as `data`: for a data URL,
/// the part after its first comma up to any further comma; any other text
/// as it is.
pub open spec fn image_part_of(data: Seq<char>, part: Seq<char>) -> bool {
    if has_prefix(data, "data:"@) && has_comma(data) {
        exists|c: int|
            #[trigger] first_comma(data, c) && {
                let rest = data.subrange(c + 1, data.len() as int);
                if has_comma(rest) {
                    exists|d: int| #[trigger] first_comma(rest, d) && part == rest.subrange(0, d)
                } else {
                    part == rest
                }
            }
    } else {
        part == data
    }
}

/// Where the first two commas of a text stand, if it has them.
fn comma_places(data: &str) -> (r: (Option<usize>, Option<usize>))
    ensures
        r.0 is None ==> !has_comma(data@),
        r.0 matches Some(c) ==> first_comma(data@, c as int),
        r.0 is None ==> r.1 is None,
        r.0 matches Some(c) ==> ({
            let rest = data@.subrange(c + 1, data@.len() as int);
            &&& r.1 is None ==> !has_comma(rest)
            &&& r.1 matches Some(d) ==> c < d && first_comma(rest, d - c - 1)
        }),
{
    let n = data.unicode_len();
    let mut it = data.chars();
    let mut i: usize = 0;
    let mut first: Option<usize> = None;
    loop
        invariant
            n == data@.len(),
            i <= n,
            it.remaining() == data@.subrange(i as int, n as int),
            first is None ==> forall|k: int| 0 <= k < i ==> data@[k] != ',',
            first matches Some(c) ==> first_comma(data@, c as int) && c < i && forall|k: int|
                c < k < i ==> data@[k] != ',',
        ensures
            i == n,
            first is None ==> forall|k: int| 0 <= k < i ==> data@[k] != ',',
            first matches Some(c) ==> first_comma(data@, c as int) && c < i && forall|k: int|
                c < k < i ==> data@[k] != ',',
        decreases n - i,
    {
        let ghost before = it.remaining();
        match it.next() {
            Some(ch) => {
                assert(ch == data@[i as int]);
                if ch == ',' {
                    match first {
                        None => {
                            first = Some(i);
                        },
                        Some(c) => {
                            proof {
                                let rest = data@.subrange(c + 1, n as int);
                                assert(rest[i - c - 1] == ',');
                                assert forall|k: int| 0 <= k < i - c - 1 implies rest[k] != ',' by {
                                    assert(rest[k] == data@[c + 1 + k]);
                                }
                            }
                            return (first, Some(i));
                        },
                    }
                }
                i = i + 1;
            },
            None => {
                assert(before.len() == 0);
                break;
            },
        }
    }
    match first {
        None => {
            assert(!has_comma(data@));
        },
        Some(c) => {
            let ghost rest = data@.subrange(c + 1, n as int);
            assert forall|k: int| 0 <= k < rest.len() implies rest[k] != ',' by {
                assert(rest[k] == data@[c + 1 + k]);
            }
        },
    }
    (first, None)
}

/// The base64 text of an image given as a data URL or as bare base64.
pub fn image_base64_part(data: &str) -> (r: String)
    ensures
        image_part_of(data@, r@),
{
    if !starts_with_text(data, "data:") {
        return data.to_string();
    }
    let n = data.unicode_len();
    match comma_places(data) {
        (Some(c), Some(d)) => {
            let ghost rest = data@.subrange(c + 1, n as int);
            let part = data.substring_char(c + 1, d);
            assert(part@ =~= rest.subrange(0, d - c - 1));
            assert(first_comma(data@, c as int));
            assert(first_comma(rest, d - c - 1));
            part.to_string()
        },
        (Some(c), None) => {
            let part = data.substring_char(c + 1, n);
            assert(first_comma(data@, c as int));
            part.to_string()
        },
        _ => data.to_string(),
    }
}

/// The image bytes of a data URL or bare base64 text, or why they cannot be read.
pub fn decode_image(data: &str) -> (r: Result<Vec<u8>, String>)
    ensures
        exists|part: Seq<char>|
            image_part_of(data@, part) && match r {
                Ok(b) => base64_decoded(part) == Some(b@),
                Err(_) => base64_decoded(part) is None,
            },
{
    let part = image_base64_part(data);
    match decode_base64(part.as_str()) {
        Ok(bytes) => Ok(bytes),
        Err(e) => {
            let mut msg = "Failed to decode base64: ".to_string();
            msg.append(e.as_str());
            Err(msg)
        },
    }
}

/// The bytes that a standard, padded base64 text denotes, where it is one.
pub uninterp spec fn base64_decoded(s: Seq<char>) -> Option<Seq<u8>>;

/// Relies on base64's general_purpose::STANDARD engine and Engine::decode:
/// the bytes of a standard, padded base64 text, or an error shown with Display.
#[verifier::external_body]
fn decode_base64(s: &str) -> (r: Result<Vec<u8>, String>)
    ensures
        r matches Ok(b) ==> base64_decoded(s@) == Some(b@),
        r is Err <==> base64_decoded(s@) is None,
{
    base64::engine::general_purpose::STANDARD.decode(s).map_err(|e| e.to_string())
}

/// What a terminal command line asks of the working directory.
#[derive(Clone, Debug)]
pub enum CdRequest {
    /// Not a change of directory: the line runs in the shell.
    NotCd,
    /// A change to `path`, written `target` on the command line.
    Change { target: String, path: String },
}

/// Where `cd target` leads from `working_dir`: home for no target or "~",
/// a path under home for "~/...", an absolute target as it is, else the
/// target under the working directory; "." stands for a missing home.
pub open spec fn cd_path(target: Seq<char>, working_dir: Seq<char>, home: Option<Seq<char>>) -> Seq<char> {
    let h = match home {
        Some(h) => h,
        None => "."@,
    };
    if target.len() == 0 || target == "~"@ {
        h
    } else if has_prefix(target, "~/"@) {
        spec_join(h, target.subrange(2, target.len() as int))
    } else if target[0] == '/' {
        target
    } else {
        spec_join(working_dir, target)
    }
}

pub open spec fn cd_request_matches(command: Seq<char>, working_dir: Seq<char>, home: Option<Seq<char>>, r: CdRequest) -> bool {
    let t = trimmed(command);
    if has_prefix(t, "cd "@) {
        let target = trimmed(t.subrange(3, t.len() as int));
        r matches CdRequest::Change { target: tg, path } && tg@ == target && path@ == cd_path(
            target,
            working_dir,
            home,
        )
    } else {
        r is NotCd
    }
}

/// Whether a command line changes directory, and to where.
pub fn cd_request(command: &str, working_dir: &str, home: &Option<String>) -> (r: CdRequest)
    ensures
        cd_request_matches(command@, working_dir@, opt_text(*home), r),
{
    let t = trim_text(command);
    if !starts_with_text(t.as_str(), "cd ") {
        return CdRequest::NotCd;
    }
    proof {
        reveal_strlit("cd ");
    }
    let n = t.as_str().unicode_len();
    let target = trim_text(t.as_str().substring_char(3, n));
    let h = match home {
        Some(h) => h.clone(),
        None => ".".to_string(),
    };
    let tn = target.as_str().unicode_len();
    let path = if tn == 0 || same_text(target.as_str(), "~") {
        h
    } else if starts_with_text(target.as_str(), "~/") {
        proof {
            reveal_strlit("~/");
        }
        join_path(h.as_str(), target.as_str().substring_char(2, tn))
    } else if target.as_str().get_char(0) == '/' {
        target.clone()
    } else {
        join_path(working_dir, target.as_str())
    };
    CdRequest::Change { target, path }
}

} // verus!
