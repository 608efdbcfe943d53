//! The state kept for one agent process: how each inbound event changes it
//! and what the application is told, and the lines written back.
use vstd::prelude::*;
use crate::submission::{
    approval_policy_from, decision_for, effort_from, encode_submission, sandbox_matches,
    sandbox_policy_from, spec_approval_policy, spec_decision, spec_effort, submission_text,
    InputItem, Op, ReasoningSummary, ReviewDecision, Submission,
};
use crate::table::Table;
use crate::paths::{format_path, path_rest};
use crate::telemetry::{
    compute_context_usage, effective_window_of, min_int, tokens_in, tokens_out, used_tokens_of,
    ContextUsage, TokenUsage,
};
use crate::text::{opt_text, command_display, fresh_id, has_nul, int_text, join_with, push_int, shell_joined, texts_of};

verus! {

/// Which kind of action a pending permission request would allow.
#[derive(Clone, Copy, Debug, PartialEq, Eq, Structural)]
pub enum PermissionKind {
    Exec,
    Patch,
}

/// The submission that a permission request belongs to.
#[derive(Clone, Debug)]
pub struct PermissionContext {
    pub submission_id: String,
    pub kind: PermissionKind,
}

/// Reasoning text gathered so far for one submission, and how many chunks
/// of it were reported.
#[derive(Clone, Debug)]
pub struct ReasoningEntry {
    pub buffer: String,
    pub sequence: u64,
}

#[derive(Clone, Copy, Debug, PartialEq, Eq, Structural)]
pub enum ExecStream {
    Stdout,
    Stderr,
}

#[derive(Clone, Debug)]
pub enum FileChange {
    Add { content: String },
    Delete { content: String },
    Update { unified_diff: String },
}

#[derive(Clone, Debug)]
pub struct FileChangeEntry {
    pub path: String,
    pub change: FileChange,
}

#[derive(Clone, Copy, Debug, PartialEq, Eq)]
pub struct TokenInfo {
    pub last_token_usage: TokenUsage,
    pub model_context_window: Option<u64>,
}

/// What an event from the agent process reports.
#[derive(Clone, Debug)]
pub enum EventMsg {
    SessionConfigured { model: String },
    AgentMessageDelta { delta: String },
    AgentMessage { message: String },
    AgentReasoningDelta { delta: String },
    AgentReasoningRawContentDelta { delta: String },
    AgentReasoning { text: String },
    AgentReasoningRawContent { text: String },
    AgentReasoningSectionBreak,
    ExecCommandBegin { call_id: String, command: Vec<String>, cwd: String },
    ExecCommandOutputDelta { call_id: String, stream: ExecStream, chunk: String },
    ExecCommandEnd {
        call_id: String,
        stdout: String,
        stderr: String,
        aggregated_output: String,
        formatted_output: String,
        exit_code: i32,
    },
    ExecApprovalRequest {
        call_id: String,
        command: Vec<String>,
        cwd: String,
        reason: Option<String>,
    },
    ApplyPatchApprovalRequest {
        call_id: String,
        changes: Vec<FileChangeEntry>,
        reason: Option<String>,
        grant_root: Option<String>,
    },
    PatchApplyEnd { call_id: String, success: bool },
    TokenCount { info: Option<TokenInfo> },
    Error { message: String },
    TaskComplete { last_agent_message: Option<String> },
    /// Any other kind, carried as the JSON text of the event.
    Other { event: String },
}

/// One event from the agent process, tagged with the submission it concerns.
#[derive(Clone, Debug)]
pub struct Event {
    pub id: String,
    pub msg: EventMsg,
}

/// A message for the application, one per thing that happened.
#[derive(Clone, Debug)]
pub enum Notification {
    ModelUpdate { model: String },
    AssistantDelta { id: String, chunk: String },
    AssistantComplete { id: String, text: String },
    Thinking { parent_id: String, sequence: u64, text: String, full_text: String, done: bool },
    ToolStart { call_id: String, command: String, cwd: String, submission_id: String },
    ToolOutput { call_id: String, chunk: String, stream: ExecStream },
    ToolEnd { call_id: String, chunk: String, exit_code: i32 },
    ExecPermission { id: String, command: String, cwd: String, reason: Option<String> },
    PatchPermission {
        id: String,
        files: Vec<String>,
        reason: Option<String>,
        grant_root: Option<String>,
    },
    EditProposed { id: String, file: String, before: String, after: String },
    EditApplied { id: String },
    EditRejected { id: String },
    Telemetry {
        tokens_in: u64,
        tokens_out: u64,
        usage: TokenUsage,
        context_window: Option<u64>,
        context: Option<ContextUsage>,
    },
    Raw { id: String, event: String },
}

/// The state kept for one agent process: the project it works in, whether
/// its input is open, the model in use, and what is pending per submission,
/// per permission request and per tool call.
pub struct CodexBridge {
    pub project_dir: String,
    pub running: bool,
    pub session_model: Option<String>,
    pub reasoning: Table<ReasoningEntry>,
    pub permissions: Table<PermissionContext>,
    pub edits: Table<Vec<String>>,
}

/// The buffer and count of an entry, an absent one counting as empty.
pub open spec fn reasoning_state(m: Map<Seq<char>, ReasoningEntry>, id: Seq<char>) -> (Seq<char>, u64) {
    if m.contains_key(id) {
        (m[id].buffer@, m[id].sequence)
    } else {
        (Seq::empty(), 0)
    }
}

pub open spec fn next_sequence(n: u64) -> u64 {
    if n < u64::MAX {
        (n + 1) as u64
    } else {
        n
    }
}

/// One reasoning chunk for submission `id`: the note reports the chunk with
/// the next sequence number and the whole text so far; a final chunk drops
/// the entry, any other one keeps the grown text and count.
pub open spec fn reasoning_step(
    before: Map<Seq<char>, ReasoningEntry>,
    after: Map<Seq<char>, ReasoningEntry>,
    id: Seq<char>,
    chunk: Seq<char>,
    done: bool,
    note: Notification,
) -> bool {
    let (buf, n) = reasoning_state(before, id);
    &&& match note {
        Notification::Thinking { parent_id, sequence, text, full_text, done: d } => parent_id@ == id
            && sequence == next_sequence(n) && text@ == chunk && full_text@ == buf + chunk && d
            == done,
        _ => false,
    }
    &&& if done {
        after == before.remove(id)
    } else {
        after.contains_key(id) && after[id].buffer@ == buf + chunk && after[id].sequence
            == next_sequence(n) && after.remove(id) == before.remove(id)
    }
}

impl CodexBridge {
    pub open spec fn wf(&self) -> bool {
        self.reasoning.wf() && self.permissions.wf() && self.edits.wf()
    }

    /// A bridge with no process, no project and nothing pending.
    pub fn new() -> (r: Self)
        ensures
            r.wf(),
            !r.running,
            r.project_dir@.len() == 0,
            r.session_model is None,
            r.reasoning@.len() == 0,
            r.permissions@.len() == 0,
            r.edits@.len() == 0,
    {
        CodexBridge {
            project_dir: String::new(),
            running: false,
            session_model: None,
            reasoning: Table::new(),
            permissions: Table::new(),
            edits: Table::new(),
        }
    }

    /// Records that a process was started for `project_dir`: the model is
    /// forgotten and nothing is pending any more.
    pub fn start(&mut self, project_dir: &str)
        requires
            old(self).wf(),
        ensures
            final(self).wf(),
            final(self).running,
            final(self).project_dir@ == project_dir@,
            final(self).session_model is None,
            final(self).reasoning@ == Map::<Seq<char>, ReasoningEntry>::empty(),
            final(self).permissions@ == Map::<Seq<char>, PermissionContext>::empty(),
            final(self).edits@ == Map::<Seq<char>, Vec<String>>::empty(),
    {
        self.project_dir = project_dir.to_string();
        self.session_model = None;
        self.reasoning.clear();
        self.permissions.clear();
        self.edits.clear();
        self.running = true;
    }

    /// Records that the process is gone; what is pending stays.
    pub fn stop(&mut self)
        requires
            old(self).wf(),
        ensures
            final(self).wf(),
            !final(self).running,
            final(self).project_dir == old(self).project_dir,
            final(self).session_model == old(self).session_model,
            final(self).reasoning@ == old(self).reasoning@,
            final(self).permissions@ == old(self).permissions@,
            final(self).edits@ == old(self).edits@,
    {
        self.running = false;
    }

    pub fn is_running(&self) -> (r: bool)
        ensures
            r == self.running,
    {
        self.running
    }

    /// Adds a reasoning chunk to the text of submission `id` and reports it.
    pub fn reasoning_chunk(&mut self, id: &str, chunk: &str, done: bool) -> (note: Notification)
        requires
            old(self).wf(),
        ensures
            final(self).wf(),
            reasoning_step(old(self).reasoning@, final(self).reasoning@, id@, chunk@, done, note),
            final(self).project_dir == old(self).project_dir,
            final(self).running == old(self).running,
            final(self).session_model == old(self).session_model,
            final(self).permissions@ == old(self).permissions@,
            final(self).edits@ == old(self).edits@,
    {
        let (mut buffer, sequence) = match self.reasoning.remove(id) {
            Some(entry) => (entry.buffer, entry.sequence),
            None => (String::new(), 0u64),
        };
        let sequence = sequence.saturating_add(1);
        buffer.append(chunk);
        let note = Notification::Thinking {
            parent_id: id.to_string(),
            sequence,
            text: chunk.to_string(),
            full_text: buffer.clone(),
            done,
        };
        if !done {
            self.reasoning.insert(id.to_string(), ReasoningEntry { buffer, sequence });
            proof {
                assert(self.reasoning@.remove(id@) =~= old(self).reasoning@.remove(id@));
            }
        }
        note
    }
}

/// The chunks joined in order.
pub open spec fn joined(chunks: Seq<Seq<char>>) -> Seq<char>
    decreases chunks.len(),
{
    if chunks.len() == 0 {
        Seq::empty()
    } else {
        joined(chunks.drop_last()) + chunks.last()
    }
}

pub open spec fn thinking_sequence(note: Notification) -> int {
    match note {
        Notification::Thinking { sequence, .. } => sequence as int,
        _ => -1,
    }
}

pub open spec fn thinking_full_text(note: Notification) -> Seq<char> {
    match note {
        Notification::Thinking { full_text, .. } => full_text@,
        _ => Seq::empty(),
    }
}

proof fn lemma_reasoning_prefix(
    maps: Seq<Map<Seq<char>, ReasoningEntry>>,
    notes: Seq<Notification>,
    id: Seq<char>,
    chunks: Seq<Seq<char>>,
    dones: Seq<bool>,
    k: int,
)
    requires
        chunks.len() < u64::MAX,
        maps.len() == chunks.len() + 1,
        notes.len() == chunks.len(),
        dones.len() == chunks.len(),
        reasoning_state(maps[0], id) == (Seq::<char>::empty(), 0u64),
        forall|i: int|
            0 <= i < chunks.len() ==> reasoning_step(
                maps[i],
                maps[i + 1],
                id,
                chunks[i],
                dones[i],
                notes[i],
            ),
        forall|i: int| 0 <= i < chunks.len() - 1 ==> !dones[i],
        0 <= k < chunks.len(),
    ensures
        reasoning_state(maps[k], id) == (joined(chunks.subrange(0, k)), k as u64),
    decreases k,
{
    if k > 0 {
        lemma_reasoning_prefix(maps, notes, id, chunks, dones, k - 1);
        assert(chunks.subrange(0, k).drop_last() =~= chunks.subrange(0, k - 1));
        assert(chunks.subrange(0, k).last() == chunks[k - 1]);
    } else {
        assert(chunks.subrange(0, 0) =~= Seq::<Seq<char>>::empty());
    }
}

/// Reasoning chunks reported one after another for a submission with no
/// text yet are numbered 1, 2, 3, ... and each carries the text of all the
/// chunks so far; the submission's entry is gone exactly after the chunk
/// flagged as final.
pub proof fn lemma_reasoning_stream(
    maps: Seq<Map<Seq<char>, ReasoningEntry>>,
    notes: Seq<Notification>,
    id: Seq<char>,
    chunks: Seq<Seq<char>>,
    dones: Seq<bool>,
)
    requires
        chunks.len() < u64::MAX,
        maps.len() == chunks.len() + 1,
        notes.len() == chunks.len(),
        dones.len() == chunks.len(),
        reasoning_state(maps[0], id) == (Seq::<char>::empty(), 0u64),
        forall|i: int|
            0 <= i < chunks.len() ==> reasoning_step(
                maps[i],
                maps[i + 1],
                id,
                chunks[i],
                dones[i],
                notes[i],
            ),
        forall|i: int| 0 <= i < chunks.len() - 1 ==> !dones[i],
    ensures
        forall|i: int|
            0 <= i < chunks.len() ==> thinking_sequence(#[trigger] notes[i]) == i + 1
                && thinking_full_text(notes[i]) == joined(chunks.subrange(0, i + 1)),
        forall|i: int| 0 <= i < chunks.len() ==> (#[trigger] maps[i + 1].contains_key(id) <==> !dones[i]),
{
    assert forall|i: int| 0 <= i < chunks.len() implies thinking_sequence(#[trigger] notes[i]) == i + 1
        && thinking_full_text(notes[i]) == joined(chunks.subrange(0, i + 1)) by {
        lemma_reasoning_prefix(maps, notes, id, chunks, dones, i);
        assert(reasoning_step(maps[i], maps[i + 1], id, chunks[i], dones[i], notes[i]));
        assert(chunks.subrange(0, i + 1).drop_last() =~= chunks.subrange(0, i));
    }
    assert forall|i: int| 0 <= i < chunks.len() implies (#[trigger] maps[i + 1].contains_key(id)
        <==> !dones[i]) by {
        assert(reasoning_step(maps[i], maps[i + 1], id, chunks[i], dones[i], notes[i]));
    }
}

// ----- what one event does -----

/// A path as the application sees it: relative to the project where it lies inside it.
pub open spec fn shown_path(path: Seq<char>, project_dir: Seq<char>) -> Seq<char> {
    match path_rest(path, project_dir) {
        Some(rest) => rest,
        None => path,
    }
}

pub open spec fn shown_command(words: Seq<String>) -> Seq<char> {
    if has_nul(texts_of(words)) {
        join_with(texts_of(words), ' ')
    } else {
        shell_joined(texts_of(words))
    }
}

/// The output reported when a command ends: the first non-empty of its
/// formatted output, aggregated output, standard output and standard error,
/// or else a line with its exit code.
pub open spec fn exec_end_chunk(
    formatted: Seq<char>,
    aggregated: Seq<char>,
    stdout: Seq<char>,
    stderr: Seq<char>,
    exit_code: i32,
) -> Seq<char> {
    let c = if formatted.len() > 0 {
        formatted
    } else if aggregated.len() > 0 {
        aggregated
    } else if stdout.len() > 0 {
        stdout
    } else {
        stderr
    };
    if c.len() > 0 {
        c
    } else {
        "Command exited with code "@ + int_text(exit_code as int)
    }
}

pub open spec fn permission_id(prefix: Seq<char>, submission_id: Seq<char>, call_id: Seq<char>) -> Seq<char> {
    prefix + submission_id + ":"@ + call_id
}

/// The text before and after a change, as the application shows it.
pub open spec fn change_texts(c: FileChange) -> (Seq<char>, Seq<char>) {
    match c {
        FileChange::Add { content } => (Seq::empty(), content@),
        FileChange::Delete { content } => (content@, Seq::empty()),
        FileChange::Update { unified_diff } => (Seq::empty(), unified_diff@),
    }
}

pub open spec fn opt_shown_path(p: Option<String>, project_dir: Seq<char>) -> Option<Seq<char>> {
    match p {
        Some(s) => Some(shown_path(s@, project_dir)),
        None => None,
    }
}

/// A permission request registered under `pid` for submission `sid`; no
/// other request changed.
pub open spec fn permission_added(
    before: Map<Seq<char>, PermissionContext>,
    after: Map<Seq<char>, PermissionContext>,
    pid: Seq<char>,
    sid: Seq<char>,
    kind: PermissionKind,
) -> bool {
    &&& after.contains_key(pid)
    &&& after[pid].submission_id@ == sid
    &&& after[pid].kind == kind
    &&& after.remove(pid) == before.remove(pid)
}

/// The notes of a patch request: one proposed edit per changed file, in
/// order, whose ids are remembered under the call id, then the permission
/// request that lists the files.
pub open spec fn patch_notes(
    notes: Seq<Notification>,
    edit_ids: Seq<String>,
    changes: Seq<FileChangeEntry>,
    pid: Seq<char>,
    reason: Option<String>,
    grant_root: Option<String>,
    project_dir: Seq<char>,
) -> bool {
    &&& notes.len() == changes.len() + 1
    &&& edit_ids.len() == changes.len()
    &&& forall|i: int|
        0 <= i < changes.len() ==> match #[trigger] notes[i] {
            Notification::EditProposed { id, file, before, after } => id@ == edit_ids[i]@ && file@
                == shown_path(changes[i].path@, project_dir) && (before@, after@) == change_texts(
                changes[i].change,
            ),
            _ => false,
        }
    &&& match notes[changes.len() as int] {
        Notification::PatchPermission { id, files, reason: r, grant_root: g } => id@ == pid
            && files@.len() == changes.len() && (forall|i: int|
            0 <= i < changes.len() ==> #[trigger] files@[i]@ == shown_path(changes[i].path@, project_dir))
            && r == reason && opt_text(g) == opt_shown_path(grant_root, project_dir),
        _ => false,
    }
}

/// The notes of a finished patch: one per remembered edit, in order,
/// applied or rejected as the patch succeeded or not.
pub open spec fn edit_outcome_notes(notes: Seq<Notification>, ids: Seq<String>, success: bool) -> bool {
    &&& notes.len() == ids.len()
    &&& forall|i: int|
        0 <= i < ids.len() ==> match #[trigger] notes[i] {
            Notification::EditApplied { id } => success && id@ == ids[i]@,
            Notification::EditRejected { id } => !success && id@ == ids[i]@,
            _ => false,
        }
}

pub open spec fn remembered_edits(edits: Map<Seq<char>, Vec<String>>, call_id: Seq<char>) -> Seq<String> {
    if edits.contains_key(call_id) {
        edits[call_id]@
    } else {
        Seq::empty()
    }
}

pub open spec fn telemetry_note(note: Notification, info: TokenInfo) -> bool {
    match note {
        Notification::Telemetry { tokens_in, tokens_out, usage, context_window, context } => {
            let u = info.last_token_usage;
            &&& tokens_in == min_int(u.input_tokens + u.cached_input_tokens, u64::MAX as int)
            &&& tokens_out == min_int(u.output_tokens + u.reasoning_output_tokens, u64::MAX as int)
            &&& usage == u
            &&& context_window == info.model_context_window
            &&& match info.model_context_window {
                Some(w) => context matches Some(c) && c.effective_window == effective_window_of(w as int)
                    && c.used_tokens == used_tokens_of(u.total_tokens as int, u.reasoning_output_tokens as int, w as int)
                    && c.remaining_tokens == c.effective_window - c.used_tokens,
                None => context is None,
            }
        },
        _ => false,
    }
}

/// The bridge's state apart from its pending tables.
pub open spec fn same_settings(before: CodexBridge, after: CodexBridge) -> bool {
    &&& after.project_dir == before.project_dir
    &&& after.running == before.running
    &&& after.session_model == before.session_model
}

pub open spec fn same_tables(before: CodexBridge, after: CodexBridge) -> bool {
    &&& after.reasoning@ == before.reasoning@
    &&& after.permissions@ == before.permissions@
    &&& after.edits@ == before.edits@
}

/// The note of an event that leaves the bridge's state as it was.
pub open spec fn plain_note(sid: Seq<char>, msg: EventMsg, note: Notification) -> bool {
    match msg {
        EventMsg::AgentMessageDelta { delta } => note matches Notification::AssistantDelta { id, chunk }
            && id@ == sid && chunk@ == delta@,
        EventMsg::AgentMessage { message } => note matches Notification::AssistantComplete { id, text }
            && id@ == sid && text@ == message@,
        EventMsg::ExecCommandBegin { call_id, command, cwd } => note matches Notification::ToolStart {
            call_id: c,
            command: t,
            cwd: w,
            submission_id: s,
        } && c@ == call_id@ && t@ == shown_command(command@) && w@ == cwd@ && s@ == sid,
        EventMsg::ExecCommandOutputDelta { call_id, stream, chunk } => note matches Notification::ToolOutput {
            call_id: c,
            chunk: t,
            stream: st,
        } && c@ == call_id@ && t@ == chunk@ && st == stream,
        EventMsg::ExecCommandEnd { call_id, stdout, stderr, aggregated_output, formatted_output, exit_code } =>
            note matches Notification::ToolEnd { call_id: c, chunk: t, exit_code: e } && c@ == call_id@ && e
            == exit_code && t@ == exec_end_chunk(
            formatted_output@,
            aggregated_output@,
            stdout@,
            stderr@,
            exit_code,
        ),
        EventMsg::Error { message } => note matches Notification::AssistantComplete { id, text } && id@
            == sid && text@ == "\u{26a0}\u{fe0f} "@ + message@,
        EventMsg::Other { event } => note matches Notification::Raw { id, event: e } && id@ == sid && e@
            == event@,
        _ => false,
    }
}

/// What handling one event does to the bridge and which notes it gives.
pub open spec fn event_effect(before: CodexBridge, after: CodexBridge, ev: Event, notes: Seq<Notification>) -> bool {
    let sid = ev.id@;
    let dir = before.project_dir@;
    match ev.msg {
        EventMsg::SessionConfigured { model } => {
            &&& after.project_dir == before.project_dir
            &&& after.running == before.running
            &&& after.session_model matches Some(m) && m@ == model@
            &&& same_tables(before, after)
            &&& notes.len() == 1
            &&& notes[0] matches Notification::ModelUpdate { model: m } && m@ == model@
        },
        EventMsg::AgentReasoningDelta { delta } => reasoning_effect(before, after, sid, delta@, false, notes),
        EventMsg::AgentReasoningRawContentDelta { delta } => reasoning_effect(
            before,
            after,
            sid,
            delta@,
            false,
            notes,
        ),
        EventMsg::AgentReasoning { text } => reasoning_effect(before, after, sid, text@, true, notes),
        EventMsg::AgentReasoningRawContent { text } => reasoning_effect(before, after, sid, text@, true, notes),
        EventMsg::AgentReasoningSectionBreak => reasoning_effect(
            before,
            after,
            sid,
            seq!['\n', '\n'],
            false,
            notes,
        ),
        EventMsg::ExecApprovalRequest { call_id, command, cwd, reason } => {
            let pid = permission_id("exec:"@, sid, call_id@);
            &&& same_settings(before, after)
            &&& after.reasoning@ == before.reasoning@
            &&& after.edits@ == before.edits@
            &&& permission_added(before.permissions@, after.permissions@, pid, sid, PermissionKind::Exec)
            &&& notes.len() == 1
            &&& notes[0] matches Notification::ExecPermission { id, command: t, cwd: w, reason: r } && id@
                == pid && t@ == shown_command(command@) && w@ == shown_path(cwd@, dir) && r == reason
        },
        EventMsg::ApplyPatchApprovalRequest { call_id, changes, reason, grant_root } => {
            let pid = permission_id("patch:"@, sid, call_id@);
            &&& same_settings(before, after)
            &&& after.reasoning@ == before.reasoning@
            &&& permission_added(before.permissions@, after.permissions@, pid, sid, PermissionKind::Patch)
            &&& after.edits@.contains_key(call_id@)
            &&& after.edits@.remove(call_id@) == before.edits@.remove(call_id@)
            &&& patch_notes(notes, after.edits@[call_id@]@, changes@, pid, reason, grant_root, dir)
        },
        EventMsg::PatchApplyEnd { call_id, success } => {
            &&& same_settings(before, after)
            &&& after.reasoning@ == before.reasoning@
            &&& after.permissions@ == before.permissions@
            &&& after.edits@ == before.edits@.remove(call_id@)
            &&& edit_outcome_notes(notes, remembered_edits(before.edits@, call_id@), success)
        },
        EventMsg::TokenCount { info } => {
            &&& same_settings(before, after)
            &&& same_tables(before, after)
            &&& match info {
                Some(i) => notes.len() == 1 && telemetry_note(notes[0], i),
                None => notes.len() == 0,
            }
        },
        EventMsg::TaskComplete { last_agent_message } => {
            &&& same_settings(before, after)
            &&& same_tables(before, after)
            &&& match last_agent_message {
                Some(m) => notes.len() == 1 && (notes[0] matches Notification::AssistantComplete { id, text }
                    && id@ == sid && text@ == m@),
                None => notes.len() == 0,
            }
        },
        _ => {
            &&& same_settings(before, after)
            &&& same_tables(before, after)
            &&& notes.len() == 1
            &&& plain_note(sid, ev.msg, notes[0])
        },
    }
}

pub open spec fn reasoning_effect(
    before: CodexBridge,
    after: CodexBridge,
    sid: Seq<char>,
    chunk: Seq<char>,
    done: bool,
    notes: Seq<Notification>,
) -> bool {
    &&& same_settings(before, after)
    &&& after.permissions@ == before.permissions@
    &&& after.edits@ == before.edits@
    &&& notes.len() == 1
    &&& reasoning_step(before.reasoning@, after.reasoning@, sid, chunk, done, notes[0])
}

fn concat2(a: &str, b: &str) -> (r: String)
    ensures
        r@ == a@ + b@,
{
    let mut out = a.to_string();
    out.append(b);
    out
}

fn concat3(a: &str, b: &str, c: &str) -> (r: String)
    ensures
        r@ == a@ + b@ + c@,
{
    let mut out = a.to_string();
    out.append(b);
    out.append(c);
    out
}

fn clone_opt(o: &Option<String>) -> (r: Option<String>)
    ensures
        r == *o,
{
    match o {
        Some(s) => Some(s.clone()),
        None => None,
    }
}

fn one(note: Notification) -> (r: Vec<Notification>)
    ensures
        r@ == seq![note],
{
    let mut v = Vec::new();
    v.push(note);
    v
}

fn exec_end_text(
    formatted: &String,
    aggregated: &String,
    stdout: &String,
    stderr: &String,
    exit_code: i32,
) -> (r: String)
    ensures
        r@ == exec_end_chunk(formatted@, aggregated@, stdout@, stderr@, exit_code),
{
    let chunk = if !formatted.as_str().is_empty() {
        formatted.clone()
    } else if !aggregated.as_str().is_empty() {
        aggregated.clone()
    } else if !stdout.as_str().is_empty() {
        stdout.clone()
    } else {
        stderr.clone()
    };
    if !chunk.as_str().is_empty() {
        return chunk;
    }
    let mut out = "Command exited with code ".to_string();
    push_int(&mut out, exit_code as i64);
    out
}

impl CodexBridge {
    fn exec_permission(
        &mut self,
        sid: &String,
        call_id: &String,
        command: &Vec<String>,
        cwd: &String,
        reason: &Option<String>,
    ) -> (note: Notification)
        requires
            old(self).wf(),
        ensures
            final(self).wf(),
            same_settings(*old(self), *final(self)),
            final(self).reasoning@ == old(self).reasoning@,
            final(self).edits@ == old(self).edits@,
            permission_added(
                old(self).permissions@,
                final(self).permissions@,
                permission_id("exec:"@, sid@, call_id@),
                sid@,
                PermissionKind::Exec,
            ),
            note matches Notification::ExecPermission { id, command: t, cwd: w, reason: r } && id@
                == permission_id("exec:"@, sid@, call_id@) && t@ == shown_command(command@) && w@
                == shown_path(cwd@, old(self).project_dir@) && r == *reason,
    {
        let mut pid = concat3("exec:", sid.as_str(), ":");
        pid.append(call_id.as_str());
        self.permissions.insert(
            pid.clone(),
            PermissionContext { submission_id: sid.clone(), kind: PermissionKind::Exec },
        );
        proof {
            assert(self.permissions@.remove(pid@) =~= old(self).permissions@.remove(pid@));
        }
        Notification::ExecPermission {
            id: pid,
            command: command_display(command),
            cwd: format_path(cwd.as_str(), self.project_dir.as_str()),
            reason: clone_opt(reason),
        }
    }

    fn patch_permission(
        &mut self,
        sid: &String,
        call_id: &String,
        changes: &Vec<FileChangeEntry>,
        reason: &Option<String>,
        grant_root: &Option<String>,
    ) -> (notes: Vec<Notification>)
        requires
            old(self).wf(),
        ensures
            final(self).wf(),
            same_settings(*old(self), *final(self)),
            final(self).reasoning@ == old(self).reasoning@,
            permission_added(
                old(self).permissions@,
                final(self).permissions@,
                permission_id("patch:"@, sid@, call_id@),
                sid@,
                PermissionKind::Patch,
            ),
            final(self).edits@.contains_key(call_id@),
            final(self).edits@.remove(call_id@) == old(self).edits@.remove(call_id@),
            patch_notes(
                notes@,
                final(self).edits@[call_id@]@,
                changes@,
                permission_id("patch:"@, sid@, call_id@),
                *reason,
                *grant_root,
                old(self).project_dir@,
            ),
    {
        let mut pid = concat3("patch:", sid.as_str(), ":");
        pid.append(call_id.as_str());
        self.permissions.insert(
            pid.clone(),
            PermissionContext { submission_id: sid.clone(), kind: PermissionKind::Patch },
        );
        proof {
            assert(self.permissions@.remove(pid@) =~= old(self).permissions@.remove(pid@));
        }
        let mut notes: Vec<Notification> = Vec::new();
        let mut edit_ids: Vec<String> = Vec::new();
        let mut files: Vec<String> = Vec::new();
        let mut i: usize = 0;
        while i < changes.len()
            invariant
                i <= changes@.len(),
                notes@.len() == i,
                edit_ids@.len() == i,
                files@.len() == i,
                forall|j: int|
                    0 <= j < i ==> match #[trigger] notes@[j] {
                        Notification::EditProposed { id, file, before, after } => id@ == edit_ids@[j]@
                            && file@ == shown_path(changes@[j].path@, self.project_dir@) && (before@, after@)
                            == change_texts(changes@[j].change),
                        _ => false,
                    },
                forall|j: int| 0 <= j < i ==> #[trigger] files@[j]@ == shown_path(changes@[j].path@, self.project_dir@),
            decreases changes@.len() - i,
        {
            let entry = &changes[i];
            let file = format_path(entry.path.as_str(), self.project_dir.as_str());
            let (before, after) = match &entry.change {
                FileChange::Add { content } => (String::new(), content.clone()),
                FileChange::Delete { content } => (content.clone(), String::new()),
                FileChange::Update { unified_diff } => (String::new(), unified_diff.clone()),
            };
            let raw = fresh_id();
            let edit_id = concat2("edit-", raw.as_str());
            edit_ids.push(edit_id.clone());
            files.push(file.clone());
            notes.push(Notification::EditProposed { id: edit_id, file, before, after });
            i = i + 1;
        }
        let ghost ids = edit_ids@;
        self.edits.insert(call_id.clone(), edit_ids);
        proof {
            assert(self.edits@.remove(call_id@) =~= old(self).edits@.remove(call_id@));
        }
        let grant = match grant_root {
            Some(g) => Some(format_path(g.as_str(), self.project_dir.as_str())),
            None => None,
        };
        notes.push(
            Notification::PatchPermission { id: pid, files, reason: clone_opt(reason), grant_root: grant },
        );
        proof {
            assert forall|j: int| 0 <= j < changes@.len() implies match #[trigger] notes@[j] {
                Notification::EditProposed { id, file, before, after } => id@ == ids[j]@ && file@
                    == shown_path(changes@[j].path@, old(self).project_dir@) && (before@, after@)
                    == change_texts(changes@[j].change),
                _ => false,
            } by {}
        }
        notes
    }

    fn patch_apply_end(&mut self, call_id: &String, success: bool) -> (notes: Vec<Notification>)
        requires
            old(self).wf(),
        ensures
            final(self).wf(),
            same_settings(*old(self), *final(self)),
            final(self).reasoning@ == old(self).reasoning@,
            final(self).permissions@ == old(self).permissions@,
            final(self).edits@ == old(self).edits@.remove(call_id@),
            edit_outcome_notes(notes@, remembered_edits(old(self).edits@, call_id@), success),
    {
        let ids = match self.edits.remove(call_id.as_str()) {
            Some(v) => v,
            None => Vec::new(),
        };
        let mut notes: Vec<Notification> = Vec::new();
        let mut i: usize = 0;
        while i < ids.len()
            invariant
                i <= ids@.len(),
                ids@ == remembered_edits(old(self).edits@, call_id@),
                notes@.len() == i,
                forall|j: int|
                    0 <= j < i ==> match #[trigger] notes@[j] {
                        Notification::EditApplied { id } => success && id@ == ids@[j]@,
                        Notification::EditRejected { id } => !success && id@ == ids@[j]@,
                        _ => false,
                    },
            decreases ids@.len() - i,
        {
            let id = ids[i].clone();
            if success {
                notes.push(Notification::EditApplied { id });
            } else {
                notes.push(Notification::EditRejected { id });
            }
            i = i + 1;
        }
        notes
    }
}

// ----- what the caller asks of the agent -----

/// A message from the user with the options that go with it.
#[derive(Clone, Debug)]
pub struct SendPayload {
    pub current_message: String,
    pub show_reasoning: Option<bool>,
    pub images: Vec<String>,
    pub model: Option<String>,
    pub effort: Option<String>,
    pub approval_policy: Option<String>,
    pub sandbox_mode: Option<String>,
}

impl SendPayload {
    /// A payload that is the message text alone, every option left unset.
    pub fn from_text(input: &str) -> (r: Self)
        ensures
            r.current_message@ == input@,
            r.show_reasoning is None,
            r.images@.len() == 0,
            r.model is None,
            r.effort is None,
            r.approval_policy is None,
            r.sandbox_mode is None,
    {
        SendPayload {
            current_message: input.to_string(),
            show_reasoning: None,
            images: Vec::new(),
            model: None,
            effort: None,
            approval_policy: None,
            sandbox_mode: None,
        }
    }
}

pub open spec fn spec_summary(show: Option<bool>) -> ReasoningSummary {
    match show {
        Some(false) => ReasoningSummary::Disabled,
        _ => ReasoningSummary::Auto,
    }
}

/// The model of a turn: the payload's, else the session's, else the default.
pub open spec fn resolved_model(requested: Option<String>, session: Option<String>) -> Seq<char> {
    match requested {
        Some(m) => m@,
        None => match session {
            Some(s) => s@,
            None => "gpt-5.1-mini"@,
        },
    }
}

/// The user turn that a payload asks for.
pub open spec fn user_turn_matches(
    sub: Submission,
    p: SendPayload,
    project_dir: Seq<char>,
    model: Seq<char>,
    id: Seq<char>,
) -> bool {
    &&& sub.id@ == id
    &&& match sub.op {
        Op::UserTurn { items, cwd, approval_policy, sandbox_policy, model: m, effort, summary } => {
            &&& items@.len() == p.images@.len() + 1
            &&& items@[0] matches InputItem::Text { text } && text@ == p.current_message@
            &&& forall|i: int|
                0 <= i < p.images@.len() ==> (#[trigger] items@[i + 1] matches InputItem::LocalImage {
                    path,
                } && path@ == p.images@[i]@)
            &&& cwd@ == project_dir
            &&& approval_policy == spec_approval_policy(opt_text(p.approval_policy))
            &&& sandbox_matches(sandbox_policy, opt_text(p.sandbox_mode), project_dir)
            &&& m@ == model
            &&& effort == spec_effort(opt_text(p.effort))
            &&& summary == spec_summary(p.show_reasoning)
        },
        _ => false,
    }
}

pub open spec fn same_bridge(before: CodexBridge, after: CodexBridge) -> bool {
    same_settings(before, after) && same_tables(before, after)
}

/// What sending a payload as submission `id` does.
pub open spec fn send_effect(
    before: CodexBridge,
    after: CodexBridge,
    p: SendPayload,
    id: Seq<char>,
    r: Result<String, String>,
) -> bool {
    if before.project_dir@.len() == 0 {
        &&& r matches Err(e) && e@ == "Project directory not set. Call start_codex first."@
        &&& same_bridge(before, after)
    } else {
        &&& after.project_dir == before.project_dir
        &&& after.running == before.running
        &&& after.session_model == (if p.model is Some {
            p.model
        } else {
            before.session_model
        })
        &&& after.reasoning@.contains_key(id)
        &&& after.reasoning@[id].buffer@.len() == 0
        &&& after.reasoning@[id].sequence == 0
        &&& after.reasoning@.remove(id) == before.reasoning@.remove(id)
        &&& after.permissions@ == before.permissions@
        &&& after.edits@ == before.edits@
        &&& before.running ==> (r matches Ok(line) && exists|sub: Submission|
                user_turn_matches(sub, p, before.project_dir@, resolved_model(p.model, before.session_model), id)
                    && line@ == submission_text(sub).push('\n'))
        &&& !before.running ==> (r matches Err(e) && e@ == "Codex stdin unavailable"@)
    }
}

/// The approval submission that answers a pending permission request.
pub open spec fn approval_matches(sub: Submission, ctx: PermissionContext, d: ReviewDecision, fresh: Seq<char>) -> bool {
    match ctx.kind {
        PermissionKind::Exec => {
            &&& sub.id@ == "approval-"@ + fresh
            &&& sub.op matches Op::ExecApproval { id, decision } && id@ == ctx.submission_id@ && decision == d
        },
        PermissionKind::Patch => {
            &&& sub.id@ == "patch-"@ + fresh
            &&& sub.op matches Op::PatchApproval { id, decision } && id@ == ctx.submission_id@ && decision == d
        },
    }
}

/// What answering permission request `req` does.
pub open spec fn resolve_effect(
    before: CodexBridge,
    after: CodexBridge,
    req: Seq<char>,
    allow: bool,
    scope: Seq<char>,
    fresh: Seq<char>,
    r: Result<String, String>,
) -> bool {
    &&& same_settings(before, after)
    &&& after.reasoning@ == before.reasoning@
    &&& after.edits@ == before.edits@
    &&& if before.permissions@.contains_key(req) {
        &&& after.permissions@ == before.permissions@.remove(req)
        &&& before.running ==> (r matches Ok(line) && exists|sub: Submission|
                approval_matches(sub, before.permissions@[req], spec_decision(allow, scope), fresh)
                    && line@ == submission_text(sub).push('\n'))
        &&& !before.running ==> (r matches Err(e) && e@ == "Codex stdin unavailable"@)
    } else {
        &&& r matches Err(e) && e@ == "Unknown permission id: "@ + req
        &&& after.permissions@ == before.permissions@
    }
}

pub open spec fn interrupt_result(running: bool, id: Seq<char>, r: Result<String, String>) -> bool {
    if !running {
        r matches Err(e) && e@ == "Codex process not running"@
    } else {
        r matches Ok(line) && exists|sub: Submission|
            sub.id@ == id && sub.op is Interrupt && line@ == submission_text(sub).push('\n')
    }
}

fn write_checked(running: bool, sub: &Submission) -> (r: Result<String, String>)
    ensures
        running ==> (r matches Ok(line) && line@ == submission_text(*sub).push('\n')),
        !running ==> (r matches Err(e) && e@ == "Codex stdin unavailable"@),
{
    let line = encode_submission(sub);
    if !running {
        return Err("Codex stdin unavailable".to_string());
    }
    Ok(line)
}

impl CodexBridge {
    /// Handles one event from the agent process and gives what to tell the
    /// application, in order.
    pub fn handle_event(&mut self, ev: &Event) -> (notes: Vec<Notification>)
        requires
            old(self).wf(),
        ensures
            final(self).wf(),
            event_effect(*old(self), *final(self), *ev, notes@),
    {
        let sid = &ev.id;
        match &ev.msg {
            EventMsg::SessionConfigured { model } => {
                self.session_model = Some(model.clone());
                one(Notification::ModelUpdate { model: model.clone() })
            },
            EventMsg::AgentMessageDelta { delta } => one(
                Notification::AssistantDelta { id: sid.clone(), chunk: delta.clone() },
            ),
            EventMsg::AgentMessage { message } => one(
                Notification::AssistantComplete { id: sid.clone(), text: message.clone() },
            ),
            EventMsg::AgentReasoningDelta { delta } => one(
                self.reasoning_chunk(sid.as_str(), delta.as_str(), false),
            ),
            EventMsg::AgentReasoningRawContentDelta { delta } => one(
                self.reasoning_chunk(sid.as_str(), delta.as_str(), false),
            ),
            EventMsg::AgentReasoning { text } => one(
                self.reasoning_chunk(sid.as_str(), text.as_str(), true),
            ),
            EventMsg::AgentReasoningRawContent { text } => one(
                self.reasoning_chunk(sid.as_str(), text.as_str(), true),
            ),
            EventMsg::AgentReasoningSectionBreak => {
                proof {
                    reveal_strlit("\n\n");
                    assert("\n\n"@ =~= seq!['\n', '\n']);
                }
                one(self.reasoning_chunk(sid.as_str(), "\n\n", false))
            },
            EventMsg::ExecCommandBegin { call_id, command, cwd } => one(
                Notification::ToolStart {
                    call_id: call_id.clone(),
                    command: command_display(command),
                    cwd: cwd.clone(),
                    submission_id: sid.clone(),
                },
            ),
            EventMsg::ExecCommandOutputDelta { call_id, stream, chunk } => one(
                Notification::ToolOutput { call_id: call_id.clone(), chunk: chunk.clone(), stream: *stream },
            ),
            EventMsg::ExecCommandEnd {
                call_id,
                stdout,
                stderr,
                aggregated_output,
                formatted_output,
                exit_code,
            } => one(
                Notification::ToolEnd {
                    call_id: call_id.clone(),
                    chunk: exec_end_text(formatted_output, aggregated_output, stdout, stderr, *exit_code),
                    exit_code: *exit_code,
                },
            ),
            EventMsg::ExecApprovalRequest { call_id, command, cwd, reason } => one(
                self.exec_permission(sid, call_id, command, cwd, reason),
            ),
            EventMsg::ApplyPatchApprovalRequest { call_id, changes, reason, grant_root } => {
                self.patch_permission(sid, call_id, changes, reason, grant_root)
            },
            EventMsg::PatchApplyEnd { call_id, success } => self.patch_apply_end(call_id, *success),
            EventMsg::TokenCount { info } => match info {
                Some(i) => {
                    let u = &i.last_token_usage;
                    let context = match i.model_context_window {
                        Some(w) => Some(compute_context_usage(u, w)),
                        None => None,
                    };
                    one(
                        Notification::Telemetry {
                            tokens_in: tokens_in(u),
                            tokens_out: tokens_out(u),
                            usage: *u,
                            context_window: i.model_context_window,
                            context,
                        },
                    )
                },
                None => Vec::new(),
            },
            EventMsg::Error { message } => {
                let text = concat2("\u{26a0}\u{fe0f} ", message.as_str());
                one(Notification::AssistantComplete { id: sid.clone(), text })
            },
            EventMsg::TaskComplete { last_agent_message } => match last_agent_message {
                Some(m) => one(Notification::AssistantComplete { id: sid.clone(), text: m.clone() }),
                None => Vec::new(),
            },
            EventMsg::Other { event } => one(Notification::Raw { id: sid.clone(), event: event.clone() }),
        }
    }

    /// Builds the user turn that a payload asks for, under submission `id`,
    /// and makes the payload's model the session's model.
    fn user_turn(&mut self, payload: &SendPayload, id: String) -> (sub: Submission)
        requires
            old(self).wf(),
        ensures
            final(self).wf(),
            final(self).project_dir == old(self).project_dir,
            final(self).running == old(self).running,
            final(self).session_model == (if payload.model is Some {
                payload.model
            } else {
                old(self).session_model
            }),
            same_tables(*old(self), *final(self)),
            user_turn_matches(
                sub,
                *payload,
                old(self).project_dir@,
                resolved_model(payload.model, old(self).session_model),
                id@,
            ),
    {
        let summary = match payload.show_reasoning {
            Some(false) => ReasoningSummary::Disabled,
            _ => ReasoningSummary::Auto,
        };
        let mut items: Vec<InputItem> = Vec::new();
        items.push(InputItem::Text { text: payload.current_message.clone() });
        let mut i: usize = 0;
        while i < payload.images.len()
            invariant
                i <= payload.images@.len(),
                items@.len() == i + 1,
                items@[0] matches InputItem::Text { text } && text@ == payload.current_message@,
                forall|j: int|
                    0 <= j < i ==> (#[trigger] items@[j + 1] matches InputItem::LocalImage { path }
                        && path@ == payload.images@[j]@),
            decreases payload.images@.len() - i,
        {
            items.push(InputItem::LocalImage { path: payload.images[i].clone() });
            i = i + 1;
        }
        let model = match &payload.model {
            Some(m) => {
                self.session_model = Some(m.clone());
                m.clone()
            },
            None => match &self.session_model {
                Some(m) => m.clone(),
                None => "gpt-5.1-mini".to_string(),
            },
        };
        Submission {
            id,
            op: Op::UserTurn {
                items,
                cwd: self.project_dir.clone(),
                approval_policy: approval_policy_from(&payload.approval_policy),
                sandbox_policy: sandbox_policy_from(&payload.sandbox_mode, &self.project_dir),
                model,
                effort: effort_from(&payload.effort),
                summary,
            },
        }
    }

    /// Sends a payload as submission `id`: registers an empty reasoning text
    /// for it and gives the line to write to the process.
    pub fn send_message_with_id(&mut self, payload: &SendPayload, id: String) -> (r: Result<String, String>)
        requires
            old(self).wf(),
        ensures
            final(self).wf(),
            send_effect(*old(self), *final(self), *payload, id@, r),
    {
        if self.project_dir.as_str().is_empty() {
            return Err("Project directory not set. Call start_codex first.".to_string());
        }
        let sub = self.user_turn(payload, id.clone());
        let ghost key = id@;
        self.reasoning.insert(id, ReasoningEntry { buffer: String::new(), sequence: 0 });
        proof {
            assert(self.reasoning@.remove(key) =~= old(self).reasoning@.remove(key));
        }
        let r = write_checked(self.running, &sub);
        assert(r matches Ok(line) ==> line@ == submission_text(sub).push('\n'));
        r
    }

    /// Sends a payload under a fresh submission id.
    pub fn send_message(&mut self, payload: &SendPayload) -> (r: Result<String, String>)
        requires
            old(self).wf(),
        ensures
            final(self).wf(),
            exists|id: Seq<char>| send_effect(*old(self), *final(self), *payload, id, r),
    {
        let id = fresh_id();
        self.send_message_with_id(payload, id)
    }

    /// Answers pending permission request `request_id`; the answer goes out
    /// as submission "approval-`fresh`" or "patch-`fresh`" and names the
    /// submission that asked.
    pub fn resolve_permission_with_id(
        &mut self,
        request_id: &str,
        allow: bool,
        scope: &str,
        fresh: &str,
    ) -> (r: Result<String, String>)
        requires
            old(self).wf(),
        ensures
            final(self).wf(),
            resolve_effect(*old(self), *final(self), request_id@, allow, scope@, fresh@, r),
    {
        let context = match self.permissions.remove(request_id) {
            Some(c) => c,
            None => {
                assert(old(self).permissions@.remove(request_id@) =~= old(self).permissions@);
                return Err(concat2("Unknown permission id: ", request_id));
            },
        };
        let decision = decision_for(allow, scope);
        let sub = match context.kind {
            PermissionKind::Exec => Submission {
                id: concat2("approval-", fresh),
                op: Op::ExecApproval { id: context.submission_id, decision },
            },
            PermissionKind::Patch => Submission {
                id: concat2("patch-", fresh),
                op: Op::PatchApproval { id: context.submission_id, decision },
            },
        };
        assert(approval_matches(sub, old(self).permissions@[request_id@], spec_decision(allow, scope@), fresh@));
        let r = write_checked(self.running, &sub);
        assert(r matches Ok(line) ==> line@ == submission_text(sub).push('\n'));
        r
    }

    /// Answers a pending permission request under a fresh submission id.
    pub fn resolve_permission(&mut self, request_id: &str, allow: bool, scope: &str) -> (r: Result<String, String>)
        requires
            old(self).wf(),
        ensures
            final(self).wf(),
            exists|fresh: Seq<char>|
                resolve_effect(*old(self), *final(self), request_id@, allow, scope@, fresh, r),
    {
        let fresh = fresh_id();
        self.resolve_permission_with_id(request_id, allow, scope, fresh.as_str())
    }

    /// The line that asks the process to stop its current turn, as submission `id`.
    pub fn interrupt_with_id(&self, id: String) -> (r: Result<String, String>)
        ensures
            interrupt_result(self.running, id@, r),
    {
        if !self.running {
            return Err("Codex process not running".to_string());
        }
        let sub = Submission { id, op: Op::Interrupt };
        let line = encode_submission(&sub);
        assert(sub.op is Interrupt && line@ == submission_text(sub).push('\n'));
        Ok(line)
    }

    /// Asks the process to stop its current turn, under a fresh submission id.
    pub fn interrupt(&self) -> (r: Result<String, String>)
        ensures
            exists|id: Seq<char>| interrupt_result(self.running, id, r),
    {
        let id = fresh_id();
        self.interrupt_with_id(id)
    }
}

// ----- laws -----

/// A permission request is answered at most once: the first answer takes it
/// out of the pending table and, while the process runs, succeeds; a second answer with the same id fails as unknown and leaves the
/// table alone.
pub proof fn lemma_permission_single_use(
    b0: CodexBridge,
    b1: CodexBridge,
    b2: CodexBridge,
    req: Seq<char>,
    allow1: bool,
    scope1: Seq<char>,
    fresh1: Seq<char>,
    r1: Result<String, String>,
    allow2: bool,
    scope2: Seq<char>,
    fresh2: Seq<char>,
    r2: Result<String, String>,
)
    requires
        resolve_effect(b0, b1, req, allow1, scope1, fresh1, r1),
        resolve_effect(b1, b2, req, allow2, scope2, fresh2, r2),
    ensures
        b0.permissions@.contains_key(req) ==> b1.permissions@ == b0.permissions@.remove(req),
        b0.permissions@.contains_key(req) && b0.running ==> r1 is Ok,
        !b1.permissions@.contains_key(req),
        r2 matches Err(e) && e@ == "Unknown permission id: "@ + req,
        b2.permissions@ == b1.permissions@,
{
}

pub open spec fn note_id(note: Notification) -> Seq<char> {
    match note {
        Notification::EditProposed { id, .. } => id@,
        Notification::EditApplied { id } => id@,
        Notification::EditRejected { id } => id@,
        Notification::PatchPermission { id, .. } => id@,
        _ => Seq::empty(),
    }
}

/// A patch request over N changed files gives N proposed edits and then its
/// one permission request; a later successful end of that patch, with the
/// call's remembered edits untouched in between, reports exactly those N
/// edits as applied.
pub proof fn lemma_patch_edits_applied(
    b0: CodexBridge,
    b1: CodexBridge,
    ev1: Event,
    notes1: Seq<Notification>,
    b2: CodexBridge,
    b3: CodexBridge,
    ev2: Event,
    notes2: Seq<Notification>,
    call_id: Seq<char>,
    changes: Seq<FileChangeEntry>,
)
    requires
        ev1.msg matches EventMsg::ApplyPatchApprovalRequest { call_id: c, changes: ch, .. } && c@
            == call_id && ch@ == changes,
        event_effect(b0, b1, ev1, notes1),
        ev2.msg matches EventMsg::PatchApplyEnd { call_id: c, success } && c@ == call_id && success,
        event_effect(b2, b3, ev2, notes2),
        b2.edits@.contains_key(call_id),
        b2.edits@[call_id] == b1.edits@[call_id],
    ensures
        notes1.len() == changes.len() + 1,
        forall|i: int| 0 <= i < changes.len() ==> #[trigger] notes1[i] is EditProposed,
        notes1[changes.len() as int] is PatchPermission,
        notes2.len() == changes.len(),
        forall|i: int|
            0 <= i < changes.len() ==> #[trigger] notes2[i] is EditApplied && note_id(notes2[i])
                == note_id(notes1[i]),
        !b3.edits@.contains_key(call_id),
{
    let ids = b1.edits@[call_id]@;
    assert forall|i: int| 0 <= i < changes.len() implies #[trigger] notes1[i] is EditProposed by {
        assert(match notes1[i] {
            Notification::EditProposed { id, file, before, after } => id@ == ids[i]@,
            _ => false,
        });
    }
    assert forall|i: int| 0 <= i < changes.len() implies #[trigger] notes2[i] is EditApplied
        && note_id(notes2[i]) == note_id(notes1[i]) by {
        assert(match notes1[i] {
            Notification::EditProposed { id, file, before, after } => id@ == ids[i]@,
            _ => false,
        });
        assert(match notes2[i] {
            Notification::EditApplied { id } => id@ == ids[i]@,
            Notification::EditRejected { id } => false,
            _ => false,
        });
    }
}

} // verus!
