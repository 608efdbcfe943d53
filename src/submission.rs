//! Submissions to the agent process and their one-line JSON wire text.
use vstd::prelude::*;
use crate::text::{opt_text, json_quoted, lemma_no_control_concat, no_control, push_json_str, same_text};

verus! {

/// When the agent has to ask before it runs a command.
#[derive(Clone, Copy, Debug, PartialEq, Eq, Structural)]
pub enum AskForApproval {
    UnlessTrusted,
    OnFailure,
    OnRequest,
    Never,
}

/// Where the agent's commands may write.
#[derive(Clone, Debug)]
pub enum SandboxPolicy {
    DangerFullAccess,
    ReadOnly,
    WorkspaceWrite {
        writable_roots: Vec<String>,
        network_access: bool,
        exclude_tmpdir_env_var: bool,
        exclude_slash_tmp: bool,
    },
}

#[derive(Clone, Copy, Debug, PartialEq, Eq, Structural)]
pub enum ReasoningEffort {
    Minimal,
    Low,
    Medium,
    High,
}

/// Whether the agent reports summaries of its reasoning.
#[derive(Clone, Copy, Debug, PartialEq, Eq, Structural)]
pub enum ReasoningSummary {
    Auto,
    Disabled,
}

/// An answer to a permission request.
#[derive(Clone, Copy, Debug, PartialEq, Eq, Structural)]
pub enum ReviewDecision {
    Approved,
    ApprovedForSession,
    Denied,
}

#[derive(Clone, Debug)]
pub enum InputItem {
    Text { text: String },
    LocalImage { path: String },
}

#[derive(Clone, Debug)]
pub enum Op {
    UserTurn {
        items: Vec<InputItem>,
        cwd: String,
        approval_policy: AskForApproval,
        sandbox_policy: SandboxPolicy,
        model: String,
        effort: Option<ReasoningEffort>,
        summary: ReasoningSummary,
    },
    ExecApproval { id: String, decision: ReviewDecision },
    PatchApproval { id: String, decision: ReviewDecision },
    Interrupt,
}

/// One request to the agent process, tagged with its own id.
#[derive(Clone, Debug)]
pub struct Submission {
    pub id: String,
    pub op: Op,
}

// ----- reading the caller's policy words -----

pub open spec fn spec_approval_policy(value: Option<Seq<char>>) -> AskForApproval {
    match value {
        Some(v) => if v == "on-request"@ {
            AskForApproval::OnRequest
        } else if v == "on-failure"@ {
            AskForApproval::OnFailure
        } else if v == "never"@ {
            AskForApproval::Never
        } else if v == "unless-trusted"@ {
            AskForApproval::UnlessTrusted
        } else {
            AskForApproval::OnRequest
        },
        None => AskForApproval::OnRequest,
    }
}

/// The approval policy that a caller's word names; any other word, or none,
/// asks on request.
pub fn approval_policy_from(value: &Option<String>) -> (r: AskForApproval)
    ensures
        r == spec_approval_policy(opt_text(*value)),
{
    match value {
        Some(v) => {
            if same_text(v.as_str(), "on-request") {
                AskForApproval::OnRequest
            } else if same_text(v.as_str(), "on-failure") {
                AskForApproval::OnFailure
            } else if same_text(v.as_str(), "never") {
                AskForApproval::Never
            } else if same_text(v.as_str(), "unless-trusted") {
                AskForApproval::UnlessTrusted
            } else {
                AskForApproval::OnRequest
            }
        },
        None => AskForApproval::OnRequest,
    }
}

/// Which of the three sandbox kinds a caller's word selects.
pub open spec fn spec_sandbox_kind(value: Option<Seq<char>>) -> int {
    match value {
        Some(v) => if v == "danger-full-access"@ {
            0
        } else if v == "read-only"@ {
            1
        } else {
            2
        },
        None => 2,
    }
}

pub open spec fn sandbox_matches(p: SandboxPolicy, value: Option<Seq<char>>, project_dir: Seq<char>) -> bool {
    match p {
        SandboxPolicy::DangerFullAccess => spec_sandbox_kind(value) == 0,
        SandboxPolicy::ReadOnly => spec_sandbox_kind(value) == 1,
        SandboxPolicy::WorkspaceWrite {
            writable_roots,
            network_access,
            exclude_tmpdir_env_var,
            exclude_slash_tmp,
        } => spec_sandbox_kind(value) == 2 && writable_roots@.len() == 1 && writable_roots@[0]@
            == project_dir && network_access && !exclude_tmpdir_env_var && !exclude_slash_tmp,
    }
}

/// The sandbox that a caller's word names; any other word, or none, confines
/// writes to the project directory, with network access.
pub fn sandbox_policy_from(value: &Option<String>, project_dir: &String) -> (r: SandboxPolicy)
    ensures
        sandbox_matches(r, opt_text(*value), project_dir@),
{
    if let Some(v) = value {
        if same_text(v.as_str(), "danger-full-access") {
            return SandboxPolicy::DangerFullAccess;
        } else if same_text(v.as_str(), "read-only") {
            return SandboxPolicy::ReadOnly;
        }
    }
    let mut roots: Vec<String> = Vec::new();
    roots.push(project_dir.clone());
    SandboxPolicy::WorkspaceWrite {
        writable_roots: roots,
        network_access: true,
        exclude_tmpdir_env_var: false,
        exclude_slash_tmp: false,
    }
}

pub open spec fn spec_effort(value: Option<Seq<char>>) -> Option<ReasoningEffort> {
    match value {
        Some(v) => if v == "minimal"@ {
            Some(ReasoningEffort::Minimal)
        } else if v == "low"@ {
            Some(ReasoningEffort::Low)
        } else if v == "medium"@ {
            Some(ReasoningEffort::Medium)
        } else if v == "high"@ {
            Some(ReasoningEffort::High)
        } else {
            None
        },
        None => None,
    }
}

/// The reasoning effort that a caller's word names, if it names one.
pub fn effort_from(value: &Option<String>) -> (r: Option<ReasoningEffort>)
    ensures
        r == spec_effort(opt_text(*value)),
{
    match value {
        Some(v) => {
            if same_text(v.as_str(), "minimal") {
                Some(ReasoningEffort::Minimal)
            } else if same_text(v.as_str(), "low") {
                Some(ReasoningEffort::Low)
            } else if same_text(v.as_str(), "medium") {
                Some(ReasoningEffort::Medium)
            } else if same_text(v.as_str(), "high") {
                Some(ReasoningEffort::High)
            } else {
                None
            }
        },
        None => None,
    }
}

pub open spec fn spec_decision(allow: bool, scope: Seq<char>) -> ReviewDecision {
    if !allow {
        ReviewDecision::Denied
    } else if scope == "session"@ || scope == "project"@ {
        ReviewDecision::ApprovedForSession
    } else {
        ReviewDecision::Approved
    }
}

/// The answer to a permission request: a refusal, or an approval for this
/// once or, where the scope is a session or project, for the session.
pub fn decision_for(allow: bool, scope: &str) -> (r: ReviewDecision)
    ensures
        r == spec_decision(allow, scope@),
{
    if !allow {
        ReviewDecision::Denied
    } else if same_text(scope, "session") || same_text(scope, "project") {
        ReviewDecision::ApprovedForSession
    } else {
        ReviewDecision::Approved
    }
}

// ----- the wire text of a submission -----
//
// Each `*_after` function gives the text that follows `pre` once a value has
// been written after it, so that the text of a value is its `*_after` of the
// empty text.

pub open spec fn str_after(pre: Seq<char>, s: Seq<char>) -> Seq<char> {
    pre + json_quoted(s)
}

pub open spec fn decision_word(d: ReviewDecision) -> Seq<char> {
    match d {
        ReviewDecision::Approved => "\"approved\""@,
        ReviewDecision::ApprovedForSession => "\"approved_for_session\""@,
        ReviewDecision::Denied => "\"denied\""@,
    }
}

pub open spec fn approval_word(a: AskForApproval) -> Seq<char> {
    match a {
        AskForApproval::UnlessTrusted => "\"untrusted\""@,
        AskForApproval::OnFailure => "\"on-failure\""@,
        AskForApproval::OnRequest => "\"on-request\""@,
        AskForApproval::Never => "\"never\""@,
    }
}

pub open spec fn effort_word(e: ReasoningEffort) -> Seq<char> {
    match e {
        ReasoningEffort::Minimal => "\"minimal\""@,
        ReasoningEffort::Low => "\"low\""@,
        ReasoningEffort::Medium => "\"medium\""@,
        ReasoningEffort::High => "\"high\""@,
    }
}

pub open spec fn summary_word(s: ReasoningSummary) -> Seq<char> {
    match s {
        ReasoningSummary::Auto => "\"auto\""@,
        ReasoningSummary::Disabled => "\"none\""@,
    }
}

pub open spec fn flag_word(b: bool) -> Seq<char> {
    if b {
        "true"@
    } else {
        "false"@
    }
}

/// Quoted texts separated by commas.
pub open spec fn quoted_list_after(pre: Seq<char>, v: Seq<String>) -> Seq<char>
    decreases v.len(),
{
    if v.len() == 0 {
        pre
    } else if v.len() == 1 {
        str_after(pre, v[0]@)
    } else {
        str_after(quoted_list_after(pre, v.drop_last()) + ","@, v.last()@)
    }
}

pub open spec fn roots_after(pre: Seq<char>, roots: Seq<String>) -> Seq<char> {
    if roots.len() == 0 {
        pre
    } else {
        quoted_list_after(pre + ",\"writable_roots\":["@, roots) + "]"@
    }
}

pub open spec fn sandbox_after(pre: Seq<char>, p: SandboxPolicy) -> Seq<char> {
    match p {
        SandboxPolicy::DangerFullAccess => pre + "{\"type\":\"danger-full-access\"}"@,
        SandboxPolicy::ReadOnly => pre + "{\"type\":\"read-only\"}"@,
        SandboxPolicy::WorkspaceWrite {
            writable_roots,
            network_access,
            exclude_tmpdir_env_var,
            exclude_slash_tmp,
        } => roots_after(pre + "{\"type\":\"workspace-write\""@, writable_roots@)
            + ",\"network_access\":"@ + flag_word(network_access) + ",\"exclude_tmpdir_env_var\":"@
            + flag_word(exclude_tmpdir_env_var) + ",\"exclude_slash_tmp\":"@ + flag_word(
            exclude_slash_tmp,
        ) + "}"@,
    }
}

pub open spec fn item_after(pre: Seq<char>, item: InputItem) -> Seq<char> {
    match item {
        InputItem::Text { text } => str_after(pre + "{\"type\":\"text\",\"text\":"@, text@) + "}"@,
        InputItem::LocalImage { path } => str_after(
            pre + "{\"type\":\"local_image\",\"path\":"@,
            path@,
        ) + "}"@,
    }
}

/// Items separated by commas.
pub open spec fn items_after(pre: Seq<char>, v: Seq<InputItem>) -> Seq<char>
    decreases v.len(),
{
    if v.len() == 0 {
        pre
    } else if v.len() == 1 {
        item_after(pre, v[0])
    } else {
        item_after(items_after(pre, v.drop_last()) + ","@, v.last())
    }
}

/// The effort member, left out where no effort is set.
pub open spec fn effort_after(pre: Seq<char>, effort: Option<ReasoningEffort>) -> Seq<char> {
    match effort {
        Some(e) => pre + ",\"effort\":"@ + effort_word(e),
        None => pre,
    }
}

pub open spec fn op_after(pre: Seq<char>, op: Op) -> Seq<char> {
    match op {
        Op::UserTurn { items, cwd, approval_policy, sandbox_policy, model, effort, summary } =>
            effort_after(
            str_after(
                sandbox_after(
                    str_after(
                        items_after(pre + "{\"type\":\"user_turn\",\"items\":["@, items@)
                            + "],\"cwd\":"@,
                        cwd@,
                    ) + ",\"approval_policy\":"@ + approval_word(approval_policy)
                        + ",\"sandbox_policy\":"@,
                    sandbox_policy,
                ) + ",\"model\":"@,
                model@,
            ),
            effort,
        ) + ",\"summary\":"@ + summary_word(summary) + ",\"final_output_json_schema\":null}"@,
        Op::ExecApproval { id, decision } => str_after(
            pre + "{\"type\":\"exec_approval\",\"id\":"@,
            id@,
        ) + ",\"decision\":"@ + decision_word(decision) + "}"@,
        Op::PatchApproval { id, decision } => str_after(
            pre + "{\"type\":\"patch_approval\",\"id\":"@,
            id@,
        ) + ",\"decision\":"@ + decision_word(decision) + "}"@,
        Op::Interrupt => pre + "{\"type\":\"interrupt\"}"@,
    }
}

/// The JSON object that carries a submission on the wire.
pub open spec fn submission_text(s: Submission) -> Seq<char> {
    op_after(str_after("{\"id\":"@, s.id@) + ",\"op\":"@, s.op) + "}"@
}

/// Every literal piece of the wire text is free of control characters.
proof fn lemma_wire_pieces()
    ensures
        no_control("\"approved\""@),
        no_control("\"approved_for_session\""@),
        no_control("\"denied\""@),
        no_control("\"untrusted\""@),
        no_control("\"on-failure\""@),
        no_control("\"on-request\""@),
        no_control("\"never\""@),
        no_control("\"minimal\""@),
        no_control("\"low\""@),
        no_control("\"medium\""@),
        no_control("\"high\""@),
        no_control("\"auto\""@),
        no_control("\"none\""@),
        no_control("true"@),
        no_control("false"@),
        no_control(","@),
        no_control("{\"type\":\"danger-full-access\"}"@),
        no_control("{\"type\":\"read-only\"}"@),
        no_control("{\"type\":\"workspace-write\""@),
        no_control(",\"writable_roots\":["@),
        no_control("]"@),
        no_control(",\"network_access\":"@),
        no_control(",\"exclude_tmpdir_env_var\":"@),
        no_control(",\"exclude_slash_tmp\":"@),
        no_control("}"@),
        no_control("{\"type\":\"text\",\"text\":"@),
        no_control("{\"type\":\"local_image\",\"path\":"@),
        no_control(",\"effort\":"@),
        no_control("{\"type\":\"user_turn\",\"items\":["@),
        no_control("],\"cwd\":"@),
        no_control(",\"approval_policy\":"@),
        no_control(",\"sandbox_policy\":"@),
        no_control(",\"model\":"@),
        no_control(",\"summary\":"@),
        no_control(",\"final_output_json_schema\":null}"@),
        no_control("{\"type\":\"exec_approval\",\"id\":"@),
        no_control(",\"decision\":"@),
        no_control("{\"type\":\"patch_approval\",\"id\":"@),
        no_control("{\"type\":\"interrupt\"}"@),
        no_control("{\"id\":"@),
        no_control(",\"op\":"@),
{
    reveal(no_control);
    reveal_strlit("\"approved\"");
    reveal_strlit("\"approved_for_session\"");
    reveal_strlit("\"denied\"");
    reveal_strlit("\"untrusted\"");
    reveal_strlit("\"on-failure\"");
    reveal_strlit("\"on-request\"");
    reveal_strlit("\"never\"");
    reveal_strlit("\"minimal\"");
    reveal_strlit("\"low\"");
    reveal_strlit("\"medium\"");
    reveal_strlit("\"high\"");
    reveal_strlit("\"auto\"");
    reveal_strlit("\"none\"");
    reveal_strlit("true");
    reveal_strlit("false");
    reveal_strlit(",");
    reveal_strlit("{\"type\":\"danger-full-access\"}");
    reveal_strlit("{\"type\":\"read-only\"}");
    reveal_strlit("{\"type\":\"workspace-write\"");
    reveal_strlit(",\"writable_roots\":[");
    reveal_strlit("]");
    reveal_strlit(",\"network_access\":");
    reveal_strlit(",\"exclude_tmpdir_env_var\":");
    reveal_strlit(",\"exclude_slash_tmp\":");
    reveal_strlit("}");
    reveal_strlit("{\"type\":\"text\",\"text\":");
    reveal_strlit("{\"type\":\"local_image\",\"path\":");
    reveal_strlit(",\"effort\":");
    reveal_strlit("{\"type\":\"user_turn\",\"items\":[");
    reveal_strlit("],\"cwd\":");
    reveal_strlit(",\"approval_policy\":");
    reveal_strlit(",\"sandbox_policy\":");
    reveal_strlit(",\"model\":");
    reveal_strlit(",\"summary\":");
    reveal_strlit(",\"final_output_json_schema\":null}");
    reveal_strlit("{\"type\":\"exec_approval\",\"id\":");
    reveal_strlit(",\"decision\":");
    reveal_strlit("{\"type\":\"patch_approval\",\"id\":");
    reveal_strlit("{\"type\":\"interrupt\"}");
    reveal_strlit("{\"id\":");
    reveal_strlit(",\"op\":");
}

/// Appends a literal piece of the wire text.
fn push_lit(out: &mut String, lit: &str)
    requires
        no_control(lit@),
    ensures
        final(out)@ == old(out)@ + lit@,
        no_control(old(out)@) ==> no_control(final(out)@),
{
    proof {
        if no_control(old(out)@) {
            lemma_no_control_concat(old(out)@, lit@);
        }
    }
    out.append(lit);
}

fn push_decision(out: &mut String, d: ReviewDecision)
    ensures
        final(out)@ == old(out)@ + decision_word(d),
        no_control(old(out)@) ==> no_control(final(out)@),
{
    proof {
        lemma_wire_pieces();
    }
    match d {
        ReviewDecision::Approved => push_lit(out, "\"approved\""),
        ReviewDecision::ApprovedForSession => push_lit(out, "\"approved_for_session\""),
        ReviewDecision::Denied => push_lit(out, "\"denied\""),
    }
}

fn push_approval(out: &mut String, a: AskForApproval)
    ensures
        final(out)@ == old(out)@ + approval_word(a),
        no_control(old(out)@) ==> no_control(final(out)@),
{
    proof {
        lemma_wire_pieces();
    }
    match a {
        AskForApproval::UnlessTrusted => push_lit(out, "\"untrusted\""),
        AskForApproval::OnFailure => push_lit(out, "\"on-failure\""),
        AskForApproval::OnRequest => push_lit(out, "\"on-request\""),
        AskForApproval::Never => push_lit(out, "\"never\""),
    }
}

fn push_effort(out: &mut String, e: ReasoningEffort)
    ensures
        final(out)@ == old(out)@ + effort_word(e),
        no_control(old(out)@) ==> no_control(final(out)@),
{
    proof {
        lemma_wire_pieces();
    }
    match e {
        ReasoningEffort::Minimal => push_lit(out, "\"minimal\""),
        ReasoningEffort::Low => push_lit(out, "\"low\""),
        ReasoningEffort::Medium => push_lit(out, "\"medium\""),
        ReasoningEffort::High => push_lit(out, "\"high\""),
    }
}

fn push_summary(out: &mut String, s: ReasoningSummary)
    ensures
        final(out)@ == old(out)@ + summary_word(s),
        no_control(old(out)@) ==> no_control(final(out)@),
{
    proof {
        lemma_wire_pieces();
    }
    match s {
        ReasoningSummary::Auto => push_lit(out, "\"auto\""),
        ReasoningSummary::Disabled => push_lit(out, "\"none\""),
    }
}

fn push_flag(out: &mut String, b: bool)
    ensures
        final(out)@ == old(out)@ + flag_word(b),
        no_control(old(out)@) ==> no_control(final(out)@),
{
    proof {
        lemma_wire_pieces();
    }
    if b {
        push_lit(out, "true");
    } else {
        push_lit(out, "false");
    }
}

fn push_quoted_list(out: &mut String, v: &Vec<String>)
    ensures
        final(out)@ == quoted_list_after(old(out)@, v@),
        no_control(old(out)@) ==> no_control(final(out)@),
{
    proof {
        lemma_wire_pieces();
    }
    let ghost start = out@;
    let mut i: usize = 0;
    while i < v.len()
        invariant
            i <= v@.len(),
            out@ == quoted_list_after(start, v@.subrange(0, i as int)),
            no_control(start) ==> no_control(out@),
            no_control(","@),
        decreases v@.len() - i,
    {
        proof {
            assert(v@.subrange(0, i as int + 1).drop_last() =~= v@.subrange(0, i as int));
        }
        if i > 0 {
            push_lit(out, ",");
        }
        push_json_str(out, v[i].as_str());
        i = i + 1;
    }
    assert(v@.subrange(0, v@.len() as int) =~= v@);
}

fn push_sandbox(out: &mut String, p: &SandboxPolicy)
    ensures
        final(out)@ == sandbox_after(old(out)@, *p),
        no_control(old(out)@) ==> no_control(final(out)@),
{
    proof {
        lemma_wire_pieces();
    }
    match p {
        SandboxPolicy::DangerFullAccess => push_lit(out, "{\"type\":\"danger-full-access\"}"),
        SandboxPolicy::ReadOnly => push_lit(out, "{\"type\":\"read-only\"}"),
        SandboxPolicy::WorkspaceWrite {
            writable_roots,
            network_access,
            exclude_tmpdir_env_var,
            exclude_slash_tmp,
        } => {
            push_lit(out, "{\"type\":\"workspace-write\"");
            if writable_roots.len() > 0 {
                push_lit(out, ",\"writable_roots\":[");
                push_quoted_list(out, writable_roots);
                push_lit(out, "]");
            }
            push_lit(out, ",\"network_access\":");
            push_flag(out, *network_access);
            push_lit(out, ",\"exclude_tmpdir_env_var\":");
            push_flag(out, *exclude_tmpdir_env_var);
            push_lit(out, ",\"exclude_slash_tmp\":");
            push_flag(out, *exclude_slash_tmp);
            push_lit(out, "}");
        },
    }
}

fn push_item(out: &mut String, item: &InputItem)
    ensures
        final(out)@ == item_after(old(out)@, *item),
        no_control(old(out)@) ==> no_control(final(out)@),
{
    proof {
        lemma_wire_pieces();
    }
    match item {
        InputItem::Text { text } => {
            push_lit(out, "{\"type\":\"text\",\"text\":");
            push_json_str(out, text.as_str());
        },
        InputItem::LocalImage { path } => {
            push_lit(out, "{\"type\":\"local_image\",\"path\":");
            push_json_str(out, path.as_str());
        },
    }
    push_lit(out, "}");
}

fn push_items(out: &mut String, v: &Vec<InputItem>)
    ensures
        final(out)@ == items_after(old(out)@, v@),
        no_control(old(out)@) ==> no_control(final(out)@),
{
    proof {
        lemma_wire_pieces();
    }
    let ghost start = out@;
    let mut i: usize = 0;
    while i < v.len()
        invariant
            i <= v@.len(),
            out@ == items_after(start, v@.subrange(0, i as int)),
            no_control(start) ==> no_control(out@),
            no_control(","@),
        decreases v@.len() - i,
    {
        proof {
            assert(v@.subrange(0, i as int + 1).drop_last() =~= v@.subrange(0, i as int));
        }
        if i > 0 {
            push_lit(out, ",");
        }
        push_item(out, &v[i]);
        i = i + 1;
    }
    assert(v@.subrange(0, v@.len() as int) =~= v@);
}

fn push_effort_field(out: &mut String, effort: &Option<ReasoningEffort>)
    ensures
        final(out)@ == effort_after(old(out)@, *effort),
        no_control(old(out)@) ==> no_control(final(out)@),
{
    proof {
        lemma_wire_pieces();
    }
    if let Some(e) = effort {
        push_lit(out, ",\"effort\":");
        push_effort(out, *e);
    }
}

fn push_user_turn(out: &mut String, op: &Op)
    requires
        op is UserTurn,
    ensures
        final(out)@ == op_after(old(out)@, *op),
        no_control(old(out)@) ==> no_control(final(out)@),
{
    proof {
        lemma_wire_pieces();
    }
    match op {
        Op::UserTurn { items, cwd, approval_policy, sandbox_policy, model, effort, summary } => {
            push_lit(out, "{\"type\":\"user_turn\",\"items\":[");
            push_items(out, items);
            push_lit(out, "],\"cwd\":");
            push_json_str(out, cwd.as_str());
            push_lit(out, ",\"approval_policy\":");
            push_approval(out, *approval_policy);
            push_lit(out, ",\"sandbox_policy\":");
            push_sandbox(out, sandbox_policy);
            push_lit(out, ",\"model\":");
            push_json_str(out, model.as_str());
            push_effort_field(out, effort);
            push_lit(out, ",\"summary\":");
            push_summary(out, *summary);
            push_lit(out, ",\"final_output_json_schema\":null}");
        },
        _ => {},
    }
}

fn push_op(out: &mut String, op: &Op)
    ensures
        final(out)@ == op_after(old(out)@, *op),
        no_control(old(out)@) ==> no_control(final(out)@),
{
    proof {
        lemma_wire_pieces();
    }
    match op {
        Op::UserTurn { .. } => push_user_turn(out, op),
        Op::ExecApproval { id, decision } => {
            push_lit(out, "{\"type\":\"exec_approval\",\"id\":");
            push_json_str(out, id.as_str());
            push_lit(out, ",\"decision\":");
            push_decision(out, *decision);
            push_lit(out, "}");
        },
        Op::PatchApproval { id, decision } => {
            push_lit(out, "{\"type\":\"patch_approval\",\"id\":");
            push_json_str(out, id.as_str());
            push_lit(out, ",\"decision\":");
            push_decision(out, *decision);
            push_lit(out, "}");
        },
        Op::Interrupt => push_lit(out, "{\"type\":\"interrupt\"}"),
    }
}

/// The line that carries a submission to the agent process: its JSON object
/// followed by one line break, and no other line break or control character.
pub fn encode_submission(s: &Submission) -> (line: String)
    ensures
        line@ == submission_text(*s).push('\n'),
        no_control(submission_text(*s)),
{
    proof {
        lemma_wire_pieces();
    }
    let mut out = String::new();
    push_lit(&mut out, "{\"id\":");
    assert(out@ == "{\"id\":"@);
    push_json_str(&mut out, s.id.as_str());
    push_lit(&mut out, ",\"op\":");
    push_op(&mut out, &s.op);
    push_lit(&mut out, "}");
    assert("\n"@ =~= seq!['\n']) by {
        reveal_strlit("\n");
    }
    out.append("\n");
    out
}

} // verus!
