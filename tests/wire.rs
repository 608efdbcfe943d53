use banshee::submission::{
    approval_policy_from, decision_for, effort_from, encode_submission, sandbox_policy_from,
    AskForApproval, InputItem, Op, ReasoningEffort, ReasoningSummary, ReviewDecision, SandboxPolicy,
    Submission,
};
use codex_protocol::config_types::{ReasoningEffort as PEffort, ReasoningSummary as PSummary};
use codex_protocol::protocol::{
    AskForApproval as PApproval, Op as POp, ReviewDecision as PDecision, SandboxPolicy as PSandbox,
    Submission as PSubmission,
};
use codex_protocol::user_input::UserInput;
use std::path::PathBuf;

fn protocol_line(s: &PSubmission) -> String {
    let mut line = serde_json::to_string(s).unwrap();
    line.push('\n');
    line
}

#[test]
fn interrupt_line_matches_protocol() {
    let sub = Submission { id: "abc".to_string(), op: Op::Interrupt };
    let line = encode_submission(&sub);
    assert_eq!(line, "{\"id\":\"abc\",\"op\":{\"type\":\"interrupt\"}}\n");
    let theirs = PSubmission { id: "abc".to_string(), op: POp::Interrupt };
    assert_eq!(line, protocol_line(&theirs));
}

#[test]
fn approval_lines_match_protocol() {
    let cases = [
        (ReviewDecision::Approved, PDecision::Approved),
        (ReviewDecision::ApprovedForSession, PDecision::ApprovedForSession),
        (ReviewDecision::Denied, PDecision::Denied),
    ];
    for (ours, theirs) in cases {
        let exec = Submission {
            id: "approval-1".to_string(),
            op: Op::ExecApproval { id: "sub \"7\"".to_string(), decision: ours },
        };
        let p_exec = PSubmission {
            id: "approval-1".to_string(),
            op: POp::ExecApproval { id: "sub \"7\"".to_string(), decision: theirs },
        };
        assert_eq!(encode_submission(&exec), protocol_line(&p_exec));
        let patch = Submission {
            id: "patch-1".to_string(),
            op: Op::PatchApproval { id: "s".to_string(), decision: ours },
        };
        let p_patch = PSubmission {
            id: "patch-1".to_string(),
            op: POp::PatchApproval { id: "s".to_string(), decision: theirs },
        };
        assert_eq!(encode_submission(&patch), protocol_line(&p_patch));
    }
}

#[test]
fn user_turn_line_matches_protocol() {
    let sub = Submission {
        id: "turn-1".to_string(),
        op: Op::UserTurn {
            items: vec![
                InputItem::Text { text: "line one\nline two\t\u{1}".to_string() },
                InputItem::LocalImage { path: "/tmp/a.png".to_string() },
            ],
            cwd: "/work/project".to_string(),
            approval_policy: AskForApproval::UnlessTrusted,
            sandbox_policy: SandboxPolicy::WorkspaceWrite {
                writable_roots: vec!["/work/project".to_string()],
                network_access: true,
                exclude_tmpdir_env_var: false,
                exclude_slash_tmp: false,
            },
            model: "gpt-5.1-mini".to_string(),
            effort: Some(ReasoningEffort::High),
            summary: ReasoningSummary::Auto,
        },
    };
    let theirs = PSubmission {
        id: "turn-1".to_string(),
        op: POp::UserTurn {
            items: vec![
                UserInput::Text { text: "line one\nline two\t\u{1}".to_string() },
                UserInput::LocalImage { path: PathBuf::from("/tmp/a.png") },
            ],
            cwd: PathBuf::from("/work/project"),
            approval_policy: PApproval::UnlessTrusted,
            sandbox_policy: PSandbox::WorkspaceWrite {
                writable_roots: vec![PathBuf::from("/work/project")],
                network_access: true,
                exclude_tmpdir_env_var: false,
                exclude_slash_tmp: false,
            },
            model: "gpt-5.1-mini".to_string(),
            effort: Some(PEffort::High),
            summary: PSummary::Auto,
            final_output_json_schema: None,
        },
    };
    let line = encode_submission(&sub);
    assert_eq!(line, protocol_line(&theirs));
    assert_eq!(line.matches('\n').count(), 1);
    assert!(line.ends_with('\n'));
    let parsed: serde_json::Value = serde_json::from_str(line.trim_end()).unwrap();
    assert_eq!(parsed["op"]["items"][0]["text"], "line one\nline two\t\u{1}");
}

#[test]
fn user_turn_without_effort_and_read_only() {
    let sub = Submission {
        id: "t".to_string(),
        op: Op::UserTurn {
            items: vec![InputItem::Text { text: "hi".to_string() }],
            cwd: "/p".to_string(),
            approval_policy: AskForApproval::Never,
            sandbox_policy: SandboxPolicy::ReadOnly,
            model: "m".to_string(),
            effort: None,
            summary: ReasoningSummary::Disabled,
        },
    };
    let theirs = PSubmission {
        id: "t".to_string(),
        op: POp::UserTurn {
            items: vec![UserInput::Text { text: "hi".to_string() }],
            cwd: PathBuf::from("/p"),
            approval_policy: PApproval::Never,
            sandbox_policy: PSandbox::ReadOnly,
            model: "m".to_string(),
            effort: None,
            summary: PSummary::None,
            final_output_json_schema: None,
        },
    };
    assert_eq!(encode_submission(&sub), protocol_line(&theirs));
}

#[test]
fn policy_words() {
    assert_eq!(approval_policy_from(&Some("on-failure".to_string())), AskForApproval::OnFailure);
    assert_eq!(approval_policy_from(&Some("never".to_string())), AskForApproval::Never);
    assert_eq!(approval_policy_from(&Some("unless-trusted".to_string())), AskForApproval::UnlessTrusted);
    assert_eq!(approval_policy_from(&Some("on-request".to_string())), AskForApproval::OnRequest);
    assert_eq!(approval_policy_from(&Some("sometimes".to_string())), AskForApproval::OnRequest);
    assert_eq!(approval_policy_from(&None), AskForApproval::OnRequest);
    assert_eq!(effort_from(&Some("minimal".to_string())), Some(ReasoningEffort::Minimal));
    assert_eq!(effort_from(&Some("low".to_string())), Some(ReasoningEffort::Low));
    assert_eq!(effort_from(&Some("medium".to_string())), Some(ReasoningEffort::Medium));
    assert_eq!(effort_from(&Some("high".to_string())), Some(ReasoningEffort::High));
    assert_eq!(effort_from(&Some("extreme".to_string())), None);
    assert_eq!(decision_for(false, "session"), ReviewDecision::Denied);
    assert_eq!(decision_for(true, "session"), ReviewDecision::ApprovedForSession);
    assert_eq!(decision_for(true, "project"), ReviewDecision::ApprovedForSession);
    assert_eq!(decision_for(true, "once"), ReviewDecision::Approved);
}

#[test]
fn sandbox_words() {
    let dir = "/proj".to_string();
    assert!(matches!(
        sandbox_policy_from(&Some("danger-full-access".to_string()), &dir),
        SandboxPolicy::DangerFullAccess
    ));
    assert!(matches!(sandbox_policy_from(&Some("read-only".to_string()), &dir), SandboxPolicy::ReadOnly));
    match sandbox_policy_from(&Some("bogus".to_string()), &dir) {
        SandboxPolicy::WorkspaceWrite { writable_roots, network_access, exclude_tmpdir_env_var, exclude_slash_tmp } => {
            assert_eq!(writable_roots, vec!["/proj".to_string()]);
            assert!(network_access);
            assert!(!exclude_tmpdir_env_var);
            assert!(!exclude_slash_tmp);
        }
        other => panic!("unexpected sandbox {:?}", other),
    }
    assert!(matches!(sandbox_policy_from(&None, &dir), SandboxPolicy::WorkspaceWrite { .. }));
}

#[test]
fn user_turn_line_round_trips_through_protocol() {
    let sub = Submission {
        id: "rt".to_string(),
        op: Op::UserTurn {
            items: vec![InputItem::Text { text: "line1\nline2\r\"quoted\"\\".to_string() }],
            cwd: "/p".to_string(),
            approval_policy: AskForApproval::OnRequest,
            sandbox_policy: SandboxPolicy::DangerFullAccess,
            model: "m".to_string(),
            effort: Some(ReasoningEffort::Minimal),
            summary: ReasoningSummary::Auto,
        },
    };
    let line = encode_submission(&sub);
    let body = line.strip_suffix('\n').unwrap();
    assert!(!body.contains('\n') && !body.contains('\r'));
    let back: PSubmission = serde_json::from_str(body).unwrap();
    let expected = PSubmission {
        id: "rt".to_string(),
        op: POp::UserTurn {
            items: vec![UserInput::Text { text: "line1\nline2\r\"quoted\"\\".to_string() }],
            cwd: PathBuf::from("/p"),
            approval_policy: PApproval::OnRequest,
            sandbox_policy: PSandbox::DangerFullAccess,
            model: "m".to_string(),
            effort: Some(PEffort::Minimal),
            summary: PSummary::Auto,
            final_output_json_schema: None,
        },
    };
    assert_eq!(back.id, expected.id);
    assert_eq!(back.op, expected.op);
}
