use banshee::bridge::{
    CodexBridge, Event, EventMsg, ExecStream, FileChange, FileChangeEntry, Notification, SendPayload, TokenInfo,
};
use banshee::telemetry::TokenUsage;

fn ev(id: &str, msg: EventMsg) -> Event {
    Event { id: id.to_string(), msg }
}

fn started() -> CodexBridge {
    let mut b = CodexBridge::new();
    b.start("/work/proj");
    b
}

fn thinking(n: &Notification) -> (String, u64, String, String, bool) {
    match n {
        Notification::Thinking { parent_id, sequence, text, full_text, done } => {
            (parent_id.clone(), *sequence, text.clone(), full_text.clone(), *done)
        }
        other => panic!("not a thinking note: {:?}", other),
    }
}

#[test]
fn reasoning_chunks_are_numbered_and_accumulate() {
    let mut b = started();
    let n1 = b.handle_event(&ev("s1", EventMsg::AgentReasoningDelta { delta: "a".to_string() }));
    let n2 = b.handle_event(&ev("s1", EventMsg::AgentReasoningRawContentDelta { delta: "b".to_string() }));
    let n3 = b.handle_event(&ev("s1", EventMsg::AgentReasoningSectionBreak));
    assert_eq!(b.reasoning.len(), 1);
    let n4 = b.handle_event(&ev("s1", EventMsg::AgentReasoning { text: "c".to_string() }));
    assert_eq!(thinking(&n1[0]), ("s1".to_string(), 1, "a".to_string(), "a".to_string(), false));
    assert_eq!(thinking(&n2[0]), ("s1".to_string(), 2, "b".to_string(), "ab".to_string(), false));
    assert_eq!(thinking(&n3[0]), ("s1".to_string(), 3, "\n\n".to_string(), "ab\n\n".to_string(), false));
    assert_eq!(thinking(&n4[0]), ("s1".to_string(), 4, "c".to_string(), "ab\n\nc".to_string(), true));
    assert_eq!(b.reasoning.len(), 0);
    let n5 = b.handle_event(&ev("s1", EventMsg::AgentReasoningRawContent { text: "d".to_string() }));
    assert_eq!(thinking(&n5[0]), ("s1".to_string(), 1, "d".to_string(), "d".to_string(), true));
}

#[test]
fn reasoning_ids_are_independent() {
    let mut b = started();
    b.handle_event(&ev("x", EventMsg::AgentReasoningDelta { delta: "1".to_string() }));
    let n = b.handle_event(&ev("y", EventMsg::AgentReasoningDelta { delta: "2".to_string() }));
    assert_eq!(thinking(&n[0]).1, 1);
    assert_eq!(thinking(&n[0]).3, "2");
}

fn exec_request() -> Event {
    ev(
        "sub1",
        EventMsg::ExecApprovalRequest {
            call_id: "call1".to_string(),
            command: vec!["ls".to_string(), "-la".to_string(), "my file".to_string()],
            cwd: "/work/proj/src".to_string(),
            reason: Some("needs listing".to_string()),
        },
    )
}

#[test]
fn exec_permission_request_and_single_use() {
    let mut b = started();
    let notes = b.handle_event(&exec_request());
    assert_eq!(notes.len(), 1);
    match &notes[0] {
        Notification::ExecPermission { id, command, cwd, reason } => {
            assert_eq!(id, "exec:sub1:call1");
            assert_eq!(command, "ls -la 'my file'");
            assert_eq!(cwd, "src");
            assert_eq!(reason.as_deref(), Some("needs listing"));
        }
        other => panic!("unexpected {:?}", other),
    }
    let line = b.resolve_permission_with_id("exec:sub1:call1", true, "once", "42").unwrap();
    assert_eq!(
        line,
        "{\"id\":\"approval-42\",\"op\":{\"type\":\"exec_approval\",\"id\":\"sub1\",\"decision\":\"approved\"}}\n"
    );
    let again = b.resolve_permission_with_id("exec:sub1:call1", true, "once", "43");
    assert_eq!(again, Err("Unknown permission id: exec:sub1:call1".to_string()));
    assert_eq!(b.permissions.len(), 0);
}

#[test]
fn resolve_unknown_permission_fails() {
    let mut b = started();
    assert_eq!(b.resolve_permission("nope", false, ""), Err("Unknown permission id: nope".to_string()));
}

#[test]
fn resolve_permission_with_fresh_id() {
    let mut b = started();
    b.handle_event(&exec_request());
    let line = b.resolve_permission("exec:sub1:call1", false, "session").unwrap();
    let v: serde_json::Value = serde_json::from_str(line.trim_end()).unwrap();
    let id = v["id"].as_str().unwrap();
    assert!(id.starts_with("approval-") && id.len() > "approval-".len());
    assert_eq!(v["op"]["decision"], "denied");
}

#[test]
fn resolve_while_stopped_reports_closed_input() {
    let mut b = started();
    b.handle_event(&exec_request());
    b.stop();
    assert!(!b.is_running());
    let r = b.resolve_permission_with_id("exec:sub1:call1", true, "session", "1");
    assert_eq!(r, Err("Codex stdin unavailable".to_string()));
    assert_eq!(b.permissions.len(), 0);
}

fn patch_request() -> Event {
    ev(
        "sub2",
        EventMsg::ApplyPatchApprovalRequest {
            call_id: "c9".to_string(),
            changes: vec![
                FileChangeEntry { path: "/work/proj/a.txt".to_string(), change: FileChange::Add { content: "new".to_string() } },
                FileChangeEntry { path: "/elsewhere/b.txt".to_string(), change: FileChange::Delete { content: "old".to_string() } },
                FileChangeEntry { path: "/work/proj/c.rs".to_string(), change: FileChange::Update { unified_diff: "@@ -1 +1 @@".to_string() } },
            ],
            reason: None,
            grant_root: Some("/work/proj/sub".to_string()),
        },
    )
}

fn proposed_ids(notes: &[Notification]) -> Vec<String> {
    notes
        .iter()
        .filter_map(|n| match n {
            Notification::EditProposed { id, .. } => Some(id.clone()),
            _ => None,
        })
        .collect()
}

#[test]
fn patch_request_then_applied() {
    let mut b = started();
    let notes = b.handle_event(&patch_request());
    assert_eq!(notes.len(), 4);
    match &notes[0] {
        Notification::EditProposed { file, before, after, id } => {
            assert_eq!(file, "a.txt");
            assert_eq!(before, "");
            assert_eq!(after, "new");
            assert!(id.starts_with("edit-"));
        }
        other => panic!("unexpected {:?}", other),
    }
    match &notes[1] {
        Notification::EditProposed { file, before, after, .. } => {
            assert_eq!(file, "/elsewhere/b.txt");
            assert_eq!(before, "old");
            assert_eq!(after, "");
        }
        other => panic!("unexpected {:?}", other),
    }
    match &notes[2] {
        Notification::EditProposed { before, after, .. } => {
            assert_eq!(before, "");
            assert_eq!(after, "@@ -1 +1 @@");
        }
        other => panic!("unexpected {:?}", other),
    }
    match &notes[3] {
        Notification::PatchPermission { id, files, reason, grant_root } => {
            assert_eq!(id, "patch:sub2:c9");
            assert_eq!(files, &vec!["a.txt".to_string(), "/elsewhere/b.txt".to_string(), "c.rs".to_string()]);
            assert_eq!(reason, &None);
            assert_eq!(grant_root.as_deref(), Some("sub"));
        }
        other => panic!("unexpected {:?}", other),
    }
    let ids = proposed_ids(&notes);
    assert_eq!(ids.len(), 3);
    let done = b.handle_event(&ev("sub2", EventMsg::PatchApplyEnd { call_id: "c9".to_string(), success: true }));
    let applied: Vec<String> = done
        .iter()
        .map(|n| match n {
            Notification::EditApplied { id } => id.clone(),
            other => panic!("unexpected {:?}", other),
        })
        .collect();
    assert_eq!(applied, ids);
    let line = b.resolve_permission_with_id("patch:sub2:c9", true, "project", "7").unwrap();
    assert_eq!(
        line,
        "{\"id\":\"patch-7\",\"op\":{\"type\":\"patch_approval\",\"id\":\"sub2\",\"decision\":\"approved_for_session\"}}\n"
    );
}

#[test]
fn patch_rejected_and_unknown_call() {
    let mut b = started();
    let notes = b.handle_event(&patch_request());
    let ids = proposed_ids(&notes);
    let done = b.handle_event(&ev("sub2", EventMsg::PatchApplyEnd { call_id: "c9".to_string(), success: false }));
    assert_eq!(done.len(), 3);
    for (n, id) in done.iter().zip(ids.iter()) {
        match n {
            Notification::EditRejected { id: got } => assert_eq!(got, id),
            other => panic!("unexpected {:?}", other),
        }
    }
    let again = b.handle_event(&ev("sub2", EventMsg::PatchApplyEnd { call_id: "c9".to_string(), success: true }));
    assert!(again.is_empty());
}

#[test]
fn exec_lifecycle_notes() {
    let mut b = started();
    let n = b.handle_event(&ev(
        "s",
        EventMsg::ExecCommandBegin {
            call_id: "c".to_string(),
            command: vec!["echo".to_string(), "a b".to_string()],
            cwd: "/work/proj".to_string(),
        },
    ));
    match &n[0] {
        Notification::ToolStart { call_id, command, cwd, submission_id } => {
            assert_eq!((call_id.as_str(), command.as_str(), cwd.as_str(), submission_id.as_str()), ("c", "echo 'a b'", "/work/proj", "s"));
        }
        other => panic!("unexpected {:?}", other),
    }
    let n = b.handle_event(&ev(
        "s",
        EventMsg::ExecCommandOutputDelta { call_id: "c".to_string(), stream: ExecStream::Stderr, chunk: "oops".to_string() },
    ));
    assert!(matches!(&n[0], Notification::ToolOutput { stream: ExecStream::Stderr, chunk, .. } if chunk == "oops"));
    let end = |formatted: &str, aggregated: &str, stdout: &str, stderr: &str, code: i32| EventMsg::ExecCommandEnd {
        call_id: "c".to_string(),
        stdout: stdout.to_string(),
        stderr: stderr.to_string(),
        aggregated_output: aggregated.to_string(),
        formatted_output: formatted.to_string(),
        exit_code: code,
    };
    let chunk_of = |notes: Vec<Notification>| match &notes[0] {
        Notification::ToolEnd { chunk, .. } => chunk.clone(),
        other => panic!("unexpected {:?}", other),
    };
    assert_eq!(chunk_of(b.handle_event(&ev("s", end("F", "A", "O", "E", 0)))), "F");
    assert_eq!(chunk_of(b.handle_event(&ev("s", end("", "A", "O", "E", 0)))), "A");
    assert_eq!(chunk_of(b.handle_event(&ev("s", end("", "", "O", "E", 0)))), "O");
    assert_eq!(chunk_of(b.handle_event(&ev("s", end("", "", "", "E", 0)))), "E");
    assert_eq!(chunk_of(b.handle_event(&ev("s", end("", "", "", "", 127)))), "Command exited with code 127");
    assert_eq!(chunk_of(b.handle_event(&ev("s", end("", "", "", "", -2147483648)))), "Command exited with code -2147483648");
}

#[test]
fn command_with_nul_is_joined_plainly() {
    let mut b = started();
    let n = b.handle_event(&ev(
        "s",
        EventMsg::ExecCommandBegin { call_id: "c".to_string(), command: vec!["a\0b".to_string(), "c d".to_string()], cwd: String::new() },
    ));
    assert!(matches!(&n[0], Notification::ToolStart { command, .. } if command == "a\0b c d"));
}

#[test]
fn messages_errors_and_completion() {
    let mut b = started();
    let n = b.handle_event(&ev("s", EventMsg::AgentMessageDelta { delta: "he".to_string() }));
    assert!(matches!(&n[0], Notification::AssistantDelta { id, chunk } if id == "s" && chunk == "he"));
    let n = b.handle_event(&ev("s", EventMsg::AgentMessage { message: "hello".to_string() }));
    assert!(matches!(&n[0], Notification::AssistantComplete { text, .. } if text == "hello"));
    let n = b.handle_event(&ev("s", EventMsg::Error { message: "boom".to_string() }));
    assert!(matches!(&n[0], Notification::AssistantComplete { id, text } if id == "s" && text == "\u{26a0}\u{fe0f} boom"));
    let n = b.handle_event(&ev("s", EventMsg::TaskComplete { last_agent_message: Some("done".to_string()) }));
    assert!(matches!(&n[0], Notification::AssistantComplete { text, .. } if text == "done"));
    assert!(b.handle_event(&ev("s", EventMsg::TaskComplete { last_agent_message: None })).is_empty());
    let n = b.handle_event(&ev("s", EventMsg::Other { event: "{\"type\":\"future\"}".to_string() }));
    assert!(matches!(&n[0], Notification::Raw { id, event } if id == "s" && event == "{\"type\":\"future\"}"));
}

#[test]
fn token_count_notes() {
    let mut b = started();
    assert!(b.handle_event(&ev("s", EventMsg::TokenCount { info: None })).is_empty());
    let usage = TokenUsage { input_tokens: 100, cached_input_tokens: 20, output_tokens: 30, reasoning_output_tokens: 1000, total_tokens: 15000 };
    let n = b.handle_event(&ev("s", EventMsg::TokenCount { info: Some(TokenInfo { last_token_usage: usage, model_context_window: Some(20000) }) }));
    match &n[0] {
        Notification::Telemetry { tokens_in, tokens_out, context_window, context, .. } => {
            assert_eq!((*tokens_in, *tokens_out, *context_window), (120, 1030, Some(20000)));
            let c = context.unwrap();
            assert_eq!((c.effective_window, c.used_tokens, c.remaining_tokens), (8000, 2000, 6000));
        }
        other => panic!("unexpected {:?}", other),
    }
    let n = b.handle_event(&ev("s", EventMsg::TokenCount { info: Some(TokenInfo { last_token_usage: usage, model_context_window: None }) }));
    assert!(matches!(&n[0], Notification::Telemetry { context: None, context_window: None, .. }));
}

#[test]
fn send_message_requires_project() {
    let mut b = CodexBridge::new();
    let r = b.send_message_with_id(&SendPayload::from_text("hi"), "id1".to_string());
    assert_eq!(r, Err("Project directory not set. Call start_codex first.".to_string()));
    assert_eq!(b.reasoning.len(), 0);
}

#[test]
fn send_message_builds_user_turn() {
    let mut b = started();
    let payload = SendPayload {
        current_message: "fix it".to_string(),
        show_reasoning: Some(false),
        images: vec!["/tmp/x.png".to_string()],
        model: None,
        effort: Some("low".to_string()),
        approval_policy: Some("never".to_string()),
        sandbox_mode: None,
    };
    let line = b.send_message_with_id(&payload, "id1".to_string()).unwrap();
    assert!(line.ends_with('\n'));
    let v: serde_json::Value = serde_json::from_str(line.trim_end()).unwrap();
    assert_eq!(v["id"], "id1");
    assert_eq!(v["op"]["type"], "user_turn");
    assert_eq!(v["op"]["items"][0]["text"], "fix it");
    assert_eq!(v["op"]["items"][1]["path"], "/tmp/x.png");
    assert_eq!(v["op"]["cwd"], "/work/proj");
    assert_eq!(v["op"]["model"], "gpt-5.1-mini");
    assert_eq!(v["op"]["effort"], "low");
    assert_eq!(v["op"]["summary"], "none");
    assert_eq!(v["op"]["approval_policy"], "never");
    assert_eq!(v["op"]["sandbox_policy"]["type"], "workspace-write");
    assert_eq!(v["op"]["sandbox_policy"]["writable_roots"][0], "/work/proj");
    assert!(b.reasoning.contains_key("id1"));
}

#[test]
fn model_override_becomes_session_default() {
    let mut b = started();
    let mut p = SendPayload::from_text("one");
    p.model = Some("o3".to_string());
    b.send_message_with_id(&p, "a".to_string()).unwrap();
    assert_eq!(b.session_model.as_deref(), Some("o3"));
    let line = b.send_message_with_id(&SendPayload::from_text("two"), "b".to_string()).unwrap();
    let v: serde_json::Value = serde_json::from_str(line.trim_end()).unwrap();
    assert_eq!(v["op"]["model"], "o3");
    assert_eq!(v["op"]["summary"], "auto");
    assert!(v["op"].get("effort").is_none());
    b.handle_event(&ev("", EventMsg::SessionConfigured { model: "gpt-5".to_string() }));
    let line = b.send_message(&SendPayload::from_text("three")).unwrap();
    let v: serde_json::Value = serde_json::from_str(line.trim_end()).unwrap();
    assert_eq!(v["op"]["model"], "gpt-5");
    b.start("/other");
    assert_eq!(b.session_model, None);
}

#[test]
fn send_and_interrupt_while_stopped() {
    let mut b = started();
    b.stop();
    let r = b.send_message_with_id(&SendPayload::from_text("x"), "q".to_string());
    assert_eq!(r, Err("Codex stdin unavailable".to_string()));
    assert!(b.reasoning.contains_key("q"));
    assert_eq!(b.interrupt(), Err("Codex process not running".to_string()));
}

#[test]
fn interrupt_line() {
    let b = started();
    assert_eq!(b.interrupt_with_id("i1".to_string()).unwrap(), "{\"id\":\"i1\",\"op\":{\"type\":\"interrupt\"}}\n");
    let line = b.interrupt().unwrap();
    let v: serde_json::Value = serde_json::from_str(line.trim_end()).unwrap();
    assert_eq!(v["id"].as_str().unwrap().len(), 36);
}

#[test]
fn start_clears_pending_state() {
    let mut b = started();
    b.handle_event(&exec_request());
    b.handle_event(&patch_request());
    b.handle_event(&ev("s", EventMsg::AgentReasoningDelta { delta: "x".to_string() }));
    b.start("/work/proj");
    assert_eq!((b.permissions.len(), b.edits.len(), b.reasoning.len()), (0, 0, 0));
    assert!(b.is_running());
}

#[test]
fn send_message_with_newline_is_one_line() {
    let mut b = started();
    let line = b.send_message_with_id(&SendPayload::from_text("line1\nline2"), "n1".to_string()).unwrap();
    assert_eq!(line.matches('\n').count(), 1);
    assert!(line.ends_with('\n'));
    let v: serde_json::Value = serde_json::from_str(line.trim_end()).unwrap();
    assert_eq!(v["op"]["items"][0]["text"], "line1\nline2");
}
