use banshee::session::{SessionRegistry, StartAction};

#[test]
fn start_is_idempotent_in_same_dir() {
    let mut r = SessionRegistry::new();
    assert_eq!(r.start("s", "/a"), StartAction::Launch { stop_previous: false });
    r.set_bridge_live("s", true);
    assert_eq!(r.start("s", "/a"), StartAction::KeepRunning);
    assert_eq!(r.start("s", "/b"), StartAction::Launch { stop_previous: true });
    assert_eq!(r.project_dir("s").as_deref(), Some("/b"));
    assert_eq!(r.start("s", "/b"), StartAction::Launch { stop_previous: false });
}

#[test]
fn send_and_bridge_checks() {
    let mut r = SessionRegistry::new();
    assert_eq!(r.send_target("s"), Err("Codex session not initialized".to_string()));
    assert_eq!(r.require_bridge("s"), Err("Codex session not initialized".to_string()));
    r.start("s", "/a");
    assert_eq!(r.send_target("s"), Ok(Some("/a".to_string())));
    assert_eq!(r.require_bridge("s"), Err("Codex bridge not initialized. Please ensure a project is open.".to_string()));
    r.set_bridge_live("s", true);
    assert_eq!(r.send_target("s"), Ok(None));
    assert_eq!(r.require_bridge("s"), Ok(()));
    assert_eq!(r.restart_dir("s"), Ok("/a".to_string()));
    assert_eq!(r.restart_dir("t"), Err("Codex session not initialized".to_string()));
}

#[test]
fn stop_keeps_session_and_releases_terminal() {
    let mut r = SessionRegistry::new();
    r.start("s", "/a");
    r.set_bridge_live("s", true);
    assert_eq!(r.attach_terminal("s", "t1", None), Some("/a".to_string()));
    assert_eq!(r.terminal_id("s").as_deref(), Some("t1"));
    let a = r.stop("s");
    assert!(a.stop_bridge);
    assert_eq!(a.close_terminal.as_deref(), Some("t1"));
    assert_eq!(r.terminal_id("s"), None);
    assert_eq!(r.project_dir("s").as_deref(), Some("/a"));
    let again = r.stop("s");
    assert!(!again.stop_bridge && again.close_terminal.is_none());
    let none = r.stop("unknown");
    assert!(!none.stop_bridge && none.close_terminal.is_none());
}

#[test]
fn terminal_directory_choice() {
    let mut r = SessionRegistry::new();
    assert_eq!(r.attach_terminal("x", "t", Some("/given".to_string())), Some("/given".to_string()));
    assert_eq!(r.attach_terminal("x", "t", None), None);
    r.start("s", "");
    assert_eq!(r.attach_terminal("s", "t2", None), None);
    assert_eq!(r.attach_terminal("s", "t3", Some("/d".to_string())), Some("/d".to_string()));
    r.detach_terminal("s", "t2");
    assert_eq!(r.terminal_id("s").as_deref(), Some("t3"));
    r.detach_terminal("s", "t3");
    assert_eq!(r.terminal_id("s"), None);
}
