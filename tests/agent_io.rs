use banshee::agent_io::{
    cli_args, cli_outcome, combined_output, decode_image, image_base64_part, lsp_frame, session_command_output,
    LineDeduper,
};

#[test]
fn cli_arguments() {
    assert_eq!(
        cli_args(false, "hello", &None),
        vec!["-p", "hello", "--output-format", "stream-json", "--verbose", "--dangerously-skip-permissions"]
    );
    assert_eq!(
        cli_args(true, "again", &Some("opus".to_string())),
        vec!["-c", "-p", "again", "--model", "opus", "--output-format", "stream-json", "--verbose", "--dangerously-skip-permissions"]
    );
}

#[test]
fn dedup_lines() {
    let mut d = LineDeduper::new();
    assert_eq!(d.accept("  {\"a\":1}  "), Some("{\"a\":1}".to_string()));
    assert_eq!(d.accept("{\"a\":1}"), None);
    assert_eq!(d.accept("   "), None);
    assert_eq!(d.accept("{\"b\":2}\r"), Some("{\"b\":2}".to_string()));
    assert_eq!(d.accept("{\"a\":1}"), Some("{\"a\":1}".to_string()));
    assert_eq!(d.last.as_deref(), Some("{\"a\":1}"));
}

#[test]
fn outputs() {
    assert_eq!(combined_output("out".to_string(), "err".to_string()), "outerr");
    assert_eq!(combined_output(String::new(), "err".to_string()), "err");
    assert_eq!(session_command_output(true, "out".to_string(), "err".to_string()), "out");
    assert_eq!(session_command_output(true, String::new(), "err".to_string()), "err");
    assert_eq!(session_command_output(false, "out".to_string(), "err".to_string()), "outerr");
    assert_eq!(cli_outcome(true, "ok".to_string(), "e".to_string(), "codex run failed"), Ok("ok".to_string()));
    assert_eq!(cli_outcome(false, "ok".to_string(), "bad".to_string(), "codex run failed"), Err("bad".to_string()));
    assert_eq!(cli_outcome(false, "ok".to_string(), String::new(), "codex repo failed"), Err("codex repo failed".to_string()));
}

#[test]
fn lsp_framing() {
    assert_eq!(lsp_frame("{}"), "Content-Length: 2\r\n\r\n{}");
    assert_eq!(lsp_frame("é"), "Content-Length: 2\r\n\r\né");
    assert_eq!(lsp_frame(""), "Content-Length: 0\r\n\r\n");
}

#[test]
fn image_payloads() {
    assert_eq!(image_base64_part("data:image/png;base64,aGk="), "aGk=");
    assert_eq!(image_base64_part("data:x,aGk=,tail"), "aGk=");
    assert_eq!(image_base64_part("data:nocomma"), "data:nocomma");
    assert_eq!(image_base64_part("aGk="), "aGk=");
    assert_eq!(decode_image("data:image/png;base64,aGk="), Ok(b"hi".to_vec()));
    assert_eq!(decode_image("aGVsbG8="), Ok(b"hello".to_vec()));
    let err = decode_image("data:image/png;base64,@@@").unwrap_err();
    assert!(err.starts_with("Failed to decode base64: "), "{}", err);
}

use banshee::agent_io::{cd_request, CdRequest};

fn cd(command: &str, home: Option<&str>) -> Option<(String, String)> {
    match cd_request(command, "/work", &home.map(|h| h.to_string())) {
        CdRequest::Change { target, path } => Some((target, path)),
        CdRequest::NotCd => None,
    }
}

#[test]
fn cd_requests() {
    assert_eq!(cd("ls -la", Some("/home/u")), None);
    assert_eq!(cd("cd", Some("/home/u")), None);
    assert_eq!(cd("  cd src  ", Some("/home/u")), Some(("src".to_string(), "/work/src".to_string())));
    assert_eq!(cd("cd /tmp", Some("/home/u")), Some(("/tmp".to_string(), "/tmp".to_string())));
    assert_eq!(cd("cd ~", Some("/home/u")), Some(("~".to_string(), "/home/u".to_string())));
    assert_eq!(cd("cd  ", Some("/home/u")), None);
    assert_eq!(cd("cd ~/code", Some("/home/u")), Some(("~/code".to_string(), "/home/u/code".to_string())));
    assert_eq!(cd("cd ~/code", None), Some(("~/code".to_string(), "./code".to_string())));
    assert_eq!(cd("cd ~", None), Some(("~".to_string(), ".".to_string())));
}
