use zhipukit::context::{parse_stdin_data, reported_percent, ClaudeContext};
use zhipukit::detect::{
    branch_from_git, branch_or_empty, claude_code_status, failure_text, first_line_trimmed,
    status_display,
};
use zhipukit::window::{is_autostart, on_close_requested, CloseAction};

#[test]
fn stdin_context_is_read() {
    let d = parse_stdin_data(
        r#"{"context_window":{"context_window_size":200000,"used_percentage":12,
            "current_usage":{"input_tokens":100,"cache_creation_input_tokens":20,"cache_read_input_tokens":30}},
            "cwd":"/work","model":"\u001b[1mOpus\u001b[0m"}"#,
    )
    .unwrap();
    assert_eq!(d.context.used_percentage, Some(12));
    assert_eq!(d.context.context_window_size, 200000);
    assert_eq!((d.context.current_tokens, d.context.input_tokens, d.context.cache_tokens), (150, 100, 50));
    assert_eq!(d.cwd.as_deref(), Some("/work"));
    assert_eq!(d.model.as_deref(), Some("Opus"));
}

#[test]
fn stdin_context_defaults() {
    let d = parse_stdin_data(r#"{"context_window":{},"cwd":"","model":5}"#).unwrap();
    assert_eq!(d.context.used_percentage, None);
    assert_eq!(
        (d.context.context_window_size, d.context.current_tokens, d.context.input_tokens, d.context.cache_tokens),
        (0, 0, 0, 0)
    );
    assert!(d.cwd.is_none() && d.model.is_none());
    assert!(parse_stdin_data("   \n").is_none());
    assert!(parse_stdin_data("{}").is_none());
    assert!(parse_stdin_data("{").is_none());
}

#[test]
fn stdin_token_sums_wrap() {
    let d = parse_stdin_data(
        r#"{"context_window":{"current_usage":{"input_tokens":1,"cache_creation_input_tokens":9223372036854775807,"cache_read_input_tokens":1}}}"#,
    )
    .unwrap();
    assert_eq!(d.context.cache_tokens, i64::MIN);
    assert_eq!(d.context.current_tokens, i64::MIN + 1);
}

#[test]
fn command_output_lines() {
    assert_eq!(first_line_trimmed("  /usr/bin/assistant \r\n/other\n"), "/usr/bin/assistant");
    assert_eq!(first_line_trimmed(""), "");
    assert_eq!(first_line_trimmed("one"), "one");
    assert_eq!(first_line_trimmed("\nsecond"), "");
}

#[test]
fn claude_code_detection() {
    let s = claude_code_status(None, None, Some("/h/.config/settings.json".to_string()));
    assert!(!s.installed && s.version.is_none() && s.path.is_none());
    assert_eq!(s.config_path.as_deref(), Some("/h/.config/settings.json"));
    let s = claude_code_status(Some("/bin/assistant\n/usr/bin/assistant\n"), Some(" 2.0.1 (Code CLI)\n"), None);
    assert!(s.installed);
    assert_eq!(s.path.as_deref(), Some("/bin/assistant"));
    assert_eq!(s.version.as_deref(), Some("2.0.1 (Code CLI)"));
    let s = claude_code_status(Some("/bin/assistant"), None, None);
    assert!(s.version.is_none());
}

#[test]
fn git_branch_from_output() {
    assert_eq!(branch_from_git(true, "main\n").as_deref(), Some("main"));
    assert_eq!(branch_from_git(true, "\n"), None);
    assert_eq!(branch_from_git(false, "main"), None);
    assert_eq!(branch_or_empty(true, " dev \n"), "dev");
    assert_eq!(branch_or_empty(false, "dev"), "");
}

#[test]
fn status_program_output() {
    assert_eq!(status_display("  {\"hookSpecificOutput\":{\"additionalContext\":\"ctx\"}}\n"), "ctx");
    assert_eq!(status_display("{\"other\":1}\n"), "{\"other\":1}\n");
    assert_eq!(status_display("  hello \n"), "hello");
    assert_eq!(failure_text(" out", "err \n"), "outerr");
}

#[test]
fn window_decisions() {
    assert!(is_autostart(&vec!["app".to_string(), "--autostart".to_string()]));
    assert!(!is_autostart(&vec!["app".to_string(), "--autostart=1".to_string()]));
    assert!(!is_autostart(&vec![]));
    assert_eq!(on_close_requested(true), CloseAction::HideToTray);
    assert_eq!(on_close_requested(false), CloseAction::AskToMinimize);
}

fn ctx(used: Option<i64>, size: i64) -> ClaudeContext {
    ClaudeContext {
        used_percentage: used,
        context_window_size: size,
        current_tokens: 10,
        input_tokens: 10,
        cache_tokens: 0,
    }
}

#[test]
fn reported_context_percent() {
    assert_eq!(reported_percent(&ctx(Some(42), 100)), Some(42));
    assert_eq!(reported_percent(&ctx(Some(-3), 100)), Some(0));
    assert_eq!(reported_percent(&ctx(Some(140), 0)), Some(100));
    assert_eq!(reported_percent(&ctx(None, 0)), Some(0));
    assert_eq!(reported_percent(&ctx(None, -5)), Some(0));
    assert_eq!(reported_percent(&ctx(None, 1000)), None);
}

#[test]
fn trimming_unicode_white_space() {
    assert_eq!(first_line_trimmed("\u{3000}\u{a0} main\u{2009}\t\nx"), "main");
    assert_eq!(first_line_trimmed(" \u{200b}x "), "\u{200b}x");
    assert_eq!(branch_or_empty(true, "\u{85}\u{2028}"), "");
}
