use ring_agent::user_agent::{
    codex_headers, codex_user_agent, default_headers, format_os_segment, get_user_agent, originator,
    sanitize_token, sanitize_user_agent, set_user_agent_suffix, terminal_token, TerminalEnv,
};

fn env() -> TerminalEnv {
    TerminalEnv {
        term_program: None,
        term_program_version: None,
        wezterm_version: None,
        iterm_session_id: None,
        kitty_window_id: None,
        alacritty_log: None,
        konsole_version: None,
        wt_session: None,
        term: None,
    }
}

#[test]
fn originator_override_must_not_be_blank() {
    assert_eq!(originator(None), "ring_cli_rs");
    assert_eq!(originator(Some("   ")), "ring_cli_rs");
    assert_eq!(originator(Some("my_host")), "my_host");
}

#[test]
fn user_agent_with_and_without_suffix() {
    let ua = get_user_agent("ring_cli_rs", "1.2.3", "Linux 6.1; x86_64", "xterm", None);
    assert_eq!(ua, "ring_cli_rs/1.2.3 (Linux 6.1; x86_64) xterm");
    let ua = get_user_agent("ring_cli_rs", "1.2.3", "Linux 6.1; x86_64", "xterm", Some("  ide 1.0 "));
    assert_eq!(ua, "ring_cli_rs/1.2.3 (Linux 6.1; x86_64) xterm (ide 1.0)");
    let ua = get_user_agent("o", "1", "os", "t", Some("   "));
    assert_eq!(ua, "o/1 (os) t");
}

#[test]
fn invalid_user_agent_is_sanitised() {
    let ua = get_user_agent("o", "1", "os", "t", Some("bad\u{1}x"));
    assert_eq!(ua, "o/1 (os) t (bad_x)");
    assert_eq!(sanitize_user_agent("a\nb".to_string(), "fb"), "a_b");
    assert_eq!(sanitize_user_agent("".to_string(), "fb"), "");
    assert_eq!(sanitize_user_agent("\u{7f}".to_string(), "fb"), "_");
    assert_eq!(sanitize_user_agent("ünïcode ok".to_string(), "fb"), "ünïcode ok");
}

#[test]
fn suffix_slot_is_set() {
    let mut slot = None;
    set_user_agent_suffix(&mut slot, "x");
    assert_eq!(slot.as_deref(), Some("x"));
}

#[test]
fn terminal_detection_order() {
    let mut e = env();
    assert_eq!(terminal_token(&e), "unknown");
    e.term = Some("xterm-256color".to_string());
    assert_eq!(terminal_token(&e), "xterm-256color");
    e.wt_session = Some("1".to_string());
    assert_eq!(terminal_token(&e), "WindowsTerminal");
    e.kitty_window_id = Some(" ".to_string());
    assert_eq!(terminal_token(&e), "WindowsTerminal");
    e.konsole_version = Some("23".to_string());
    assert_eq!(terminal_token(&e), "Konsole/23");
    e.iterm_session_id = Some("w0".to_string());
    assert_eq!(terminal_token(&e), "iTerm.app");
    e.wezterm_version = Some("2024 é".to_string());
    assert_eq!(terminal_token(&e), "WezTerm/2024 _");
    e.term_program = Some("vscode".to_string());
    assert_eq!(terminal_token(&e), "vscode");
    e.term_program_version = Some("1.9".to_string());
    assert_eq!(terminal_token(&e), "vscode/1.9");
}

#[test]
fn token_sanitising() {
    assert_eq!(sanitize_token("a\tb".to_string()), "a_b");
}

#[test]
fn os_segment_format() {
    assert_eq!(format_os_segment("Linux", "6.1", Some("x86_64")), "Linux 6.1; x86_64");
    assert_eq!(format_os_segment("Mac OS", "14", None), "Mac OS 14; unknown");
}

#[test]
fn codex_agent_and_headers() {
    assert_eq!(codex_user_agent("os", "t"), "codex_cli_rs/0.118.0 (os) t");
    let h = codex_headers("ua");
    assert_eq!(h, vec![("originator".to_string(), "codex_cli_rs".to_string()), ("user-agent".to_string(), "ua".to_string())]);
}

#[test]
fn invalid_header_values_are_left_out() {
    let h = default_headers("orig\n", "ua");
    assert_eq!(h, vec![("user-agent".to_string(), "ua".to_string())]);
    let h = default_headers("orig", "ua");
    assert_eq!(h.len(), 2);
}

