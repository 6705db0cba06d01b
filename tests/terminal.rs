use std::collections::HashMap;

use bottom::terminal::{is_wsl_with, should_auto_enable_dot_marker_with, dot_marker_decision, has_prefix, TerminalEnv};

#[test]
fn detects_wsl_from_known_env_vars() {
    let mut env = HashMap::new();
    env.insert("WSL_DISTRO_NAME", "Ubuntu");
    assert!(is_wsl_with(|key| env.get(key).map(ToString::to_string)));

    let mut env = HashMap::new();
    env.insert("WSL_INTEROP", "/run/WSL/123");
    assert!(is_wsl_with(|key| env.get(key).map(ToString::to_string)));
}

#[test]
fn does_not_detect_wsl_without_wsl_vars() {
    let env = HashMap::<&str, &str>::new();
    assert!(!is_wsl_with(|key| env.get(key).map(ToString::to_string)));
}

#[test]
fn enables_dot_marker_for_windows_cmd() {
    let mut env = HashMap::new();
    env.insert("COMSPEC", r"C:\Windows\System32\cmd.exe");
    assert!(should_auto_enable_dot_marker_with(true, |key| {
        env.get(key).map(ToString::to_string)
    }));
}

#[test]
fn enables_dot_marker_for_windows_powershell() {
    let mut env = HashMap::new();
    env.insert(
        "PSModulePath",
        r"C:\Users\User\Documents\WindowsPowerShell\Modules",
    );
    assert!(should_auto_enable_dot_marker_with(true, |key| {
        env.get(key).map(ToString::to_string)
    }));
}

#[test]
fn does_not_auto_enable_on_windows_terminal() {
    let mut env = HashMap::new();
    env.insert("WT_SESSION", "1");
    env.insert("COMSPEC", r"C:\Windows\System32\cmd.exe");
    assert!(!should_auto_enable_dot_marker_with(true, |key| {
        env.get(key).map(ToString::to_string)
    }));
}

#[test]
fn does_not_auto_enable_for_xterm_like_terminals() {
    let mut env = HashMap::new();
    env.insert("TERM", "xterm-256color");
    env.insert("COMSPEC", r"C:\Windows\System32\cmd.exe");
    assert!(!should_auto_enable_dot_marker_with(true, |key| {
        env.get(key).map(ToString::to_string)
    }));
}

#[test]
fn does_not_auto_enable_on_non_windows() {
    let mut env = HashMap::new();
    env.insert("COMSPEC", r"C:\Windows\System32\cmd.exe");
    assert!(!should_auto_enable_dot_marker_with(false, |key| {
        env.get(key).map(ToString::to_string)
    }));
}

fn empty_env() -> TerminalEnv {
    TerminalEnv {
        wt_session: None,
        term_program: None,
        term: None,
        ps_module_path: None,
        prompt: None,
        comspec: None,
    }
}

#[test]
fn vscode_terminal_keeps_braille_in_any_case() {
    let mut env = empty_env();
    env.term_program = Some("VSCode".to_string());
    env.prompt = Some("$P$G".to_string());
    assert!(!dot_marker_decision(true, &env));
}

#[test]
fn prompt_variable_alone_enables_dot_marker() {
    let mut env = empty_env();
    env.prompt = Some("$P$G".to_string());
    assert!(dot_marker_decision(true, &env));
    assert!(!dot_marker_decision(true, &empty_env()));
}

#[test]
fn comspec_is_matched_ignoring_case() {
    let mut env = empty_env();
    env.comspec = Some(r"C:\WINDOWS\SYSTEM32\CMD.EXE".to_string());
    assert!(dot_marker_decision(true, &env));
    env.comspec = Some(r"C:\shell\pwsh.exe".to_string());
    assert!(!dot_marker_decision(true, &env));
}

#[test]
fn prefixes_are_matched_at_the_start_only() {
    assert!(has_prefix("tmux-256color", &["xterm", "tmux"]));
    assert!(!has_prefix("my-tmux", &["xterm", "tmux"]));
    assert!(!has_prefix("anything", &[]));
}
