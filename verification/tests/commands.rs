use agtx::{RealTmuxOps, AGENT_SERVER};

fn expect(args: &[String], rest: &[&str]) {
    let mut want: Vec<String> = vec!["-L".to_string(), AGENT_SERVER.to_string()];
    want.extend(rest.iter().map(|s| s.to_string()));
    assert_eq!(args, &want[..]);
}

#[test]
fn agent_server_name() {
    assert_eq!(AGENT_SERVER, "agtx");
}

#[test]
fn create_window_without_command() {
    let args = RealTmuxOps.create_window_args("proj", "task-1", "/tmp/wt", None, true);
    expect(&args, &["new-window", "-d", "-t", "proj:", "-n", "task-1", "-c", "/tmp/wt"]);
}

#[test]
fn create_window_keeps_shell_after_command() {
    let args = RealTmuxOps.create_window_args("proj", "task-1", "/tmp/wt", Some("codex"), true);
    expect(
        &args,
        &[
            "new-window", "-d", "-t", "proj:", "-n", "task-1", "-c", "/tmp/wt", "sh", "-c",
            "codex; exec $SHELL",
        ],
    );
}

#[test]
fn create_window_lets_tmux_close_window() {
    let args =
        RealTmuxOps.create_window_args("proj", "orchestrator", "/repo", Some("codex --x"), false);
    expect(
        &args,
        &["new-window", "-d", "-t", "proj:", "-n", "orchestrator", "-c", "/repo", "sh", "-c", "codex --x"],
    );
}

#[test]
fn kill_and_list_window_args() {
    expect(&RealTmuxOps.kill_window_args("proj:task"), &["kill-window", "-t", "proj:task"]);
    expect(&RealTmuxOps.window_exists_args("proj:task"), &["list-windows", "-t", "proj:task"]);
}

#[test]
fn send_keys_presses_enter_after_keys() {
    let (first, second) = RealTmuxOps.send_keys_args("p:w", "ls -la");
    expect(&first, &["send-keys", "-t", "p:w", "ls -la"]);
    expect(&second, &["send-keys", "-t", "p:w", "Enter"]);
    expect(&RealTmuxOps.send_keys_literal_args("p:w", "y"), &["send-keys", "-t", "p:w", "y"]);
}

#[test]
fn paste_text_loads_then_pastes() {
    let (load, paste) = RealTmuxOps.paste_text_args("p:w");
    expect(&load, &["load-buffer", "-"]);
    expect(&paste, &["paste-buffer", "-p", "-t", "p:w"]);
}

#[test]
fn capture_pane_args_exact() {
    expect(&RealTmuxOps.capture_pane_args("p:w"), &["capture-pane", "-t", "p:w", "-p"]);
}

#[test]
fn capture_pane_with_history_args_exact() {
    expect(
        &RealTmuxOps.capture_pane_with_history_args("p:w", 500),
        &["capture-pane", "-t", "p:w", "-p", "-e", "-J", "-S", "-500"],
    );
    expect(
        &RealTmuxOps.capture_pane_with_history_args("p:w", 0),
        &["capture-pane", "-t", "p:w", "-p", "-e", "-J", "-S", "-0"],
    );
    expect(
        &RealTmuxOps.capture_pane_with_history_args("p:w", -7),
        &["capture-pane", "-t", "p:w", "-p", "-e", "-J", "-S", "--7"],
    );
    expect(
        &RealTmuxOps.capture_pane_with_history_args("p:w", i32::MIN),
        &["capture-pane", "-t", "p:w", "-p", "-e", "-J", "-S", &format!("-{}", i32::MIN)],
    );
}

#[test]
fn display_args_exact() {
    expect(
        &RealTmuxOps.cursor_info_args("p:w"),
        &["display", "-p", "-t", "p:w", "#{cursor_y} #{pane_height}"],
    );
    expect(
        &RealTmuxOps.pane_current_command_args("p:w"),
        &["display", "-p", "-t", "p:w", "#{pane_current_command}"],
    );
}

#[test]
fn resize_window_args_exact() {
    expect(
        &RealTmuxOps.resize_window_args("p:w", 200, 50),
        &["resize-window", "-t", "p:w", "-x", "200", "-y", "50"],
    );
    expect(
        &RealTmuxOps.resize_window_args("p:w", 0, u16::MAX),
        &["resize-window", "-t", "p:w", "-x", "0", "-y", "65535"],
    );
}

#[test]
fn session_args_exact() {
    expect(&RealTmuxOps.has_session_args("proj"), &["has-session", "-t", "proj"]);
    expect(
        &RealTmuxOps.create_session_args("proj", "/home/me/proj"),
        &["new-session", "-d", "-s", "proj", "-c", "/home/me/proj"],
    );
}
