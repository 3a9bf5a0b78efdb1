use agtx::RealTmuxOps;

#[test]
fn create_window_success_is_ok() {
    assert_eq!(RealTmuxOps.create_window_result(true, "warning", "x"), Ok(()));
}

#[test]
fn create_window_failure_without_output() {
    assert_eq!(
        RealTmuxOps.create_window_result(false, " \n", ""),
        Err("Failed to create tmux window".to_string())
    );
}

#[test]
fn create_window_failure_with_stderr_only() {
    assert_eq!(
        RealTmuxOps.create_window_result(false, "  can't find session: proj\n", "\n"),
        Err("Failed to create tmux window: can't find session: proj".to_string())
    );
}

#[test]
fn create_window_failure_with_stdout_only() {
    assert_eq!(
        RealTmuxOps.create_window_result(false, "", " out "),
        Err("Failed to create tmux window: out".to_string())
    );
}

#[test]
fn create_window_failure_with_both_outputs() {
    assert_eq!(
        RealTmuxOps.create_window_result(false, "err\n", "out\n"),
        Err("Failed to create tmux window: err | out".to_string())
    );
}

#[test]
fn cursor_info_reads_two_numbers() {
    assert_eq!(RealTmuxOps.cursor_info_from_output(true, "12 40\n"), Some((12, 40)));
    assert_eq!(RealTmuxOps.cursor_info_from_output(true, "  0\t7 "), Some((0, 7)));
    assert_eq!(RealTmuxOps.cursor_info_from_output(true, "+3 4"), Some((3, 4)));
}

#[test]
fn cursor_info_rejects_bad_output() {
    assert_eq!(RealTmuxOps.cursor_info_from_output(false, "12 40\n"), None);
    assert_eq!(RealTmuxOps.cursor_info_from_output(true, "12\n"), None);
    assert_eq!(RealTmuxOps.cursor_info_from_output(true, "1 2 3\n"), None);
    assert_eq!(RealTmuxOps.cursor_info_from_output(true, "x 2\n"), None);
    assert_eq!(RealTmuxOps.cursor_info_from_output(true, "1 -2\n"), None);
    assert_eq!(RealTmuxOps.cursor_info_from_output(true, ""), None);
}

#[test]
fn cursor_info_reads_back_display_output() {
    for (y, h) in [(0usize, 0usize), (5, 24), (123, 4567), (usize::MAX, 1)] {
        let out = format!("{} {}\n", y, h);
        assert_eq!(RealTmuxOps.cursor_info_from_output(true, &out), Some((y, h)));
    }
}

#[test]
fn pane_command_is_trimmed_name() {
    assert_eq!(
        RealTmuxOps.pane_current_command_from_output(true, "codex\n"),
        Some("codex".to_string())
    );
    assert_eq!(
        RealTmuxOps.pane_current_command_from_output(true, "  zsh  "),
        Some("zsh".to_string())
    );
}

#[test]
fn pane_command_absent_when_blank_or_failed() {
    assert_eq!(RealTmuxOps.pane_current_command_from_output(true, " \n"), None);
    assert_eq!(RealTmuxOps.pane_current_command_from_output(false, "bash\n"), None);
}
