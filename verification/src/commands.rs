//! The argument lists that `tmux` is run with, one per operation on the
//! agent server's sessions, windows and panes.

use vstd::prelude::*;

use crate::number::{
    decimal, decimal_spec, is_decimal_notation_of, is_signed_decimal_notation_of,
    lemma_decimal_is_notation, lemma_signed_decimal_is_notation, signed_decimal,
    signed_decimal_spec,
};
use crate::text::strings_view;

verus! {

/// The name of the tmux server socket that every command addresses with `-L`.
pub const AGENT_SERVER: &'static str = "agtx";

/// The arguments that select the agent server; every command starts with them.
pub open spec fn server_args() -> Seq<Seq<char>> {
    seq!["-L"@, AGENT_SERVER@]
}

/// The view of an optional string.
pub open spec fn opt_view(o: Option<&str>) -> Option<Seq<char>> {
    match o {
        Some(s) => Some(s@),
        None => None,
    }
}

/// What a new window runs: nothing given, the command itself, or the
/// command followed by an interactive shell when the window is to stay open.
pub open spec fn window_program_args(command: Option<Seq<char>>, keep_shell_on_exit: bool) -> Seq<
    Seq<char>,
> {
    match command {
        None => Seq::empty(),
        Some(c) => seq![
            "sh"@,
            "-c"@,
            if keep_shell_on_exit {
                c + "; exec $SHELL"@
            } else {
                c
            },
        ],
    }
}

/// Arguments that open a detached window named `window_name` in `session`,
/// working in `working_dir`.
pub open spec fn create_window_args_spec(
    session: Seq<char>,
    window_name: Seq<char>,
    working_dir: Seq<char>,
    command: Option<Seq<char>>,
    keep_shell_on_exit: bool,
) -> Seq<Seq<char>> {
    server_args() + seq![
        "new-window"@,
        "-d"@,
        "-t"@,
        session + ":"@,
        "-n"@,
        window_name,
        "-c"@,
        working_dir,
    ] + window_program_args(command, keep_shell_on_exit)
}

/// Arguments of a tmux subcommand that names a `-t` target and nothing more.
pub open spec fn targeted_args(subcommand: Seq<char>, target: Seq<char>) -> Seq<Seq<char>> {
    server_args() + seq![subcommand, "-t"@, target]
}

/// Arguments that type `keys` into the pane `target`.
pub open spec fn send_keys_args_spec(target: Seq<char>, keys: Seq<char>) -> Seq<Seq<char>> {
    server_args() + seq!["send-keys"@, "-t"@, target, keys]
}

/// Arguments that load the text given on standard input into the paste buffer.
pub open spec fn load_buffer_args_spec() -> Seq<Seq<char>> {
    server_args() + seq!["load-buffer"@, "-"@]
}

/// Arguments that paste the buffer into `target` as a bracketed paste.
pub open spec fn paste_buffer_args_spec(target: Seq<char>) -> Seq<Seq<char>> {
    server_args() + seq!["paste-buffer"@, "-p"@, "-t"@, target]
}

/// Arguments that print the visible content of the pane `target`.
pub open spec fn capture_pane_args_spec(target: Seq<char>) -> Seq<Seq<char>> {
    server_args() + seq!["capture-pane"@, "-t"@, target, "-p"@]
}

/// Arguments that print the pane `target` with colours, joined lines, and
/// `history_lines` lines of history.
pub open spec fn capture_history_args_spec(target: Seq<char>, history_lines: int) -> Seq<
    Seq<char>,
> {
    server_args() + seq!["capture-pane"@, "-t"@, target, "-p"@, "-e"@, "-J"@] + seq![
        "-S"@,
        "-"@ + signed_decimal_spec(history_lines),
    ]
}

/// Arguments that print `format` expanded for the pane `target`.
pub open spec fn display_args_spec(target: Seq<char>, format: Seq<char>) -> Seq<Seq<char>> {
    server_args() + seq!["display"@, "-p"@, "-t"@, target, format]
}

/// Arguments that resize the window `target` to `width` columns and `height` rows.
pub open spec fn resize_window_args_spec(target: Seq<char>, width: nat, height: nat) -> Seq<
    Seq<char>,
> {
    server_args() + seq!["resize-window"@, "-t"@, target] + seq![
        "-x"@,
        decimal_spec(width),
    ] + seq!["-y"@, decimal_spec(height)]
}

/// Arguments that start the detached session `session` in `working_dir`.
pub open spec fn create_session_args_spec(session: Seq<char>, working_dir: Seq<char>) -> Seq<
    Seq<char>,
> {
    server_args() + seq!["new-session"@, "-d"@, "-s"@, session] + seq!["-c"@, working_dir]
}

/// Every command that the client runs addresses the agent server: its
/// argument list starts with `-L` and the server's name.
pub proof fn lemma_every_command_addresses_agent_server(
    session: Seq<char>,
    window_name: Seq<char>,
    working_dir: Seq<char>,
    command: Option<Seq<char>>,
    keep_shell_on_exit: bool,
    subcommand: Seq<char>,
    target: Seq<char>,
    keys: Seq<char>,
    history_lines: int,
    format: Seq<char>,
    width: nat,
    height: nat,
)
    ensures
        create_window_args_spec(
            session,
            window_name,
            working_dir,
            command,
            keep_shell_on_exit,
        ).take(2) == server_args(),
        targeted_args(subcommand, target).take(2) == server_args(),
        send_keys_args_spec(target, keys).take(2) == server_args(),
        load_buffer_args_spec().take(2) == server_args(),
        paste_buffer_args_spec(target).take(2) == server_args(),
        capture_pane_args_spec(target).take(2) == server_args(),
        capture_history_args_spec(target, history_lines).take(2) == server_args(),
        display_args_spec(target, format).take(2) == server_args(),
        resize_window_args_spec(target, width, height).take(2) == server_args(),
        create_session_args_spec(session, working_dir).take(2) == server_args(),
{
    assert(create_window_args_spec(session, window_name, working_dir, command, keep_shell_on_exit).take(2) =~= server_args());
    assert(targeted_args(subcommand, target).take(2) =~= server_args());
    assert(send_keys_args_spec(target, keys).take(2) =~= server_args());
    assert(load_buffer_args_spec().take(2) =~= server_args());
    assert(paste_buffer_args_spec(target).take(2) =~= server_args());
    assert(capture_pane_args_spec(target).take(2) =~= server_args());
    assert(capture_history_args_spec(target, history_lines).take(2) =~= server_args());
    assert(display_args_spec(target, format).take(2) =~= server_args());
    assert(resize_window_args_spec(target, width, height).take(2) =~= server_args());
    assert(create_session_args_spec(session, working_dir).take(2) =~= server_args());
}

/// A window opened with a command runs it through `sh -c`: with
/// `keep_shell_on_exit` the shell command is the command followed by
/// `; exec $SHELL`, so a shell takes over when it exits; without it the shell
/// command is the command itself, and the window closes when it exits. A
/// window opened without a command runs tmux's default shell.
pub proof fn law_create_window_opens_window_running_command(
    session: Seq<char>,
    window_name: Seq<char>,
    working_dir: Seq<char>,
    command: Option<Seq<char>>,
    keep_shell_on_exit: bool,
)
    ensures
        ({
            let a = create_window_args_spec(
                session,
                window_name,
                working_dir,
                command,
                keep_shell_on_exit,
            );
            &&& a.len() == if command is Some {
                13int
            } else {
                10int
            }
            &&& a[0] == "-L"@ && a[1] == AGENT_SERVER@
            &&& a[2] == "new-window"@ && a[3] == "-d"@ && a[4] == "-t"@
            &&& a[5] == session + ":"@
            &&& a[6] == "-n"@ && a[7] == window_name
            &&& a[8] == "-c"@ && a[9] == working_dir
            &&& command matches Some(c) ==> (a[10] == "sh"@ && a[11] == "-c"@)
            &&& keep_shell_on_exit ==> (command matches Some(c) ==> a[12] == c + "; exec $SHELL"@)
            &&& !keep_shell_on_exit ==> (command matches Some(c) ==> a[12] == c)
        }),
{
}

/// The history capture starts `history_lines` lines back: its last argument
/// is `-` followed by the usual decimal notation of `history_lines`, with
/// nothing clamped.
pub proof fn law_capture_history_starts_history_lines_back(target: Seq<char>, history_lines: int)
    ensures
        ({
            let a = capture_history_args_spec(target, history_lines);
            &&& a.len() == 10
            &&& a[0] == "-L"@ && a[1] == AGENT_SERVER@
            &&& a[2] == "capture-pane"@ && a[3] == "-t"@ && a[4] == target
            &&& a[5] == "-p"@ && a[6] == "-e"@ && a[7] == "-J"@ && a[8] == "-S"@
            &&& a[9].len() > 0 && a[9][0] == '-'
            &&& is_signed_decimal_notation_of(a[9].drop_first(), history_lines)
        }),
{
    let a = capture_history_args_spec(target, history_lines);
    lemma_signed_decimal_is_notation(history_lines);
    assert(a[9] == "-"@ + signed_decimal_spec(history_lines));
    reveal_strlit("-");
    assert(a[9].drop_first() =~= signed_decimal_spec(history_lines));
}

/// A resize gives the width after `-x` and the height after `-y`, each in
/// its usual decimal notation.
pub proof fn law_resize_window_gives_width_then_height(target: Seq<char>, width: nat, height: nat)
    ensures
        ({
            let a = resize_window_args_spec(target, width, height);
            &&& a.len() == 9
            &&& a[0] == "-L"@ && a[1] == AGENT_SERVER@
            &&& a[2] == "resize-window"@ && a[3] == "-t"@ && a[4] == target
            &&& a[5] == "-x"@ && is_decimal_notation_of(a[6], width)
            &&& a[7] == "-y"@ && is_decimal_notation_of(a[8], height)
        }),
{
    lemma_decimal_is_notation(width);
    lemma_decimal_is_notation(height);
}

/// A fresh argument list holding the arguments that select the agent server.
fn server_prefix() -> (v: Vec<String>)
    ensures
        strings_view(v@) == server_args(),
{
    let mut v: Vec<String> = Vec::new();
    push_arg(&mut v, "-L");
    push_arg(&mut v, AGENT_SERVER);
    v
}

/// Appends `a` to the argument list `v`.
fn push_arg(v: &mut Vec<String>, a: &str)
    ensures
        strings_view(final(v)@) == strings_view(old(v)@).push(a@),
{
    v.push(String::from_str(a));
    assert(strings_view(v@) =~= strings_view(old(v)@).push(a@));
}

/// Appends an argument already held as a `String`.
fn push_owned(v: &mut Vec<String>, a: String)
    ensures
        strings_view(final(v)@) == strings_view(old(v)@).push(a@),
{
    let ghost av = a@;
    v.push(a);
    assert(strings_view(v@) =~= strings_view(old(v)@).push(av));
}

/// The tmux client that drives the agent server through the `tmux` program.
pub struct RealTmuxOps;

impl RealTmuxOps {
    /// Arguments for opening a window; with `keep_shell_on_exit` the window
    /// drops to a shell once `command` exits, without it tmux closes the window.
    pub fn create_window_args(
        &self,
        session: &str,
        window_name: &str,
        working_dir: &str,
        command: Option<&str>,
        keep_shell_on_exit: bool,
    ) -> (args: Vec<String>)
        ensures
            strings_view(args@) == create_window_args_spec(
                session@,
                window_name@,
                working_dir@,
                opt_view(command),
                keep_shell_on_exit,
            ),
            args@.len() == if command is Some {
                13int
            } else {
                10int
            },
            args@[0]@ == "-L"@,
            args@[1]@ == AGENT_SERVER@,
            args@[2]@ == "new-window"@,
            args@[3]@ == "-d"@,
            args@[4]@ == "-t"@,
            args@[5]@ == session@ + ":"@,
            args@[6]@ == "-n"@,
            args@[7]@ == window_name@,
            args@[8]@ == "-c"@,
            args@[9]@ == working_dir@,
            command matches Some(c) ==> (args@[10]@ == "sh"@ && args@[11]@ == "-c"@),
            keep_shell_on_exit ==> (command matches Some(c) ==> args@[12]@ == c@ + "; exec $SHELL"@),
            !keep_shell_on_exit ==> (command matches Some(c) ==> args@[12]@ == c@),
    {
        proof {
            law_create_window_opens_window_running_command(
                session@,
                window_name@,
                working_dir@,
                opt_view(command),
                keep_shell_on_exit,
            );
        }
        let mut v = server_prefix();
        push_arg(&mut v, "new-window");
        push_arg(&mut v, "-d");
        push_arg(&mut v, "-t");
        let target = String::from_str(session).concat(":");
        push_owned(&mut v, target);
        push_arg(&mut v, "-n");
        push_arg(&mut v, window_name);
        push_arg(&mut v, "-c");
        push_arg(&mut v, working_dir);
        match command {
            Some(shell_cmd) => {
                push_arg(&mut v, "sh");
                push_arg(&mut v, "-c");
                if keep_shell_on_exit {
                    let wrapped = String::from_str(shell_cmd).concat("; exec $SHELL");
                    push_owned(&mut v, wrapped);
                } else {
                    push_arg(&mut v, shell_cmd);
                }
            },
            None => {},
        }
        assert(strings_view(v@) =~= create_window_args_spec(
            session@,
            window_name@,
            working_dir@,
            opt_view(command),
            keep_shell_on_exit,
        ));
        v
    }

    /// Arguments for closing the window `target`.
    pub fn kill_window_args(&self, target: &str) -> (args: Vec<String>)
        ensures
            strings_view(args@) == targeted_args("kill-window"@, target@),
            strings_view(args@) == seq!["-L"@, AGENT_SERVER@, "kill-window"@, "-t"@, target@],
    {
        let mut v = server_prefix();
        push_arg(&mut v, "kill-window");
        push_arg(&mut v, "-t");
        push_arg(&mut v, target);
        assert(strings_view(v@) =~= targeted_args("kill-window"@, target@));
        v
    }

    /// Arguments for listing the windows of `target`; the command succeeds
    /// exactly when the window exists.
    pub fn window_exists_args(&self, target: &str) -> (args: Vec<String>)
        ensures
            strings_view(args@) == targeted_args("list-windows"@, target@),
            strings_view(args@) == seq!["-L"@, AGENT_SERVER@, "list-windows"@, "-t"@, target@],
    {
        let mut v = server_prefix();
        push_arg(&mut v, "list-windows");
        push_arg(&mut v, "-t");
        push_arg(&mut v, target);
        assert(strings_view(v@) =~= targeted_args("list-windows"@, target@));
        v
    }

    /// Arguments for typing `keys` into `target` without pressing Enter.
    pub fn send_keys_literal_args(&self, target: &str, keys: &str) -> (args: Vec<String>)
        ensures
            strings_view(args@) == send_keys_args_spec(target@, keys@),
            strings_view(args@) == seq!["-L"@, AGENT_SERVER@, "send-keys"@, "-t"@, target@, keys@],
    {
        let mut v = server_prefix();
        push_arg(&mut v, "send-keys");
        push_arg(&mut v, "-t");
        push_arg(&mut v, target);
        push_arg(&mut v, keys);
        assert(strings_view(v@) =~= send_keys_args_spec(target@, keys@));
        v
    }

    /// The two commands, run in order, that type `keys` into `target` and
    /// then press Enter.
    pub fn send_keys_args(&self, target: &str, keys: &str) -> (args: (Vec<String>, Vec<String>))
        ensures
            strings_view(args.0@) == send_keys_args_spec(target@, keys@),
            strings_view(args.1@) == send_keys_args_spec(target@, "Enter"@),
            strings_view(args.0@) == seq!["-L"@, AGENT_SERVER@, "send-keys"@, "-t"@, target@, keys@],
            strings_view(args.1@) == seq!["-L"@, AGENT_SERVER@, "send-keys"@, "-t"@, target@, "Enter"@],
    {
        let first = self.send_keys_literal_args(target, keys);
        let second = self.send_keys_literal_args(target, "Enter");
        (first, second)
    }

    /// The two commands, run in order, that paste a block of text into
    /// `target`: the first reads the text from its standard input into the
    /// paste buffer, the second pastes the buffer as a bracketed paste.
    pub fn paste_text_args(&self, target: &str) -> (args: (Vec<String>, Vec<String>))
        ensures
            strings_view(args.0@) == load_buffer_args_spec(),
            strings_view(args.1@) == paste_buffer_args_spec(target@),
            strings_view(args.0@) == seq!["-L"@, AGENT_SERVER@, "load-buffer"@, "-"@],
            strings_view(args.1@) == seq!["-L"@, AGENT_SERVER@, "paste-buffer"@, "-p"@, "-t"@, target@],
    {
        let mut load = server_prefix();
        push_arg(&mut load, "load-buffer");
        push_arg(&mut load, "-");
        assert(strings_view(load@) =~= load_buffer_args_spec());
        let mut paste = server_prefix();
        push_arg(&mut paste, "paste-buffer");
        push_arg(&mut paste, "-p");
        push_arg(&mut paste, "-t");
        push_arg(&mut paste, target);
        assert(strings_view(paste@) =~= paste_buffer_args_spec(target@));
        (load, paste)
    }

    /// Arguments for printing the visible content of the pane `target`.
    pub fn capture_pane_args(&self, target: &str) -> (args: Vec<String>)
        ensures
            strings_view(args@) == capture_pane_args_spec(target@),
            strings_view(args@) == seq!["-L"@, AGENT_SERVER@, "capture-pane"@, "-t"@, target@, "-p"@],
    {
        let mut v = server_prefix();
        push_arg(&mut v, "capture-pane");
        push_arg(&mut v, "-t");
        push_arg(&mut v, target);
        push_arg(&mut v, "-p");
        assert(strings_view(v@) =~= capture_pane_args_spec(target@));
        v
    }

    /// Arguments for printing the pane `target` with its escape sequences,
    /// wrapped lines joined, starting `history_lines` lines back in history.
    pub fn capture_pane_with_history_args(&self, target: &str, history_lines: i32) -> (args: Vec<
        String,
    >)
        ensures
            strings_view(args@) == capture_history_args_spec(target@, history_lines as int),
            strings_view(args@).take(9) == seq![
                "-L"@,
                AGENT_SERVER@,
                "capture-pane"@,
                "-t"@,
                target@,
                "-p"@,
                "-e"@,
                "-J"@,
                "-S"@,
            ],
            args@.len() == 10,
            args@[3]@ == "-t"@,
            args@[4]@ == target@,
            args@[8]@ == "-S"@,
            args@[9]@.len() > 0,
            args@[9]@[0] == '-',
            is_signed_decimal_notation_of(args@[9]@.drop_first(), history_lines as int),
    {
        proof {
            law_capture_history_starts_history_lines_back(target@, history_lines as int);
        }
        let mut v = server_prefix();
        push_arg(&mut v, "capture-pane");
        push_arg(&mut v, "-t");
        push_arg(&mut v, target);
        push_arg(&mut v, "-p");
        push_arg(&mut v, "-e");
        push_arg(&mut v, "-J");
        push_arg(&mut v, "-S");
        let start = String::from_str("-").concat(signed_decimal(history_lines).as_str());
        push_owned(&mut v, start);
        assert(strings_view(v@) =~= capture_history_args_spec(target@, history_lines as int));
        v
    }

    /// Arguments for printing the cursor row and the pane height of `target`,
    /// separated by a space.
    pub fn cursor_info_args(&self, target: &str) -> (args: Vec<String>)
        ensures
            strings_view(args@) == display_args_spec(target@, "#{cursor_y} #{pane_height}"@),
            strings_view(args@) == seq![
                "-L"@,
                AGENT_SERVER@,
                "display"@,
                "-p"@,
                "-t"@,
                target@,
                "#{cursor_y} #{pane_height}"@,
            ],
    {
        let mut v = server_prefix();
        push_arg(&mut v, "display");
        push_arg(&mut v, "-p");
        push_arg(&mut v, "-t");
        push_arg(&mut v, target);
        push_arg(&mut v, "#{cursor_y} #{pane_height}");
        assert(strings_view(v@) =~= display_args_spec(target@, "#{cursor_y} #{pane_height}"@));
        v
    }

    /// Arguments for resizing the window `target`.
    pub fn resize_window_args(&self, target: &str, width: u16, height: u16) -> (args: Vec<
        String,
    >)
        ensures
            strings_view(args@) == resize_window_args_spec(target@, width as nat, height as nat),
            args@[0]@ == "-L"@ && args@[1]@ == AGENT_SERVER@ && args@[2]@ == "resize-window"@,
            args@[3]@ == "-t"@,
            args@.len() == 9,
            args@[4]@ == target@,
            args@[5]@ == "-x"@,
            is_decimal_notation_of(args@[6]@, width as nat),
            args@[7]@ == "-y"@,
            is_decimal_notation_of(args@[8]@, height as nat),
    {
        proof {
            law_resize_window_gives_width_then_height(target@, width as nat, height as nat);
        }
        let mut v = server_prefix();
        push_arg(&mut v, "resize-window");
        push_arg(&mut v, "-t");
        push_arg(&mut v, target);
        push_arg(&mut v, "-x");
        push_owned(&mut v, decimal(width as u64));
        push_arg(&mut v, "-y");
        push_owned(&mut v, decimal(height as u64));
        assert(strings_view(v@) =~= resize_window_args_spec(target@, width as nat, height as nat));
        v
    }

    /// Arguments for printing the command that runs in the pane `target`.
    pub fn pane_current_command_args(&self, target: &str) -> (args: Vec<String>)
        ensures
            strings_view(args@) == display_args_spec(target@, "#{pane_current_command}"@),
            strings_view(args@) == seq![
                "-L"@,
                AGENT_SERVER@,
                "display"@,
                "-p"@,
                "-t"@,
                target@,
                "#{pane_current_command}"@,
            ],
    {
        let mut v = server_prefix();
        push_arg(&mut v, "display");
        push_arg(&mut v, "-p");
        push_arg(&mut v, "-t");
        push_arg(&mut v, target);
        push_arg(&mut v, "#{pane_current_command}");
        assert(strings_view(v@) =~= display_args_spec(target@, "#{pane_current_command}"@));
        v
    }

    /// Arguments for asking whether `session` exists; the command succeeds
    /// exactly when it does.
    pub fn has_session_args(&self, session: &str) -> (args: Vec<String>)
        ensures
            strings_view(args@) == targeted_args("has-session"@, session@),
            strings_view(args@) == seq!["-L"@, AGENT_SERVER@, "has-session"@, "-t"@, session@],
    {
        let mut v = server_prefix();
        push_arg(&mut v, "has-session");
        push_arg(&mut v, "-t");
        push_arg(&mut v, session);
        assert(strings_view(v@) =~= targeted_args("has-session"@, session@));
        v
    }

    /// Arguments for starting a detached session.
    pub fn create_session_args(&self, session: &str, working_dir: &str) -> (args: Vec<String>)
        ensures
            strings_view(args@) == create_session_args_spec(session@, working_dir@),
            strings_view(args@) == seq![
                "-L"@,
                AGENT_SERVER@,
                "new-session"@,
                "-d"@,
                "-s"@,
                session@,
                "-c"@,
                working_dir@,
            ],
    {
        let mut v = server_prefix();
        push_arg(&mut v, "new-session");
        push_arg(&mut v, "-d");
        push_arg(&mut v, "-s");
        push_arg(&mut v, session);
        push_arg(&mut v, "-c");
        push_arg(&mut v, working_dir);
        assert(strings_view(v@) =~= create_session_args_spec(session@, working_dir@));
        v
    }
}

} // verus!
