//! What the output of a finished `tmux` command means for each operation.

use vstd::prelude::*;

use crate::commands::RealTmuxOps;
use crate::number::{
    all_digits, decimal_spec, lemma_decimal_digits, lemma_parse_decimal_roundtrip, parse_usize,
    parse_usize_spec,
};
use crate::text::{
    is_white_space, lemma_trim_cuts_only_white_space,
    free_of_white_space, lemma_word_scan_extends_word, split_whitespace, split_whitespace_spec,
    trim, trim_end_spec, trim_start_spec, trim_spec, word_scan,
};

verus! {

/// What a failed window creation reports of tmux's output: the trimmed error
/// output and the trimmed standard output, those that are not empty, joined
/// by ` | `.
pub open spec fn failure_details_spec(stderr: Seq<char>, stdout: Seq<char>) -> Seq<char> {
    let e = trim_spec(stderr);
    let o = trim_spec(stdout);
    if o.len() == 0 {
        e
    } else if e.len() == 0 {
        o
    } else {
        e + " | "@ + o
    }
}

/// The error message of a failed window creation.
pub open spec fn create_window_failure_spec(stderr: Seq<char>, stdout: Seq<char>) -> Seq<char> {
    let details = failure_details_spec(stderr, stdout);
    if details.len() == 0 {
        "Failed to create tmux window"@
    } else {
        "Failed to create tmux window: "@ + details
    }
}

/// The cursor row and pane height that a successful `display` of
/// `#{cursor_y} #{pane_height}` printed: exactly two words, each a `usize`.
pub open spec fn cursor_info_spec(success: bool, stdout: Seq<char>) -> Option<(usize, usize)> {
    let words = split_whitespace_spec(trim_spec(stdout));
    if success && words.len() == 2 && parse_usize_spec(words[0]) is Some && parse_usize_spec(
        words[1],
    ) is Some {
        Some((parse_usize_spec(words[0])->0, parse_usize_spec(words[1])->0))
    } else {
        None
    }
}

/// The command name that a successful `display` of `#{pane_current_command}`
/// printed, trimmed; none when the command failed or printed only whitespace.
pub open spec fn pane_command_spec(success: bool, stdout: Seq<char>) -> Option<Seq<char>> {
    if success && trim_spec(stdout).len() > 0 {
        Some(trim_spec(stdout))
    } else {
        None
    }
}

impl RealTmuxOps {
    /// The result of a window creation whose command exited with `success`
    /// and printed `stderr` and `stdout`.
    pub fn create_window_result(&self, success: bool, stderr: &str, stdout: &str) -> (r: Result<
        (),
        String,
    >)
        ensures
            r is Ok <==> success,
            r matches Err(message) ==> message@ == create_window_failure_spec(stderr@, stdout@),
            r matches Err(message) ==> ({
                let e = trim_spec(stderr@);
                let o = trim_spec(stdout@);
                &&& e.len() == 0 && o.len() == 0 ==> message@ == "Failed to create tmux window"@
                &&& e.len() > 0 && o.len() == 0 ==> message@ == "Failed to create tmux window: "@ + e
                &&& e.len() == 0 && o.len() > 0 ==> message@ == "Failed to create tmux window: "@ + o
                &&& e.len() > 0 && o.len() > 0 ==> message@ == "Failed to create tmux window: "@ + e
                    + " | "@ + o
            }),
    {
        if success {
            return Ok(());
        }
        let e = trim(stderr);
        let o = trim(stdout);
        let mut details = String::new();
        if !e.is_empty() {
            details.append(e);
        }
        if !o.is_empty() {
            if !details.as_str().is_empty() {
                details.append(" | ");
            }
            details.append(o);
        }
        assert(details@ =~= failure_details_spec(stderr@, stdout@));
        if details.as_str().is_empty() {
            Err(String::from_str("Failed to create tmux window"))
        } else {
            Err(String::from_str("Failed to create tmux window: ").concat(details.as_str()))
        }
    }

    /// The cursor row and pane height read from the output of the command
    /// that `cursor_info_args` gives.
    pub fn cursor_info_from_output(&self, success: bool, stdout: &str) -> (r: Option<
        (usize, usize),
    >)
        ensures
            r == cursor_info_spec(success, stdout@),
            !success ==> r is None,
            r matches Some(yh) ==> ({
                let words = split_whitespace_spec(trim_spec(stdout@));
                &&& words.len() == 2
                &&& parse_usize_spec(words[0]) == Some(yh.0)
                &&& parse_usize_spec(words[1]) == Some(yh.1)
            }),
    {
        proof {
            law_cursor_info_only_from_successful_display(success, stdout@);
        }
        if !success {
            return None;
        }
        let words = split_whitespace(trim(stdout));
        if words.len() != 2 {
            return None;
        }
        proof {
            assert(words@[0]@ == split_whitespace_spec(trim_spec(stdout@))[0]);
            assert(words@[1]@ == split_whitespace_spec(trim_spec(stdout@))[1]);
        }
        let cursor_y = match parse_usize(words[0].as_str()) {
            Some(y) => y,
            None => {
                return None;
            },
        };
        let pane_height = match parse_usize(words[1].as_str()) {
            Some(h) => h,
            None => {
                return None;
            },
        };
        Some((cursor_y, pane_height))
    }

    /// The command running in a pane, read from the output of the command
    /// that `pane_current_command_args` gives.
    pub fn pane_current_command_from_output(&self, success: bool, stdout: &str) -> (r: Option<
        String,
    >)
        ensures
            match r {
                Some(name) => pane_command_spec(success, stdout@) == Some(name@),
                None => pane_command_spec(success, stdout@) is None,
            },
            !success ==> r is None,
            success && trim_spec(stdout@).len() == 0 ==> r is None,
            success && trim_spec(stdout@).len() > 0 ==> (r matches Some(name) && name@ == trim_spec(
                stdout@,
            )),
    {
        proof {
            let _ = law_pane_command_is_the_trimmed_output(success, stdout@);
        }
        if !success {
            return None;
        }
        let name = trim(stdout);
        if name.is_empty() {
            None
        } else {
            Some(String::from_str(name))
        }
    }
}


proof fn lemma_digits_free_of_white_space(s: Seq<char>)
    requires
        all_digits(s),
    ensures
        free_of_white_space(s),
{
    assert forall|k: int| 0 <= k < s.len() implies !crate::text::is_white_space(#[trigger] s[k]) by {
        assert(crate::number::is_digit(s[k]));
    }
}

/// What tmux prints for `#{cursor_y} #{pane_height}`, the two numbers in
/// decimal with a space between them and a newline after, reads back as
/// those two numbers.
pub proof fn lemma_cursor_info_reads_display_output(y: nat, h: nat)
    requires
        y <= usize::MAX,
        h <= usize::MAX,
    ensures
        cursor_info_spec(true, decimal_spec(y) + seq![' '] + decimal_spec(h) + seq!['\n']) == Some(
            (y as usize, h as usize),
        ),
{
    let a = decimal_spec(y);
    let b = decimal_spec(h);
    lemma_decimal_digits(y);
    lemma_decimal_digits(h);
    lemma_digits_free_of_white_space(a);
    lemma_digits_free_of_white_space(b);
    let line = a + seq![' '] + b;
    let s = line + seq!['\n'];
    assert(s.drop_last() =~= line);
    assert(line.last() == b.last());
    assert(!crate::text::is_white_space(b[b.len() - 1]));
    assert(trim_end_spec(line) == line);
    assert(trim_end_spec(s) == line);
    assert(s[0] == a[0]);
    assert(!crate::text::is_white_space(a[0]));
    assert(trim_start_spec(s) == s);
    assert(trim_spec(s) == line);
    lemma_word_scan_extends_word(Seq::empty(), a);
    assert(Seq::<char>::empty() + a =~= a);
    assert(word_scan(a) == (Seq::<Seq<char>>::empty(), Seq::<char>::empty() + a));
    assert(Seq::<char>::empty() + a =~= a);
    let head = a + seq![' '];
    assert(head.drop_last() =~= a);
    assert(word_scan(head) == (seq![a], Seq::<char>::empty()));
    lemma_word_scan_extends_word(head, b);
    assert(Seq::<char>::empty() + b =~= b);
    assert(word_scan(line) == (seq![a], b));
    assert(split_whitespace_spec(line) =~= seq![a, b]);
    lemma_parse_decimal_roundtrip(y);
    lemma_parse_decimal_roundtrip(h);
}


/// A failed `display` yields no cursor information, whatever it printed; a
/// successful one yields the two numbers it printed as its only two words.
pub proof fn law_cursor_info_only_from_successful_display(success: bool, stdout: Seq<char>)
    ensures
        !success ==> cursor_info_spec(success, stdout) is None,
        cursor_info_spec(success, stdout) matches Some(yh) ==> ({
            let words = split_whitespace_spec(trim_spec(stdout));
            &&& success
            &&& words.len() == 2
            &&& parse_usize_spec(words[0]) == Some(yh.0)
            &&& parse_usize_spec(words[1]) == Some(yh.1)
        }),
{
}

/// The pane's command is the whole of what a successful `display` printed,
/// cut at both ends only of whitespace: the result is `stdout[i..j]` where
/// everything before `i` and from `j` on is whitespace and the result neither
/// starts nor ends with it. There is none when the command failed or printed
/// only whitespace.
pub proof fn law_pane_command_is_the_trimmed_output(success: bool, stdout: Seq<char>) -> (ij: (
    int,
    int,
))
    ensures
        0 <= ij.0 <= ij.1 <= stdout.len(),
        trim_spec(stdout) == stdout.subrange(ij.0, ij.1),
        forall|k: int| 0 <= k < ij.0 ==> is_white_space(#[trigger] stdout[k]),
        forall|k: int| ij.1 <= k < stdout.len() ==> is_white_space(#[trigger] stdout[k]),
        success && ij.0 < ij.1 ==> pane_command_spec(success, stdout) == Some(
            stdout.subrange(ij.0, ij.1),
        ) && !is_white_space(stdout[ij.0]) && !is_white_space(stdout[ij.1 - 1]),
        !success || ij.0 == ij.1 ==> pane_command_spec(success, stdout) is None,
{
    let ij = lemma_trim_cuts_only_white_space(stdout);
    if ij.0 < ij.1 {
        assert(trim_spec(stdout)[0] == stdout[ij.0]);
        assert(trim_spec(stdout).last() == stdout[ij.1 - 1]);
    }
    ij
}

} // verus!
