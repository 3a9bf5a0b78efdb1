//! Argument lists and output interpretation for the tmux server that hosts
//! agent sessions. Running the commands is left to the caller.

pub mod commands;
pub mod number;
pub mod output;
pub mod text;

pub use commands::{RealTmuxOps, AGENT_SERVER};
pub use number::{decimal, parse_usize, signed_decimal};
pub use text::{is_white_space_char, split_whitespace, trim};
