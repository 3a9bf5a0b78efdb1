# agtx tmux client

The library (`src/`) builds the argument lists with which the agent board
runs `tmux` against its own server socket, and reads the output of those
commands: the error message of a failed window creation, the cursor row and
pane height, and the command running in a pane. Every function there carries
a contract that Verus proves, and the laws (trimming, word splitting,
decimal round trips, every command addressing the agent server) are proof
functions beside the code they speak of.

`app/` holds the `TmuxOperations` trait and its implementation for
`RealTmuxOps`, which run the commands with `std::process` and hand the
library the exit status and the output as text.
