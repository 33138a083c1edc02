# workmux

A multiplexer backend that drives [Zellij](https://zellij.dev) tabs and panes, and the
lock that serializes `.git/config` writes across processes, with the decisions verified by
Verus.

- `src/text.rs`: lines, words, trimming, joining, decimal numbers
- `src/shell.rs`: quoting for a POSIX shell, and what the shell reads back
- `src/plan.rs`: commands, plans made of them, and the running of a plan step by step
- `src/multiplexer/zellij.rs`: the backend: what to run for each operation, and what the
  output of Zellij means
- `src/multiplexer/laws.rs`: what holds of the backend as a whole
- `src/git/lock.rs`: where the lock file is and how the lock is taken
- `app/`: runs the commands, reads the environment, takes the lock

The library runs nothing itself. An operation that only runs commands is a `Plan`, carried
out by an `Execution`. A question that may take the output of a command is an `Inquiry`: it
is asked without a reply first and, if it asks for a command, again with the reply.
