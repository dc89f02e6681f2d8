# swarmux (verified core)

The pane, task and overview logic of swarmux, a tmux-first control plane for
coding agents, written in Verus: each function states what it returns in its
`requires`/`ensures`, and Verus proves the code against it.

- `src/` — the verified library: configuration resolution, the tmux pane
  list (parsing, labels, sorting, counts, jump targets, pane options), git
  summaries, the pane switcher's state machine and rows, the task overview's
  data, key handling and lines, and styled text.
- `app/` — the front end around it: `config.toml` and the environment, tmux
  and git processes, JSON output, and the ratatui/crossterm interfaces.
- `tests/` — tests of the library on concrete values.
