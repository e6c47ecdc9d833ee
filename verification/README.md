# cmux-mux

The verified core of a terminal multiplexer: workspaces hold screens, a screen
is a binary split tree of panes, and a pane holds tabs. A tab is a terminal or
a browser page.

- `src/` is the library. Everything in it is checked by Verus: the session and
  its operations (`model`, `ops`, `node`, `mux`), what keeps it consistent
  (`consistency`) and what holds of it as a whole (`laws`), browser
  connections (`browser`, `routes`), the control socket's commands and replies
  (`protocol`, `server`, `json`), sessions in this process and over the socket
  (`session`, `tree`), and the terminal frontend's state (`app*`, `ui`,
  `input`, `resize`, `scrollbar`, `turn`).
- `app/` is ordinary Rust around it: sockets, threads, the host terminal, JSON
  text, and floating point.
- `tests/` runs the library on concrete values.

Operations on the session do no input or output. They change the session and
leave a list of effects, which the caller performs in order. A request for a
tab hands back what to start and where it goes; once it runs, it is attached.

The library calls `base64`, and formats quoted text with the standard library,
through the functions in `encoding`. Their contracts are taken on trust and
say what is claimed of each call.
