# bootmux

Runs one tmuxinator-style YAML project in tmux, Herdr or zellij.

## Layout

- `src/` is the library, verified with Verus: the project format and its
  templates, the layout trees and their rendering for each backend, the tmux
  script, the zellij KDL layout, the Herdr command lines, state index and
  lifecycle decisions, the settings file, and the command-line bindings.
  Each public function states what it returns in its `ensures`; where a
  message carries the text of a std or serde_json error, that text is left
  open and the rest of the message is stated. The laws that relate several
  functions are public proof functions.
- Calls into outside crates (MiniJinja, shell-words, serde_json errors) and a
  few parts of std stand behind small trusted functions whose contracts say
  what the outside code returns; their doc comments say what is assumed.
- `app/` is the program around the library: argument handling, files,
  processes, sockets, the YAML and JSON parsers that fill the library's types,
  and the loops that carry out the library's decisions.
- `tests/` runs the library with the real outside crates.
