# icy_draw settings and RIPscrip commands

The verified library (`src/`) holds the parts of the icy_draw editor that
compute:

- `rip_command`, `rip_parser`, `rip_text`, `meganum`: RIPscrip commands, how
  one is written and read back, and the reader that takes them out of a byte
  stream. The proof shows that reading what a well-formed command writes gives
  that command back; `rip_tested_texts` shows that each command text the
  editor is tested with writes a well-formed command.
- `settings`, `char_sets`: the editor's settings and the character sets that
  the function keys type.
- `recent_files`: the list of recently used files.
- `config`, `error`, `cli`: paths in the configuration directory, errors, and
  the command line.

`app/` is the program around it: the command line (clap), reading and
writing the settings files as JSON (serde), creating directories, and the
scale of the user interface.
