# rs_script

The logic of a script runner and of its terminal editor, verified with Verus.

- `src/proc_flags.rs`: processing flags, a set of bits with eleven named flags.
- `src/flags_text.rs`: the text form of the flags (names separated by `|`,
  unnamed bits in hexadecimal), its reader, and the proof that reading the
  text form of any value gives that value back.
- `src/cmd_args.rs`: command-line options and the flags derived from them.
- `src/builder.rs`: the decisions of a run: its mode, where the script lives,
  how the source is prepared, which build steps run and when a failing step
  ends the run (with the proof that the first failure stops it), and the
  cargo command.
- `src/editor.rs`: the editor as a state machine from a state and an event
  to the next state and a command, with laws over its model.
- `src/layout.rs`: placing the pop-up of key bindings, through `ratatui`.
- `src/text.rs`: lines, joining, decimal numbers, prefixes and suffixes, and
  the proof that saved lines read back unchanged.
- `app/`: the terminal, files, processes and command-line parsing.
