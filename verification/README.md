# rustybox, verified

A handful of file utilities (`pwd`, `echo`, `cat`, `ls`, `mkdir`, `mv`, `ln`,
`rmdir`, `rm`, `touch`, `cp`, `chmod`). The reading of the command line,
the mode arithmetic and the paths and per-entry operations of recursive
copies are proved with Verus. The program around them makes the
file-system calls in the order given, walks directories, prints, and stops
at the first failed call.

- `src/text.rs`: character search and counting, splitting a mode string such
  as `u+rw` into its parts, the permission-letter table.
- `src/mode.rs`: the mode a `chmod` mode string gives a file (symbolic or
  octal), with the laws it keeps.
- `src/path.rs`: the paths and per-entry operations of recursive copies.
- `src/commands.rs`: each command's reading of its arguments, as a plan of
  file-system operations.
- `app/main.rs`: reads the arguments, carries out the plans, prints.
- `tests/`: tests on concrete values.
