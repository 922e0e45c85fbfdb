# wmish

A command line tool for WMI (Windows Management Instrumentation) with an
interactive shell, a script mode and a single-query mode.

- `src/` is the verified library (Verus): the inline-command grammar
  (`parser`), keyword completion (`completion`), the shell's session state and
  line handling (`shell`), query output in CSV, table and JSON form (`output`),
  and the rendering of WMI property values (`wmi`), with shared string helpers
  in `text`.
- `app/` is the program around it: command line arguments, COM and the WMI
  connection, the line editor, and printing.
- `tests/` exercise the library.

The program only runs on Windows; the `windows` crate is empty on other targets.
