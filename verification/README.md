# sevdesk

A console program for Windows that keeps several desktops and switches the shell between
them: common desktops live under a base directory, specific desktops at directories of their
own, and binds give desktops short names that a hotkey (Left Ctrl + Alt + Left Shift + digit)
can use.

- `src/` is the verified library. It holds the command language (`command_handler::parse_command`),
  the handler that decides what a command does (`CommandHandler::handle` and `resume`, which
  return a `handling::Handling` naming what must be asked of or done to the outside world),
  the text of the data files (`data_manager`), desktop lookups and paths (`logic`), the hotkey
  state (`shortcuts`), and the properties that hold across them (`laws`, `file_laws`).
- `app/` is the program around it: the console, the file system, the registry, processes and
  the keyboard hook, answering the handler's requests.
- `tests/` runs the library on concrete values.
