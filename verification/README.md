# nec

A terminal e-mail client whose decisions live in a library verified with Verus.

- `src/` — the verified library:
  - `cfg.rs`: accounts filed by name, the steps to an account's password,
    configuration error messages and the configuration file's location;
  - `structs.rs`: message bodies, message headers and mailbox lists
    (parsing through `mailparse`, behind two trusted wrappers);
  - `ui/`: list and message views, keys, and the stack of views that
    decides what the program fetches, draws or ends with;
  - `text.rs`: string helpers with exact specifications;
  - `opt.rs`: the command-line options.
- `app/` — the program: command line, configuration file, password
  command, IMAP session and terminal drawing.
- `tests/` — tests of the library on concrete values.
