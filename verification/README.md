# fish_status

The `status` builtin of the shell, verified with Verus.

- `src/` is the library: reading the command line (`wgetopt`, `wcstoi`, `cmdline`), the
  subcommands and their names (`status_cmd`, `opts`), the answers (`status`, `features`,
  `wutil`, `parser`), and what they write (`streams`, `shared`, `printf`,
  `messages`, `text`). `laws` states what holds of the builtin as a whole, `english` how it reads
  in English. `sys` holds the calls into `nix` whose contracts are trusted.
- `app/` runs the builtin inside a shell: it looks the texts up in the language of the user,
  collects the state of the shell, asks the file system, and prints.
- `tests/` runs the library.
