# SSHack

A CTF platform that players reach over SSH: they register with their public
key, browse the flags, submit solutions and follow the leaderboard in a
terminal interface. A small command line manages the flags.

## Layout

- `src/` is the verified library (Verus):
  - `database.rs`: the `users`, `flags` and `cleared` tables and every query
    the platform runs on them (registration, sign-in, solving a flag, points,
    listing, loading and deleting flags);
  - `users.rs`: password accounts;
  - `laws.rs`: properties that span several queries (what a registration
    lets a sign-in find, that a flag is solved at most once per user, how
    points grow);
  - `screens/`: the state of each tab of the interface and its reaction to
    key presses; `app.rs` moves a session between the tabs;
  - `cli.rs`: the flag management commands; `conf.rs`, `theme.rs`: the
    configuration and colour themes;
  - `input.rs`, `keys.rs`: turning terminal bytes into key presses;
    `sftp.rs`: the file download subsystem's bookkeeping;
  - `password.rs`, `text.rs`: bcrypt and the string helpers.
- `app/` is the program around it: the SSH server, the SQLite store, file
  reading and writing, the command line and the drawing of the interface.
- `tests/` exercises the library on concrete values.
