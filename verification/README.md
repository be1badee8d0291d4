# tusk

The verified core of Tusk, a local PHP development environment for macOS
(PHP versions, MariaDB, Nginx or Apache, phpMyAdmin, `.test` sites), written
in Verus.

- `src/text.rs` — trimming, line splitting and tokenizing with Unicode
  whitespace, code point order, decimal text; the specifications they meet.
- `src/engine/mod.rs` — paths under `~/.chowk`, the persisted settings, what
  Homebrew reports (prefix, versions, started services), process results,
  the AppleScript wrapping of privileged commands, pid files.
- `src/engine/php.rs` — PHP versions and their paths, switching, relinking,
  the extension list (parsing `php -m`, parked ini files, stable sort),
  enabling and disabling extensions, cleaning `php.ini`.
- `src/engine/services.rs` — php-fpm, Nginx and Apache configurations, plans
  for starting and stopping the web server and all services, the dashboard's
  service rows, and the state machine that resets MariaDB's root password.
- `src/engine/sites.rs` — site names, adding and removing sites, virtual
  hosts for both web servers, reloading.
- `src/commands.rs` — what the desktop commands decide and say, including
  the ordered steps of the one-click first run.
- `app/` — the Tauri desktop shell: environment, files, processes and
  serialization around the library.
- `tests/` — the library on concrete values, checked against std's own
  string functions and the exact configuration texts.
