# campus_autologin

Automatic login for Dr.COM-style campus network portals, with its decision
logic verified by Verus.

- `src/` is the verified library:
  - `config`: the configuration, its defaults, validation, redaction,
    loading decisions, `config set` updates and file locations;
  - `network`: IPv4 CIDRs, local address lists, gateway targets and the
    on/off-campus verdict;
  - `portal`: the password transform, the login form, reading the portal's
    reply pages and probe replies, and login outcomes;
  - `daemon`: the monitor as a state machine (next action, sleeps, retry
    back-off, state announcements);
  - `autostart`: the systemd user service / launch agent paths and files;
  - `tui`: the setup form (text fields, focus, keys, mouse, layout,
    building a configuration from the form);
  - `text`, `url`, `logging`: character-level helpers, URL parsing and log
    line formats.
- `app/` is the command-line program around it: argument parsing, the TOML
  file, HTTP, sockets, the terminal, sleeping and the filesystem.
- `tests/` exercise the library on concrete values.
