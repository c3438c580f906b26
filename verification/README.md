# gh-autoswitch

Runs `gh auth switch` before git's HTTPS remote operations so that the GitHub
account mapped to the remote's host/owner hands out the credential, and offers
a terminal editor for the YAML configuration.

## Layout

- `src/` — the verified library (Verus):
  - `text.rs`: white space, trimming, ASCII case folding, prefixes.
  - `config.rs`: the configuration model, account lookup (literal, then
    regex, then `*`, then the default account) and its laws, config path.
  - `credential.rs`: reading a credential request (host and owner) and the
    switch decision.
  - `yaml.rs`: YAML documents as plain values and the lookups on them.
  - `paths.rs`, `gh.rs`: the environment snapshot, path joining, where `gh`
    and its `hosts.yml` are, reading `hosts.yml`, active/known accounts,
    whether to switch.
  - `install.rs`: git configuration keys and helper command, diagnostics text.
  - `cli.rs`: command and flag parsing.
  - `editor.rs`: the configuration editor as a state machine.
- `app/` — the program: process and file I/O, YAML (serde), the terminal UI.
- `tests/` — tests of the library.
