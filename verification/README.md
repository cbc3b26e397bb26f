# d2rhub

A multi-account launcher for Diablo II: Resurrected on Windows. Each account
keeps its own copy of the Battle.net client's data and login; a launch puts
one account's copy in place, starts the client or the game, closes the
single-instance handle so that the next account can start, and writes the
client's state back into the account.

## Layout

- `src/` — the library, verified with Verus: the launcher's rules and the
  steps of its launches, each with its contract:
  - `account` — account metadata, ids and their directories, token expiry,
    snapshots and re-initialization steps, game-settings checks;
  - `launch` — the launch queue, the wait for the game process and the
    handling of the Battle.net agent, registry-file checks, token launches;
  - `config` — the global configuration, its defaults, load-time migrations,
    path checks and keyboard-shortcut normalization;
  - `json`, `json_text` — a model of JSON documents, JSON text read and
    written through `serde_json`, and the edits made to the client's
    `Battle.net.config` and to browser preferences;
  - `system` — choices made from the process list, the window list and the
    TCP table, and the reading of the release information;
  - `browser` — which browser profile an account opens and with which
    arguments;
  - `ocr`, `channel_a` — the configuration, result buffers, polling rhythm
    and worker lifecycle of the text recognition, and the red-pixel test of
    the first channel;
  - `crypto`, `text`, `utils`, `clock`, `error` — hexadecimal token text,
    string helpers, folder names, time, and the error type.
- `tests/` — tests of the library.
- `app/` — the program around it: files, the registry, processes, windows,
  the Data Protection API, the waiting and sleeping of launches, and a
  command-line front end. It hands the library plain values and acts on
  what it returns.
