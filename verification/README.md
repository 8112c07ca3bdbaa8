# roqtune

The rules of a music player, verified with Verus: its settings and their files, its panel
layouts, its music library and the facts it looks up for it, its music servers, and playback on
cast devices.

## Layout

- `src/` is the library. Every function states what it returns, and Verus proves it.
  - `config`, `config_persistence`: the settings, and how they are written into a file that keeps
    its comments. `document` is what the library knows of TOML documents.
  - `layout`: trees of panels, the editing of them, their geometry and their stored form.
    `single` is the single-precision arithmetic that the geometry needs.
  - `library`: scanning, the catalog, pages, selections, favorites, and the lookup of artists and
    albums with its queue, its scoring and its cache.
  - `integration`: profiles of music servers, addresses of their tracks, and passwords.
  - `cast`: discovery, the message frames, the session, the stream server and WAV headers.
  - `database`: the stored forms of what the database keeps.
  - `text`, `json`, `percent`, `protocol`: what the others share.
- `app/` is the ordinary Rust around it: files, sockets, the database, the key ring, threads.
- `tests/` runs the library on concrete values.

## What is trusted

A few functions call other crates, and Verus believes what they state: the wrappers of
`toml_edit` in `document`, of `serde_json` in `json`, of `urlencoding` in `percent`, and three of
the standard library (`String::push`, `String::from_utf8`, `str::to_lowercase`). Each says above
its header what is claimed.

## Laws

Beside the contracts, public proof functions state what holds across calls, such as
`stored_layouts_come_back`, `deleting_undoes_splitting`, `written_settings_read_back`,
`migrating_twice_changes_nothing`, `parsing_inverts_encoding`, `messages_come_back` or
`no_path_is_shown_twice`.
