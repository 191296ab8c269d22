# zstore

The core of Z-Store, an application store built on the releases that open-source
projects publish on GitHub, Codeberg, Forgejo and Gitea, written in Verus. Every function under `src/` carries a contract; the library's
own functions are proved against theirs. The calls into outside code (`regex`,
`sha2`, `hex`, `urlencoding` and a few `std` functions) are made by small
wrappers marked `#[verifier::external_body]`, whose contracts are trusted and
say what the outside source does.

## Layout

- `src/` — the verified library.
  - `version`, `watch`: version comparison, the update policy (skipped, frozen and
    hidden applications) and the notifications for watched applications.
  - `catalog`, `ranking`, `online`, `developer`: the curated catalog, search and
    its ordering, GitHub search results, developer pages and starred lists.
  - `forge`, `remote`, `hosts`: repository coordinates on each platform, the
    requests sent to them, tokens and rate limits.
  - `detail`, `app_detail`, `markdown`, `icons`: assembling an application's
    detail page, README images and icons.
  - `installer`, `install`, `paths`, `digest`: choosing a release asset,
    integrity verdicts, installer outcomes and install locations.
  - `settings`, `config`, `sync`, `detected`, `deeplink`: user settings, project
    configuration, catalog synchronisation and cache freshness, detected
    applications and the `zstore://` scheme.
  - `text`, `urlcodec`, `models`: shared string helpers and records.
- `tests/` — tests run against the compiled library.
- `app/` — the command-line program around the library: the database, the
  network, the file system, the installers and the system registry.
