# audiobooker

An audiobook download manager for Audiobookshelf: users pick books on
AudiobookBay (or paste a magnet link), match them to Audible metadata, and
the server has qBittorrent download them and copies the finished files into
`Author/Series/Title` folders of an Audiobookshelf library.

## Layout

- `src/` — the library, verified with Verus. It holds the rules of the
  server: the download life cycle (`workflow`), pack mapping and imports,
  request limits (`limits`), accounts and API keys (`accounts`), settings,
  libraries and the Audiobookshelf user sync (`abs_sync`, `libraries`),
  magnet links and info hashes (`magnet`), AudiobookBay pages, feeds and
  URLs (`abb`, `abb_parse`, `cache`), Audible metadata (`metadata`), where a
  torrent's files are on disk and where a book goes (`files`, `paths`,
  `content`), push notices (`push`) and qBittorrent's answers
  (`qbittorrent`). Calls into outside crates (regex, scraper, argon2, sha2,
  urlencoding, url, uuid, p256, base64, serde_json) go through small
  trusted wrappers whose contracts say what those crates do.
- `app/` — the server around the library: configuration from the
  environment, SQLite, the HTTP routes, the qBittorrent, AudiobookBay,
  Audnexus and Audiobookshelf clients, file copies, web push delivery and
  the background worker. Each endpoint reads what the library's rules need,
  asks them, and writes what they decide.
- `tests/` — tests of the library on concrete values.
