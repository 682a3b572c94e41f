# friends_watcher

The core of a desktop app that tracks one Instagram account's followers and
reports who followed and who unfollowed between two syncs. The library in
`src/` is written in Verus: every function carries a contract that Verus
proves.

- `error`: the error type and its machine-readable kind and message.
- `models`: the records exchanged with the user interface.
- `avatars`: which user ids and avatar URLs are accepted, the size cap on an
  avatar download, and the cached thumbnail.
- `cookies`: picking the session cookies out of the webview's jar, and the
  cookie map the API client is seeded with.
- `json`: JSON documents as the library reads them.
- `instagram`: session set-up, request paths, the judgement of responses
  (session expiry, rate limiting with 5 s / 15 s / 45 s back-off), reading
  profiles and user lists, and paging with a 20,000-user cap.
- `db`: the diff between two snapshots, the merged relationship list of one
  snapshot, and stored timestamps.
- `commands`: what the commands decide apart from the calls they make.
- `laws`: properties across operations, proved.
- `text`: character-level helpers.

`app/` holds the Tauri shell: commands, the SQLite store, the HTTP client and
the webview cookie jar. `tests/` exercises the library on concrete values.
