# tagger

A web application for tagging the tracks liked on Spotify: it syncs the liked
tracks into a SQLite database, lists them fifty to a page with their tags,
filters them by tag or searches them by title, and queues selected tracks for
playback.

`src/` is the verified library (Verus):

- `text` — characters of a string, trimming, prefixes, decimal numbers;
- `tags` — tag names (trimmed, lower case, non-empty) and the stored tag
  lists (names with backslashes and commas escaped, joined by commas), with
  the law that any list of tags reads back as written;
- `listing` — the queries for the tracks (pages that neither overlap nor
  skip; the listing asks for fifty and one more to tell whether a next page
  exists) and the data of the listing page;
- `selection` — the set of selected tracks, its toggle laws, and the plan for
  the playback queue;
- `sync` — the incremental sync of liked tracks as a state machine, with the
  laws that it stores exactly the tracks liked before the first one synced
  already, none synced already, fewer when more are known, and all of them on
  a first sync without errors;
- `playback` — what the "now playing" fragment shows;
- `web`, `store`, `spotify` — redirects, the database URL, the sign-in URL.

`app/` is the server (axum, sqlx, rspotify): it runs the queries and the
Spotify calls and hands plain values to the library.
