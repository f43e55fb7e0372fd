# animedb

A metadata catalog for local media servers: anime, manga, TV shows and
movies gathered from AniList, Jikan (MyAnimeList), Kitsu, TVmaze and the
IMDb datasets, normalized into one record per title and merged field by
field.

## Layout

- `src/` — the library, verified with Verus: the data model, text and
  lookup normalization, the full-text query syntax, the field-level merge
  engine with its provenance, the episode merge, each provider's mapping
  from decoded responses onto the canonical model, the decoding of the
  IMDb dumps with their TSV grammar and the scans over their rows, the
  decoding of stored rows, the sync run as a state machine, and the
  decisions of the storage and GraphQL layers.
- `tests/` — tests of the library.
- `app/` — the GraphQL service around the library: HTTP requests to the
  providers and response decoding, downloading the IMDb dumps, the SQLite
  catalog, the remote-only facades, and the Axum/async-graphql server.

Ratings are kept in basis points of the 0–1 scale and merge scores in units
of 1/1,200,000, so the library needs no floating point; the service
converts at its edges.
