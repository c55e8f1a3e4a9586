# rustywiki

A small file-backed wiki server. The library (`src/`) holds its logic,
verified with Verus; `app/` is the Rocket server around it.

- `wikifile`: the revision file format (header, demarcation line, data),
  page-name cleaning, revision numbering.
- `authstruct`: the user list, login checks, user changes.
- `basic`: Basic `Authorization` headers.
- `user`, `logs`: authorization levels, users, and the request-guard decisions.
- `jsuser`, `pagemap`: page locks and the lock, unlock and save requests.
- `jsadmin`: administrator requests, request delays.
- `media`: the media index text.
- `site`: which files and pages the site serves.
- `text`: splitting, joining, replacing and number formatting on strings.

The laws that the library keeps are the public proof functions named
`law_*` in these modules.
