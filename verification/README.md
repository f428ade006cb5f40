# ygege

An indexer for the YGG Torrent tracker: it searches the tracker through the
yggapi.eu API, sorts and filters the results, reads the tracker's pages, logs in
(with Scrappey's cloud browser when Cloudflare blocks the direct requests) and
downloads torrent files.

## Layout

- `src/` — the library, verified with Verus. The public functions state their
  results in their contracts; the readers of tracker pages state them over
  named results of the `scraper` calls (what a selection, the texts or an
  attribute of an element give), on the condition that their constant CSS
  selectors compile. The properties that span several functions are proof
  functions (`lemma_*`).
  - `text`, `numbers`, `urls`: characters, decimal numbers, percent-encoding.
  - `search`, `parser`: sort criteria, torrents, the stable sort, result pages.
  - `yggapi`: request URLs, conversion of the API's records, ban words.
  - `rest`: the rules of the HTTP endpoints (search plans, merging of results,
    download steps, status report, benchmark report).
  - `scrappey`, `auth`, `login`: Scrappey requests and answers, saved sessions,
    and the login as a state machine.
  - `categories`, `user`, `utils`: the menu, the account page, the download counter.
  - `config`: the configuration from the environment or from `config.json`.
  - `html`: parsed pages and the `scraper` calls, which are trusted; elements
    are named by their index in the parsed node tree.
- `tests/` — tests of the library on concrete values.
- `app/` — the program: configuration loading, logging, the HTTP client and
  server, the Scrappey client, and the floating-point size conversions.
