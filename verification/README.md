# sandslash

An SEO auditor: it fetches a page (or crawls a site), runs a suite of checks on each
page, scores the pages by category and writes a report; it can also compare two reports
and serve audits over HTTP with server-sent progress events.

## Layout

- `src/` — the library, verified with Verus: the checks and their findings, scoring,
  robots.txt parsing and gating, link discovery and URL normalization, the fetch plan
  (redirects, loops, retries), the crawl's per-page decisions and page budget, the
  frontier's key and entry encoding, report comparison, and the terminal and diff
  renderings. Calls into `url`, `scraper`, `quick-xml`, `encoding_rs`, `comfy-table` and
  `owo-colors` stand behind small trusted items whose contracts say what the library
  relies on.
- `app/` — the `sandslash` command around the library: argument parsing, HTTP (reqwest,
  axum), the Redis frontier, rate limiting, the worker pool, JSON (serde) and the
  floating-point part of the JS-rendering check.
- `tests/` — tests of the library.
