# yagami

The verified core of a concurrent web link checker: it reads sitemap files
(sitemap indexes and URL sets), extracts and normalizes the links of HTML
pages, decides which links to skip through exclude patterns, and keeps the
crawl's counters, with each step specified and proved with Verus.

- `src/` is the library. `exclude` holds the exclude patterns, `sitemap` the
  sitemap reading and the bookkeeping of nested sitemaps, `parser` link
  extraction and normalization, `models` the crawl counters, `checker` the
  classification of request outcomes, `crawler` the per-link decision.
  `weburl`, `xml` and the wrapper in `parser` state what the library relies on
  from the `url`, `quick-xml` and `scraper` crates; `text` holds string helpers.
- `app/` is the program around it: command line, HTTP requests, concurrent
  crawling, CSV export and the terminal display.
- `tests/` runs the library on concrete inputs.
