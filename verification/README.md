# Basango crawler

A crawler for Congolese news sites: it reads HTML listings and WordPress REST
APIs, normalizes articles, keeps them in a SQLite outbox and delivers them to
the Basango ingestion API, either directly (`crawl`, `deliver`) or through
Redis-backed queues processed by a long-lived worker (`schedule`, `worker`).

## Layout

- `src/` is the verified library (Verus). It holds the crawler's rules:
  - `domain`, `articles`: identifiers, ranges, article normalization, the
    delivery vocabulary and the decisions around one delivery;
  - `outbox`: the delivery state of an outbox row and of a run's delivery
    intents, with the laws of saving, claiming and finishing a delivery;
  - `config`, `config_schema`, `config_check`, `config_env`: the typed
    configuration, its schema and semantic checks, environment overrides,
    source lookup and category canonicalization;
  - `markup`, `sources`, `wordpress`: reading listings, links, dates,
    articles, pagination and metadata out of fetched pages. Pages whose
    element tree nests deeper than 256 levels, or that hold a list item
    outside any list, are refused before Markdown conversion, and selectors holding more than 32 opening parentheses are
    refused before parsing, since both converters recurse once per level;
  - `progress`, `run_store`: the accounting of a queued run (what every event
    adds, when a run ends, that it ends once) and its Redis hash form;
  - `queue`, `worker`, `execution`, `http`, `cli`, `status`: queue naming and
    job identities, job decisions, crawl and delivery tallies, retry policy,
    command-line values and the status report;
  - `bindings`: the calls into `md5`, `chrono`, `url`, `httpdate`, `scraper`,
    `html2md`, `regex`, `rand` and `ego-tree`, with the contracts the library relies on.
- `tests/` exercises the library on concrete values.
- `app/` is the `crawler` executable: argument parsing, HTTP (Reqwest),
  SQLite (rusqlite), Redis and BullMQ, and telemetry signals. It hands plain
  values to the library and acts on what the library decides.
