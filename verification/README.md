# pezzottify

The verified core of the pezzottify music server, written in Verus.

`src/` is the library; Verus proves each of its functions against its contract, except
the few marked wrappers around calls into outside crates and std, whose contracts are
taken as stated:

- search: edit distance (`levenshtein`), the typo-tolerant vocabulary (`vocabulary`,
  `match_order`), index text normalization and query expansion (`search_text`), the FTS5
  match expressions of each lexical channel (`lexical`), expanded search over corrected
  variants (`expansion`), the index life cycle (`index_state`), the full index build, its
  resume point and its activation checks (`index_build`), the organic index growth
  and its worker (`indexer`), search-hit resolution and summaries (`resolve`, `catalog`),
  and the sections of a streaming search answer (`streaming`);
- HTTP policy: request-log redaction (`request_logging`), rate-limit keys and answers
  (`rate_limit`), cache policy (`http_cache`), API error answers (`api_error`);
- routes: permissions and sessions (`access`), ingestion jobs and uploads (`ingestion`),
  listening-event checks (`listening`), the password and OIDC login flows (`login`,
  `oidc_login`), and the smaller handler checks (`handlers`);
- metrics: the Prometheus families and what each route records (`metrics`, over the
  client calls in `prom`).

`app/` holds what stays outside verification: the JSON shapes of the library's types,
JSON conversion, file-system sizes, and the floating-point parts of search (the rank
fusion of candidates and the score-gap target strategy), and the drivers that run the
library's login and upload decisions against the server's services. `tests/` exercises the
library from outside.
