# weather_api_rust

A web service that reports the weather from openweathermap.org, records what
it fetched in PostgreSQL, and serves the history as JSON and plot data.

`src/` is the verified core, written with Verus:
- how a search text or the request options name a location, and the settings
  of the api client a request uses;
- the configuration defaults;
- the SQL the service sends and the binding of its named parameters;
- the error replies and the plot descriptions;
- the bookkeeping of the longest page bodies;
- the decisions of the front end: the search history, the location cache,
  the selector options, which weather to fetch and which received entry to
  take, and the text box of the current conditions (module `front` and
  `common`, `choices`, `layout`);
- the per-object decisions of the backup synchronisation (`s3_sync`).

Each public function states its result in its `ensures`; the `lemma_*` proof
functions state properties that span calls (parsing undoes formatting, a
search history keeps each entry once, the recorded page length is a maximum,
request options win over the configured defaults, and others).

The longest page bodies are kept in `StringLengthMap`, a vector of
(page, length) entries in which no page occurs twice, rather than a
`HashMap<String, usize>`: over a map keyed by `String` Verus proves nothing
of what `insert` or `get` do, while the vector's contents are proved entry by
entry. `LocationCache` is built the same way. Sets of strings are kept as
sorted vectors without repeats for the same reason.

`app/` is the program around it: configuration from the environment, the
HTTP server (axum), the database access (tokio-postgres) and the command line.

Not here: the rendered front end and its browser plumbing, the S3 transfers
of the backup synchronisation (its decisions in `src/s3_sync.rs` have no
caller in `app/`), the parquet history and its analysis, the login check of
the history endpoints, and the OpenAPI description.

`tests/` exercises the library on concrete values.
