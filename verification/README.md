# disaster_alert

Decisions of a service that warns subscribers of disasters near places of their choice, written
and proved in Verus.

- `src/` holds the decisions: who may ask, what a request may contain, how every request is
  answered, which places a report concerns, what a test alert shows and whom it goes to, how the
  names of a place are found and kept, and what may stand in a log. Every function states what it
  returns, and what holds between functions is proved in the functions whose names begin with
  `law_`.
- `tests/` runs the library on concrete values, with the real `url`, `serde_json` and `axum`.
- `app/` is the service around it: HTTP handlers, requests to other services, JSON, and measures
  in floating point. What stores subscriptions and sends notifications is behind the trait
  `Services`.

Coordinates, magnitudes and distances are never computed with in `src/`. The types are generic in
them, and decisions that depend on a measure take it as an integer.

What is not proved is what outside functions do. Each such function is named in the doc comment of
the declaration that says what it is taken to do: in `src/text.rs`, `src/urls.rs`, `src/json.rs`,
`src/headers.rs` and `src/outbound_log.rs`.
