# typesafe-api

A client for TypeSafe's System One API, with its logic verified by Verus.

- `src/` is the verified library: typed questions (`question.rs`, with the
  choice criteria kept as a sorted map), the client's configuration
  (`client.rs`), the mapping of error statuses (`error.rs`), the retry
  decisions and exponential backoff (`retry.rs`, `duration.rs`), the reading
  of the `Retry-After` header (`header.rs`), the order of string keys
  (`order.rs`) and the lookup of answers by id (`answer.rs`).
- `app/` sends the requests with `reqwest` on `tokio`, loops on the retry
  decisions, and holds the JSON shapes of questions and answers (answers carry
  floating-point probabilities, which the library does not hold).
- `tests/` exercises the library on concrete values.
