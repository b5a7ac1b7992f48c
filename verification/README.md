# fred_wrapper

A client for the FRED and ALFRED economic data APIs of the Federal Reserve
Bank of St. Louis, with its request logic verified by Verus.

- `src/` is the verified library: API key checking, typed request
  parameters, the query of every endpoint, request URLs, the split of a
  wide real-time window into calendar-year blocks, the handling of FRED's
  answers and the decisions of the request queue.
- `app/` sends the requests over HTTP (`reqwest`), decodes FRED's JSON
  (`serde`), and runs the request queue on `tokio`.
- `tests/` exercises the library on concrete values.
