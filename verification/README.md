# limiteron

A rate limiting and flow control toolkit whose logic is verified with Verus.

- `src/` is the verified library: limiter algorithms (token bucket, leaky
  bucket), the circuit breaker, decision chains, configuration types and
  their validation, version comparison, the configuration watcher's state machine, the command
  line tool's argument parsing and answers, request matchers, device
  recognition, error abstraction, code review aggregation and reports, and the
  SQL the database back end sends. Calls into `regex`, `woothee`, `dashmap`,
  `ahash`, `ipnet` and `chrono` sit behind small trusted wrappers whose
  contracts say what those crates document.
- `app/` holds what touches the outside world: reading rule files and the
  environment, serde copies of the configuration types, configuration hashes,
  the command line entry point, polling a watched file, database settings
  that keep the URL secret, floating-point ratios, and the code review
  report written as JSON.
- `tests/` exercises the library on concrete values.
