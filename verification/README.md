# tradex

The verified core of a desktop trading workspace, written in Verus.

`src/` is the library. Every function in it carries a contract that Verus
proves, except the few small wrappers around outside crates and std
(`uuid` parsing and generation, `time` parsing and formatting, SHA-256,
hex encoding, lowercasing, `String::push`): their contracts state what
those crates document and are assumed, not proved. The modules:

- `protocol`, `catalog`: the shared record types and the error catalogue
  (code, category, message, remediation of every error).
- `decimal`, `amount`, `text`, `json`, `ids`: exact decimal text
  arithmetic and comparison, text helpers, JSON values as plain data,
  UUID and RFC 3339 handling.
- `risk`, `evaluation`: risk policy validation and normalisation, the
  persisted-policy upgrade, and the pre-trade risk decision with each of
  its checks.
- `research`, `capability`, `screener`: research tool results, and the
  natural-language screener (parsing, revision, fixture runs and ranking).
- `providers`, `provider_io`: broker catalogue and connections, allowed
  routes, payload parsing (accounts, orders, fills, stream updates),
  order requests and acknowledgements, order-book merges, rate limits.
- `jobs`: the decisions of the broker jobs, one step per broker reply
  (order submission and reconciliation, order-book refresh, review and
  cancel, account reads, paging).
- `connection`: the connection test and disconnection of an account as
  a sequence of steps: each takes what the caller saw and names the next
  action (capture, vault access, a read, or the outcome).

`app/` holds what Verus does not check: the HTTP client, the credential
store, JSON conversion with `serde_json`, the persisted policy loader and
the job runner that performs each request or action and hands the reply
to `jobs` or `connection`.

What the application does not do:

- The demo broker (Trading 212) has no account or order-record reader
  here: a connection test of a Trading 212 Demo or Live account ends with
  `PROVIDER_UNSUPPORTED` once the stored credential is read; demo order
  submissions answer `PROVIDER_UNSUPPORTED`; demo order-book jobs check
  the book's binding, the credential and the read plan, then degrade the
  book as `PROVIDER_UNSUPPORTED`.
- There is no instrument catalogue mapping instruments to broker symbols,
  so a paper-broker order has no broker symbol and its submission ends
  with `ORDER_INSTRUMENT_PROVIDER_UNSUPPORTED`; order-book rows carry no
  instrument identifier.
- Research runs do not validate attached contexts against a context
  catalogue.

`tests/` runs the library on concrete values.
