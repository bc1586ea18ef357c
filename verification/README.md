# adex_validator_stack

Data types and decision logic of an AdEx validator stack, verified with
Verus.

- `src/` — the verified library: hexadecimal identifiers and their text
  (`hex_text`, `ids`), EIP-55 checksums (`checksum`), channels and their ids
  (`channel`), token amounts of any size (`big_num`), sentry events and
  responses (`sentry`, `spender`, `domain`),
  the decisions of the validator worker's sentry client
  (`sentry_interface`), the sentry's campaign middleware and channel routes
  (`campaign`, `channel_routes`), and local-node fixtures (`test_util`,
  `adapter`).
- `app/` — the I/O around it: HTTP requests and handlers, database rows,
  serialization, and contract calls to a local Ethereum node.
- `tests/` — tests of the library on concrete values.
