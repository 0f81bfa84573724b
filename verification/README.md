# StateKnot core

Contracts of durable agent runs, written and verified in Verus: bounded JSON
values and their canonical form, stable identities, integrity-bound journals,
fenced leases, canonical execution graphs, their composition and their
barriers, delegation policies, content, messages, failures and extensions.

- `src/` is the library. What a function returns or changes stands in its
  `ensures` or, for an operator or a conversion, in the specification of the
  trait that it implements. The `Debug` impls that are not derived hand the
  text that `debug_text` returns to a formatter, of which nothing is stated. The
  modules whose names end in `_laws` state what holds across functions.
- `tests/` runs the library.
- `app/` holds what serde, schemars and panic handling need around it.

What is taken on trust stands in a few small functions: SHA-256 (`digest`), RFC
8785 canonical JSON (`canonical`), UUIDs (`ids`), URIs (`uri`), language tags
(`language`), the reading of JSON numbers (`json_value`) and the formatter
(`debug`). Each says above it what it claims of the crate it calls.
