# feature_engine

Point-in-time market features, computed from exact decimals and stored with the evidence that they
rest on. Verus proves the contract of every function of the library but for the calls into other
crates (Arrow, BLAKE3, hex, semver, serde_json, time), whose contracts are stated beside them.

- `src/` is the library. `clock`, `window`, `watermark` and `ewma` decide when a window is final;
  `decimal`, `domain`, `event`, `market`, `book` and `receipt` hold the values that features are
  made of; `features` turns them into observations, recipe by recipe; `materialize` stores
  observations as rows and selects what was known at a time.
- `tests/` runs the library on concrete values.
- `app/` holds what the library leaves to its surroundings: measures in floating point, manifests
  in TOML, the registry that answers for observations, and the log and dataset that rows are replayed
  through.

A value that is measured in floating point enters the library as its bit pattern. The library
hands out the exact terms that the measure is taken of, checks that the pattern is finite, and binds
it to its inputs.

The registry of features has the last word on an observation. An emission binds its data to their
definitions and hands out candidates; the registry's verdicts on them decide what is emitted. In the
same way the library takes the answers of the registries of identities, and what a log or a dataset
gave back, as arguments, and says what follows from each.
