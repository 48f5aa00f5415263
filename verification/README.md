# cyphr

A Cypher-first mapping layer for Neo4j: typed conversion between bolt values
and Rust values, row and node mapping, query building with named parameters,
and the decisions behind the `CyphrNode`, `CyphrRelation`, `FromCyphr` and
`ToCyphrParams` derives and the `cypher!` / `cypher_query!` macros.

The library in `src/` is written in Verus and verified:

- `bolt` — bolt values and their mathematical models; `StringMap`, a
  string-keyed map whose keys never repeat.
- `value` — `FromCyphrValue` / `IntoCyphrValue` for scalars, lists, maps,
  tuples, points, bytes, paths and dates, each stated against the model.
- `error` — `CyphrError`, its constructors and its rendered message.
- `record`, `props`, `mapping` — column and property reads, and the field
  reads that the derives generate, with their error contexts.
- `query`, `stream` — parameter binding and what each fetch does with the
  rows it receives.
- `macros` — attribute reading, the expansion plan of each derive, Cypher
  text normalization and `$parameter` discovery.
- `text` — the string operations the macros use, proved against
  `str::replace` / `str::trim` semantics.

`app/` holds what stays outside the verifier: conversion to and from the
driver's types, query execution and streaming against a graph or a
transaction, the error type with `Display`, and float and temporal
conversions that go through `f64` or the driver.
