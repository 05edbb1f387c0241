# serde_kdl

Serialization of serde-shaped data into [KDL](https://kdl.dev) documents,
built on the `kdl` crate, with its layout rules proved in Verus.

- `src/` is the verified library: the value tree (`value`), the serializer
  steps that build it (`serializer`), the layout of the tree as KDL nodes
  (`ser`), the hand escaping of strings (`escape`), number rendering
  (`text`), boolean shorthand (`bool_defaults`), the error type (`error`),
  the model of the `kdl` types and the trusted calls into `kdl`
  (`kdl_bridge`), and the laws proved of the layout (`laws`).
- `app/` connects the library to serde: a `serde::Serializer` that builds
  the value tree, the generic `to_string`/`to_string_pretty`/`to_doc`, the
  error type with its serde traits, and the `bare_true`/`bare_false`
  deserialization helpers.
- `tests/` exercises the library on concrete values.
