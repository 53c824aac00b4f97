# binjs

Verified building blocks of a BinJS encoder: the conversion of JavaScript
statements and binding patterns into labelled serialization trees, and the
grammar-driven encoding of JSON values into token trees.

Layout of `src/`:

- `kind.rs` — the labels (`Kind`, `Statement`, `Variable`, `BindingPattern`).
- `tree.rs` — the serialization tree (`Unlabelled`, `Labelled`,
  `SerializeTree`), its mathematical view, and the structure that each kind
  announces for the tree under it.
- `js.rs` — the part of an ECMAScript syntax tree that the serializer reads,
  and its view.
- `serialize.rs` — `to_labelled` for statements and patterns, and which
  inputs convert.
- `json.rs` — JSON values as the encoder reads them.
- `grammar.rs` — interfaces, enumerations, fields and their types.
- `token.rs` — the `TokenWriter` interface, as a deterministic state machine.
- `tree_writer.rs` — a token writer that builds token trees in memory, with an
  optional limit on the number of tokens.
- `encode.rs` — the `Encoder` and its specification.

`app/` converts `easter` syntax trees and `serde_json` values into the
library's types.
