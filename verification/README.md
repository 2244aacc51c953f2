# pulser

Streaming JSON writers: every value is produced one byte at a time by a
`ByteIterator`, whose specification names the bytes it has still to produce.

- `src/` — the library, verified with Verus. `stream.rs` holds the traits;
  `wrap.rs`, `delimited.rs`, `sequence.rs`, `iterator_iterator.rs` and
  `list.rs` the combinators; `array.rs`, `object.rs`, `string.rs` and
  `digits.rs` the JSON values; `read_adapter.rs` and `serde_adapter.rs` copy
  streams into buffers.
- `tests/` — tests on concrete values.
- `app/` — a small program, `std::io::Read` for the adapters, and the parts
  that need floating point (`ryu`) or `serde`.
