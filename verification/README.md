# polygon

Reading and writing PLY polygon files (`*.ply`), verified with Verus.

- `src/` is the verified library. Its readers take byte slices and give
  back the value read and the number of bytes consumed; its writers append
  to a byte vector. Each is specified over a model of the grammar (spec
  functions on byte sequences), and the laws of the format are proved
  there: what a header, a head, a meta line or a whole object reads back of
  what it writes (`header::roundtrip`, `head::syntax`, `object::roundtrip`),
  that comment and object information lines leave no trace in a header
  (`header::notes`), how the property kinds of a domain are registered and
  found, and how the groups of identifiers relate properties to elements.
  The byte order of the payload is decided by verified functions that take
  the machine's order as an argument (`Object::decode_on`,
  `Object::encode_on`, `Payload::decode_with_on`); only the question which
  order the machine uses is asked of `u16::to_ne_bytes`.
- `app/` is the plain Rust around it: reading from `std::io::Read` and
  writing to `std::io::Write`, the registry of scalar property kinds and the
  identifier counters that a process shares, typed views of property bytes
  through `bytemuck`, and camera views holding `image` buffers.
- `tests/` runs the library on concrete files and values.
