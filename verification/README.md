# msgpack_numpy

Verified decoding and encoding of NumPy scalars and n-dimensional arrays in
the msgpack-numpy map layout (`nd`, `type`, `kind`, `shape`, `data`), so that
values can be exchanged with Python's msgpack-numpy.

- `src/` is the verified library (Verus):
  - `dtype` — the twelve supported element types and their type strings;
  - `le` — little-endian encoding of elements and of whole buffers;
  - `array` — dense arrays in logical order and the shape rules;
  - `casts` — zero-copy reinterpretation of byte buffers through `bytemuck`;
  - `error` — map keys and the decoding and encoding errors;
  - `scalar`, `ndarray_codec`, `cow_codec` — decoding and encoding of scalars,
    owned arrays and arrays that borrow from the input, with the round-trip
    laws as proof functions.
- `app/` is the serde face: the same types held in `half` and `ndarray`
  values, with `Serialize` and `Deserialize` that walk the map and leave
  every decision to the library.
- `tests/` exercises the library on concrete values.
