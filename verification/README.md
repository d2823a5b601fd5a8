# uuideal

Makes Python's `uuid` module fast by replacing the vectorcall slots of its
functions, methods and properties with native implementations. This crate
holds those implementations' logic as a library verified with Verus, and the
interpreter glue around it.

## Layout

- `src/` — the verified library:
  - `pylong` — the interpreter's digit layout of integers: reading a 128-bit
    UUID value from it and laying a value out, with the round trip proved.
  - `compare` — ordering UUID values straight from their digit layouts, proved
    to agree with the order of the integers.
  - `text` — the hex, hyphenated and URN forms, and parsing every accepted text
    form (through the `uuid` crate), with each form proved to parse back.
  - `layout` — big-endian and mixed-endian bytes, the six RFC fields and the
    derived time, clock sequence and node, each proved to read back.
  - `version` — variant and version bits, and stamping a version.
  - `generate` — versions 1, 3, 4, 5, 6 and 7 through the `uuid` crate, and
    how the node and clock sequence are chosen.
  - `node_cache` — the cached default node and the trust kept in
    `uuid.getnode`, driven by changes to the module's namespace.
  - `args`, `init` — binding the arguments of `UUID(...)`, `uuid1` and
    `uuid6`, and building a `UUID`'s value from them.
  - `dispatch`, `lifecycle` — call shapes, safety flags, `repr`,
    installing and removing the patches, reseeding after a fork.
- `app/` — the CPython extension module (`uuideal._uuideal`): object layouts,
  reference counts, vectorcall patching, all through `pyo3-ffi`.
- `tests/` — the library's tests.
