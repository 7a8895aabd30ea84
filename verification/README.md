# ringhopper

A verified library for reading and writing Halo: Combat Evolved tag data, reading data out of cache files, and
building bitmap color plates, written in Verus.

## Layout

- `src/` is the library. Every function but the trusted wrappers around outside calls is verified against its
  `requires`/`ensures` contract.
  - `crc32`, `text`, `error`, `endian`: checksums, string helpers, errors and byte order.
  - `parse`, `tag`: the `TagData` traits and tag files (header, CRC32 check, reading and writing).
  - `primitive`: tag groups, paths and references, IDs and data, ranges, strings, reflexives, vectors and colors.
  - `map`, `resource`, `engine`, `dynamic`: cache file access, resource maps, engine descriptions and matchers.
  - `decompression`, `tag_array`: inflating compressed cache files, and the tags of a cache file's tag array.
  - `data::bitmap`: images, PNG and TIFF decoding and TIFF encoding, and loose color plates.
  - `data::sound`: 16-bit PCM sample byte order.
- `tests/` holds the tests.
- `app/` holds what Verus does not check: file access, the JPEG XL loader, trait-object traversal of tag data, and
  the logger.

The outside crates `byteorder`, `flate2`, `png` and `tiff` are called from `src/` through small trusted wrappers whose
contracts are stated next to them; `jxl-oxide` is called from `app/`.

## Not included

- Generating tag structs from the tag definitions, and the per-group fixes applied to tags when extracting them from
  cache files: both work on the generated tag types, whose definitions are not part of this repository.
- Cache file parsers for the individual engines, which need those types and the engine tables. What they share with
  this library, decompressing a cache file (`decompression`), checking its tag array (`tag_array`) and swapping
  16-bit PCM samples (`data::sound`), is here.
- Floating-point types (vectors, planes, angles, float colors) and their compression, which Verus does not verify.
