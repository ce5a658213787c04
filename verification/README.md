# digest_tool

Calculates checksums for given files or a standard input stream, with MD5,
SHA-1, the SHA-2 family and SHA-3; checks files against checksum files and
against a single expected digest.

The library in `src/` is verified with Verus:

- `alg` — the algorithm table: names, aliases, digest sizes, the default
  algorithms and the guess from a digest's length.
- `hex` — hexadecimal digests: decoding (with the error message for a bad
  digit) and encoding.
- `hashing` — digest computation through the `digest`, `md-5`, `sha1`,
  `sha2` and `sha3` crates, one pass over the data for several algorithms.
- `text` — characters, white space, words and UTF-8 byte offsets of lines.
- `check` — the checksum-file reader: what each line means, the counts and
  the final status.
- `cli` — the decisions on the command line: refused option combinations,
  the expected-digest argument, binary mode, the algorithms of each mode.
- `output` — the lines printed in hash mode and the result line printed for
  each checked file, and the proof that the hash-mode lines are read back by
  the checksum-file reader.

`app/main.rs` holds the command line, the file and console I/O and the loop
over the lines of a checksum file.
