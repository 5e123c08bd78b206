# createxcrunch

The verified core of a miner for [CreateX](https://github.com/pcaversaccio/createx) salts: it
looks for a salt whose `CREATE2` or `CREATE3` address has many zero bytes or matches a pattern.

- `src/config.rs`: the configuration, and the arguments that it is refused for.
- `src/hex.rs`, `src/checksum.rs`: hexadecimal text, and the checksum in the letter case of
  addresses. Decoding, encoding and checksums come from `alloy-primitives`.
- `src/kernel.rs`, `src/kernel_laws.rs`: the OpenCL source, and what holds of every source. The
  kernel template is handed in by the caller.
- `src/search.rs`: what to do between two runs of the kernel.
- `src/solution.rs`: the salt, the address and the line that reports them.
- `src/bytes.rs`, `src/decimal.rs`: bytes of integers and decimal numerals.
- `app/`: running a search on a device, with `ocl`.
- `tests/`: the library from outside, with the real crates linked.
