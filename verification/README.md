# rocm_backend

The core of a tensor backend for ROCm devices, written in Verus: executable Rust
whose contracts are proved.

- `src/` is the library. It never calls HIP itself. Work on a device is an
  `Operation`, a state machine that names the next call (`request`) and goes on
  from the answer (`advance`); the search for a shared library is one of the
  same kind. Which calls are made, in which order, with which arguments, and what
  is made of every answer is stated in contracts. `src/runs.rs` and
  `src/product.rs` state what follows for whole runs and for matrix products.
- `app/` makes the calls: it loads the libraries with `libloading`, drives the
  operations, releases device memory with its last owner, and exports
  `inferrs_backend_probe`.
- `tests/` drives the library against a machine that lives in host memory.

Two things are taken on trust from `std` (how a path is written with `Debug`,
and how platforms other than Linux join paths), and one from `half` (the bits of
the zero of `bf16`).
