# clow

Typed device pointers, fat-pointer views and raw device buffers for CUDA, on
top of the `cudarc` driver bindings, with the logic proved in Verus.

- `src/` is the verified library: pointer arithmetic (`pointer.rs`), buffers and
  what dropping one frees (`buffer.rs`), the error stack (`context.rs`,
  `error_stack.rs`), the addresses, byte counts and routes handed to the driver
  by the stream operations (`stream.rs`), and the trusted calls into `cudarc`
  (`driver.rs`).
- `app/` performs the driver calls: owning buffers that free on drop, the
  `ClowStream` operations, events, kernel-argument forms of the pointer types,
  and an error sink shared between threads behind a lock. The library's traits
  are not implemented for `cudarc`'s own slices (Rust's orphan rule keeps such
  impls out of `app/`, and taking their pointer may panic); `app/cudarc_views.rs`
  converts those slices into views instead.
- `tests/` exercise the library without a GPU.
