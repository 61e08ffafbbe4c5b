# karmaio

The verified core of a share-nothing asynchronous I/O runtime for io_uring,
IOCP and kqueue.

- `src/` decides. Each function takes what the kernel reported as plain values
  and says which state and which actions follow. Functions state in `requires`
  and `ensures` what they do, and Verus proves it. The calls into the standard
  library and other crates are taken on trust: what is claimed of each stands
  above it. Of the two on wakers nothing is claimed.
  - `driver/backends`: the operation lifecycles of the three drivers.
  - `driver/helpers`: cancellation scopes, I/O handles, sockets.
  - `driver/ops`: requests to the kernel and what is made of their completions.
  - `fs`: open options, metadata, directories.
  - `buf`, `error`, `slab`, `task`, `driver/op_table`: what the others share.
- `app/` acts. It makes the system calls, owns the memory that the kernel works
  on, and holds the futures.
- `tests/` runs the library, and compares its constants with those of the
  platform crates.

Laws that span several functions are public proof functions whose names begin
with `law_`.
