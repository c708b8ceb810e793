# wfprust

The decision logic of a Windows Filtering Platform driver that inspects outbound IPv4
traffic, as a verified Verus library, with the kernel-facing driver around it.

- `src/` is the library. `llist` is an intrusive circular doubly linked list over a table
  of entries; `packet` copies packets out of network buffers; `callouts` holds the packet
  inspections, the fold of their verdicts over a buffer list, and the two classify
  callouts; `spinlock`, `kthread`, `callout` and `driver` decide, step by step, which
  kernel calls a lock handle, a thread start, a callout installation and the driver load
  make; `test` holds the list self-test and the counts of the spin lock self-test.
- `app/` is the driver itself: the driver entry, the kernel and filter-engine calls, the
  reading of kernel structures into the library's plain values, and the threaded spin lock
  self-test. It targets the Windows kernel.
- `tests/` runs the library on concrete inputs.
