# service_manager

Bookkeeping for the local Python model services of a desktop control center,
verified with Verus.

- `src/` is the verified library: the health-probe schedule
  (`health`), the manifest types (`manifest`), template resolution and the
  environment given to each service (`launch`), the manager itself
  (`manager`), a string-keyed table (`table`), text helpers (`text`), paths
  (`paths`) and the laws that tie the operations together (`laws`).
- `app/` holds what Verus does not see: spawning and killing processes,
  reading log files, the process environment, and serializable copies of the
  types shown to the user interface.
- `tests/` exercises the library.
