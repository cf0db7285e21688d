# mmtk_openjdk

The OpenJDK side of the [MMTk](https://www.mmtk.io) memory manager: what the collector and the
virtual machine have to decide between them, written and verified in Verus.

- `src/` is the verified library.
  - `object_scanning` says which slots of an object are visited and what becomes of the referent of
    a `java.lang.ref.Reference`; `scanning_laws` states what holds of every scan, `klass` and
    `slots` hold what a scan reads, and `reports` limits what a scan reports.
  - `stale_write` decides which stale writes are reported and which abort the program; `budget`
    counts the reports.
  - `nmethods` keeps the slots in the code of compiled methods.
  - `api` and `options` set the options of MMTk and name the active plan and barrier; `option_text`
    says which texts set which values.
  - `address` and `text` are what the others stand on.
- `tests/` runs the library on examples, with the real MMTk behind the options.
- `app/` holds the entry points around the library: locks, the environment, the log, and the calls
  into MMTk and the virtual machine.
