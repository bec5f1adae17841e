# pass

A library for `pass`-compatible password stores, verified with Verus.

- `src/` is the verified library: the model of the store's entries and
  paths, the line format of passwords (plain and structured) with the edits
  on them and the texts they are saved with, the order in which entries are
  listed and sorted, searching, git status and merge decisions, merge
  conflicts, GPG ID bookkeeping, and passphrase analysis and generation.
  Calls into `similar`, `passwords` and `str::to_lowercase` stand behind a
  few trusted functions whose contracts say what is relied on.
- `app/` holds what performs the reads and writes: the file system,
  encryption with GPG (`gpgme`) and the git repository (`git2`), and the
  store's in-memory tree of entries (`id_tree`). Which files become
  entries and in what order, how two entries are sorted, and which child
  a search descends into are verified functions of the library; the tree
  itself, its traversal orders and its node updates are `id_tree`'s and
  stay unverified in `app/`.
- `tests/` exercises the library on concrete values.
