# ivaldi_core

Safety-first file operations for AI agents: reading with size and binary
guards, line- and pattern-based surgical edits, journaled writes that can be
undone, directory and code analysis, git history, system logs, sessions and
Cedar permissions.

- `src/` is the library, verified with Verus: the tools' decisions (what a
  read returns, how an edit applies, whether a write target is refused,
  what the journal records and what an undo does, how a multi-file edit
  commits or rolls back, which entries a search keeps, what advice an agent
  gets, what Cedar policies are loaded and asked) stand there with their
  contracts, and the laws that relate the operations are proof functions
  (`law_*`).  What a decision leans on from an outside crate (a regular
  expression's matches, a Cedar decision, a diff) is named and stated in
  the trusted wrappers that make the calls.
- `app/` is the `ivaldi` command line and the file-system, repository,
  parser and journal plumbing around the library: it gathers what the
  decisions need and carries them out.
- `tests/` runs the library on concrete cases.
