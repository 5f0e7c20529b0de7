# lead_desk

The rules of the IsoPlan lead desk, verified with Verus: lead entry and
normalisation, evidence review and the qualification score, contacts,
settings, outreach drafts and their Gmail hand-off, follow-ups, exports and
backup retention.

- `src/` is the verified library. Each module states its rules as spec
  functions and proves the executable code against them; `law_*` proof
  functions state properties that span operations (the score stays within
  0–100, each category counts once, the do-not-contact block is permanent
  and its domain is refused from then on,
  a send is recorded only on confirmation, pruning keeps the newest backups).
- `app/` holds the SQLite storage, the files on disk and the command
  functions; it calls the library for every decision.
- `tests/` runs the library on concrete cases.
