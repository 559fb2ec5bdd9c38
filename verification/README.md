# gws

The verified core of two Google Workspace CLI helpers, written in Verus.

- `src/services.rs`: the table of known services and `resolve_service`,
  which maps an alias such as `directory` to its API name and version.
- `src/list_unsubscribe.rs`: the `List-Unsubscribe` header parser and the
  reading of a Gmail message's headers.
- `src/senders.rs`: grouping messages by sender and ordering the senders by
  message count, for the `--list` listing. Senders are grouped in a `Vec`
  in order of first appearance, with the invariant that no sender occurs
  twice: the keys are strings, and vstd specifies std's hash maps usefully
  only for keys such as integers, so a map keyed by the sender's address
  would leave the grouping unprovable. First-appearance order also fixes
  the order of senders with equal counts.
- `src/plan.rs`: choosing how to unsubscribe from one sender (RFC 8058
  one-click POST when offered, else the sender's mail address, else a
  plain HTTPS link; dry run) and the report of the POST.
- `src/command.rs`: the `--max` limit and the choice between listing and
  unsubscribing.
- `src/text.rs`: character-level helpers (Unicode white space, trimming,
  searching) with their specifications.

`app/` holds the unverified side: argument reading, the Gmail API requests,
their concurrency and the printed output.
