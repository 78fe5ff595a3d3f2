# adm_sfa

Bookkeeping for a small donation project: EUR and BRL ledgers, purchases,
inventory items, outbound donations to recipient projects, the documents
filed against all of these, and the reports drawn from them.

## Layout

- `src/` — the library, verified with Verus. Every public function states
  its behaviour in `requires`/`ensures`; the laws that relate several
  functions are public `proof fn`s (`lemma_*`).
  - `model/` — the records and their stored identifiers.
  - `money.rs`, `date.rs`, `text.rs` — amounts (as `rust_decimal`
    representations), calendar dates, and the string rules the rest uses.
  - `queries/` — what is stored and how stored rows read back.
  - `docs_fs.rs`, `service.rs` — document naming, filing dates, label
    checks and batch attachment.
  - `reporting.rs` — balances, period summaries, the donor breakdown and
    the audit trail.
  - `web/`, `forms.rs`, `config.rs` — the decisions behind the pages and
    forms: redirects, pickers, form parsing, report tables, the login
    check.
- `app/` — ordinary Rust around the library: SQLite queries, the documents
  directory, backups and the data directory.
- `tests/` — tests of the library on concrete values.

Calls into `rust_decimal`, `chrono`, `subtle`, `form_urlencoded` and std
that the library makes go through small trusted wrappers; their doc
comments say what is assumed of each.
