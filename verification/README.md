# windows-wfp

A Windows Filtering Platform (WFP) firewall library whose decision logic is
verified with Verus.

## Layout

- `src/` — the verified library:
  - `filter.rs`, `condition.rs`: filter rules, CIDR addresses and protocols
    (CIDR text is read with exact error messages; addresses are parsed and
    printed as std does);
  - `filter_builder.rs`: how a rule becomes a WFP filter (layer, action,
    weight, and the ordered list of conditions, among them the application,
    service and AppContainer conditions), and what the result codes of
    resolving those identities and of adding and deleting filters mean;
  - `filter_enum.rs`: reading the filters WFP reports (names, action, weight,
    application path) and the batch-by-batch enumeration state;
  - `events.rs`: reading network events (event type, FILETIME to Unix time,
    addresses by IP version, drop details);
  - `engine.rs`, `transaction.rs`, `provider.rs`: what each result code of
    opening a session, a transaction step or a registration means, and the
    order of the initialization steps;
  - `layer.rs`, `constants.rs`, `errors.rs`, `text.rs`, `ip_text.rs`,
    `ip_format.rs`: layers and weights, WFP constants, errors and their text,
    number and address text;
  - `ip_roundtrip.rs`: proofs that printed addresses and numbers read back as
    themselves (used by the CIDR round-trip law in `condition.rs`).
- `app/` — the Windows side: the calls into `fwpuclnt.dll`, RAII handles, the
  event channel, and the error type's `Display`/`Error` impls (`thiserror`).
- `tests/` — tests of the library on concrete values.
