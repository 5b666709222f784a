# aop-app

The verified core of the Alterion Open Project desktop application: the
rules it keeps about updates, themes, the undo log, sorting an outline,
what a sync or the live connection to a collaboration server decides, dates
typed by hand, and the vocabulary of its interface. Every function in `src/`
carries a contract; Verus proves them all except those of the few small
functions marked `external_body`, each of which makes one call into sha2,
flate2, serde_json, chrono or std and whose contract is assumed, as its doc
comment says. The laws the application relies on are proof functions beside
the code they are about.

- `src/` is the library. `release.rs`, `version.rs` and `tar.rs` find,
  check and unpack a newer release; `offer.rs` holds what the interface knows
  about one. `theme.rs` is the palette. `undo.rs`, `selection.rs`,
  `outline.rs`, `changes.rs` and `describe.rs` are the editing rules and
  the sentences the log gives them; `collaborate.rs` and
  `live.rs` decide when the server may be talked to and what its answers to
  a sync and the messages off the live socket come to; `taken.rs` keeps
  somebody else's work apart from this copy's own. `dates.rs`, `stored.rs`
  and `places.rs` read what the system and the user hand over. `state.rs`
  names tabs, views, pages and commands. `text.rs` is the string handling
  they share.
- `app/` is the part that touches the network, the disk, the clock and the
  environment, and hands the library plain values.
- `tests/` runs the library against concrete cases.
