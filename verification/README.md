# fundlens

The logic of a local-first fund portfolio tracker, written in Verus and proved against its
contracts.

- `src/` is the verified library. Amounts, prices and weights are fractions and are not part of it:
  its functions take what is known of them (signs, comparisons, numbers that order them) and say
  which figures count, in what order and under which names.
- `tests/` runs the library on concrete values.
- `app/` is the program around it: the database, the network, the clock and the arithmetic on
  fractions. It is assembled with engines for valuation, for reading pictures, for the change log
  and for the strategy (`app/engine.rs`); what needs one that is missing is refused.

| Part | Modules |
| --- | --- |
| Text, order and groups | `text`, `order`, `group`, `pick`, `percent`, `json` |
| Dates and markets | `date`, `moment`, `calendar` |
| Synchronisation | `cloud`, `channel`, `relay`, `memory`, `pull`, `replay`, `sync_laws` |
| Backups and storage | `backup`, `store` |
| Public services | `quotes`, `symbols`, `search`, `disclosure`, `funds`, `refresh` |
| Portfolio | `positions`, `ledger`, `imports`, `reports`, `changes`, `stats` |
| Looking through funds | `sector`, `lookthrough`, `lookthrough_laws` |
| Grid strategy | `grid`, `signals` |

What is taken on trust of other crates and of the standard library stands beside the function that
calls it, with a comment that says what is claimed.
