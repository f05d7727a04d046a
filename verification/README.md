# md_hotpath

A verified per-symbol market-data sequencer. `MarketDataService` keeps, for every symbol, the
latest top-of-book quote and a sequencing status, and applies events by these rules:

- a snapshot is always applied and makes the symbol live;
- the first incremental of an unseen symbol establishes its state;
- an incremental with `seq == last_seq + 1` is applied;
- an incremental with `seq <= last_seq` is a duplicate and is ignored;
- any other incremental is a gap: the symbol becomes stale and keeps its quote;
- a stale symbol becomes live again only through a snapshot (in-sequence incrementals are
  still stored while it is stale).

Layout:

- `src/model.rs`: the data types (symbols, quotes, updates, events, statuses, counters).
- `src/sequencing.rs`: the classification of an event and its effect on one symbol.
- `src/symbol_index.rs`: distinct symbol names with a hash index over them.
- `src/service.rs`: the service, its abstract view `ServiceView`, and its contracts.
- `src/totals.rs`: sums of per-symbol counters.
- `src/laws.rs`: properties of the sequencing rules, proved over `ServiceView`.
- `src/clock.rs`: the wall clock used to stamp applied quotes.
- `app/`: the asynchronous front end (shared service behind a tokio mutex, channel loop).
