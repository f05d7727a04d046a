//! Properties of the service's sequencing rules, stated over [`ServiceView`], which is what the
//! contracts of `MarketDataService` speak of.

use vstd::prelude::*;

use crate::model::{MdEvent, QuoteUpdate, SymbolHealth};
use crate::sequencing::{quote_of, EventTransition, SymbolState};
use crate::service::ServiceView;
use crate::totals::lemma_total_insert;

verus! {

/// Processing an event keeps every property of a reachable state.
pub proof fn lemma_after_preserves_valid(view: ServiceView, event: MdEvent, now_ns: u64)
    requires
        view.valid(),
        view.can_accept(),
    ensures
        view.after(event, now_ns).valid(),
{
    let next = view.after(event, now_ns);
    let key = event.update().symbol@;
    let new_state = view.state_of(key).after(event.is_snapshot(), event.update(), now_ns);
    let dups = |state: SymbolState| state.status.duplicate_count as int;
    let gaps = |state: SymbolState| state.status.gap_count as int;
    lemma_total_insert(view.symbols, dups, key, new_state);
    lemma_total_insert(view.symbols, gaps, key, new_state);
    if !view.symbols.contains_key(key) {
        assert(next.symbols.dom() =~= view.symbols.dom().insert(key));
    } else {
        assert(next.symbols.dom() =~= view.symbols.dom());
    }
    assert forall|symbol: Seq<char>| #[trigger] next.symbols.contains_key(symbol) implies {
        let state = next.symbols[symbol];
        &&& state.quote is Some
        &&& state.quote.unwrap().seq == state.status.last_seq
        &&& state.status.health != SymbolHealth::Unknown
        &&& state.status.health == SymbolHealth::Stale ==> state.status.gap_count >= 1
        &&& state.status.duplicate_count <= next.stats.duplicates
        &&& state.status.gap_count <= next.stats.gaps
    } by {
        if symbol != key {
            assert(view.symbols.contains_key(symbol));
        }
    }
}

/// Every event is counted once, as exactly one of applied, duplicate or gap, and snapshots are
/// counted as such.
pub proof fn lemma_every_event_is_counted_once(view: ServiceView, event: MdEvent, now_ns: u64)
    requires
        view.valid(),
        view.can_accept(),
    ensures
        ({
            let next = view.after(event, now_ns).stats;
            &&& next.events_seen == view.stats.events_seen + 1
            &&& next.applied + next.duplicates + next.gaps == next.events_seen
            &&& next.snapshots == view.stats.snapshots + (if event.is_snapshot() { 1int } else { 0 })
            &&& next.applied == view.stats.applied + (if view.transition_of(event)
                == EventTransition::Apply { 1int } else { 0 })
            &&& next.duplicates == view.stats.duplicates + (if view.transition_of(event)
                == EventTransition::Duplicate { 1int } else { 0 })
            &&& next.gaps == view.stats.gaps + (if view.transition_of(event) == EventTransition::Gap {
                1int
            } else {
                0
            })
        }),
{
}

/// An event changes the state of its own symbol only: a gap, a duplicate or an update on one
/// symbol leaves every other symbol as it was.
pub proof fn lemma_other_symbols_unchanged(
    view: ServiceView,
    event: MdEvent,
    now_ns: u64,
    other: Seq<char>,
)
    requires
        other != event.update().symbol@,
    ensures
        view.after(event, now_ns).state_of(other) == view.state_of(other),
{
}

/// A snapshot is always applied: whatever the symbol's state, its quote becomes the snapshot's,
/// it is live, and its last sequence number is the snapshot's.
pub proof fn lemma_snapshot_always_applies(view: ServiceView, update: QuoteUpdate, now_ns: u64)
    ensures
        ({
            let event = MdEvent::Snapshot(update);
            let state = view.after(event, now_ns).state_of(update.symbol@);
            &&& view.transition_of(event) == EventTransition::Apply
            &&& state.quote == Some(quote_of(update, now_ns))
            &&& state.status.health == SymbolHealth::Live
            &&& state.status.last_seq == update.seq
        }),
{
}

/// The first incremental of a symbol that has not been seen establishes its state.
pub proof fn lemma_first_incremental_establishes_state(
    view: ServiceView,
    update: QuoteUpdate,
    now_ns: u64,
)
    requires
        !view.symbols.contains_key(update.symbol@),
    ensures
        ({
            let event = MdEvent::Incremental(update);
            let state = view.after(event, now_ns).state_of(update.symbol@);
            &&& view.transition_of(event) == EventTransition::Apply
            &&& state.quote == Some(quote_of(update, now_ns))
            &&& state.status.health == SymbolHealth::Live
            &&& state.status.last_seq == update.seq
            &&& state.status.duplicate_count == 0
            &&& state.status.gap_count == 0
        }),
{
}

/// For a symbol that has been seen, an incremental is applied exactly when its sequence number
/// is the one right after the last applied one; then it becomes the quote, and the symbol's
/// health stays as it was: live stays live, and stale stays stale.
pub proof fn lemma_incremental_applies_only_in_sequence(
    view: ServiceView,
    update: QuoteUpdate,
    now_ns: u64,
)
    requires
        view.valid(),
        view.symbols.contains_key(update.symbol@),
    ensures
        ({
            let event = MdEvent::Incremental(update);
            let before = view.state_of(update.symbol@);
            let after = view.after(event, now_ns).state_of(update.symbol@);
            &&& (view.transition_of(event) == EventTransition::Apply) == (update.seq
                == before.status.last_seq + 1)
            &&& update.seq == before.status.last_seq + 1 ==> {
                &&& after.quote == Some(quote_of(update, now_ns))
                &&& after.status.health == before.status.health
                &&& after.status.last_seq == update.seq
            }
        }),
{
    assert(view.symbols.contains_key(update.symbol@));
}

/// A duplicate or stale incremental (sequence number at or below the last applied one) is
/// ignored: the quote, health and last sequence number stay, and only the duplicate counters
/// grow.
pub proof fn lemma_duplicate_is_ignored(view: ServiceView, update: QuoteUpdate, now_ns: u64)
    requires
        view.valid(),
        view.can_accept(),
        view.symbols.contains_key(update.symbol@),
        update.seq <= view.symbols[update.symbol@].status.last_seq,
    ensures
        ({
            let event = MdEvent::Incremental(update);
            let before = view.state_of(update.symbol@);
            let after = view.after(event, now_ns).state_of(update.symbol@);
            &&& view.transition_of(event) == EventTransition::Duplicate
            &&& after.quote == before.quote
            &&& after.status.health == before.status.health
            &&& after.status.last_seq == before.status.last_seq
            &&& after.status.gap_count == before.status.gap_count
            &&& after.status.duplicate_count == before.status.duplicate_count + 1
        }),
{
    assert(view.symbols.contains_key(update.symbol@));
}

/// An incremental that skips sequence numbers is detected as a gap: it is not applied, the old
/// quote and last sequence number remain, and the symbol becomes stale.
pub proof fn lemma_gap_is_detected(view: ServiceView, update: QuoteUpdate, now_ns: u64)
    requires
        view.valid(),
        view.can_accept(),
        view.symbols.contains_key(update.symbol@),
        update.seq > view.symbols[update.symbol@].status.last_seq + 1,
    ensures
        ({
            let event = MdEvent::Incremental(update);
            let before = view.state_of(update.symbol@);
            let after = view.after(event, now_ns).state_of(update.symbol@);
            &&& view.transition_of(event) == EventTransition::Gap
            &&& after.quote == before.quote
            &&& after.status.health == SymbolHealth::Stale
            &&& after.status.last_seq == before.status.last_seq
            &&& after.status.duplicate_count == before.status.duplicate_count
            &&& after.status.gap_count == before.status.gap_count + 1
        }),
{
    assert(view.symbols.contains_key(update.symbol@));
}

/// Incrementals never move a symbol's last applied sequence number backwards: it stays or
/// advances by exactly one. No counter, of the symbol or of the service, ever decreases.
pub proof fn lemma_incremental_never_moves_backwards(
    view: ServiceView,
    update: QuoteUpdate,
    now_ns: u64,
)
    requires
        view.valid(),
        view.can_accept(),
        view.symbols.contains_key(update.symbol@),
    ensures
        ({
            let event = MdEvent::Incremental(update);
            let before = view.state_of(update.symbol@);
            let after = view.after(event, now_ns).state_of(update.symbol@);
            let stats = view.after(event, now_ns).stats;
            &&& after.status.last_seq == before.status.last_seq || after.status.last_seq
                == before.status.last_seq + 1
            &&& after.status.duplicate_count >= before.status.duplicate_count
            &&& after.status.gap_count >= before.status.gap_count
            &&& stats.events_seen >= view.stats.events_seen
            &&& stats.applied >= view.stats.applied
            &&& stats.duplicates >= view.stats.duplicates
            &&& stats.gaps >= view.stats.gaps
            &&& stats.snapshots >= view.stats.snapshots
        }),
{
    assert(view.symbols.contains_key(update.symbol@));
}

/// In every reachable state, a symbol has a quote exactly when its health is known, and that
/// quote's sequence number is the symbol's last applied one.
pub proof fn lemma_quote_exactly_when_known(view: ServiceView, symbol: Seq<char>)
    requires
        view.valid(),
    ensures
        (view.state_of(symbol).quote is Some) == (view.state_of(symbol).status.health
            != SymbolHealth::Unknown),
        view.state_of(symbol).quote is Some ==> view.state_of(symbol).quote.unwrap().seq
            == view.state_of(symbol).status.last_seq,
{
    if view.symbols.contains_key(symbol) {
        assert(view.symbols.contains_key(symbol));
    }
}

/// An applied update, snapshot or incremental, stores exactly the update's book and sequence
/// number, stamped with the time at which it is applied; the update's exchange timestamp plays
/// no part.
pub proof fn lemma_applied_quote_is_book_at_apply_time(
    view: ServiceView,
    event: MdEvent,
    now_ns: u64,
)
    requires
        view.transition_of(event) == EventTransition::Apply,
    ensures
        ({
            let update = event.update();
            let stored = view.after(event, now_ns).state_of(update.symbol@).quote;
            &&& stored is Some
            &&& stored.unwrap().bid_px == update.bid_px
            &&& stored.unwrap().bid_qty == update.bid_qty
            &&& stored.unwrap().ask_px == update.ask_px
            &&& stored.unwrap().ask_qty == update.ask_qty
            &&& stored.unwrap().seq == update.seq
            &&& stored.unwrap().updated_at_ns == now_ns
        }),
{
}

/// The exchange timestamp of an update changes nothing: two events that differ only in it,
/// processed at the same time, give the same state.
pub proof fn lemma_exchange_timestamp_is_ignored(
    view: ServiceView,
    update: QuoteUpdate,
    exchange_ts_ns: u64,
    now_ns: u64,
)
    ensures
        view.after(MdEvent::Incremental(update), now_ns) == view.after(
            MdEvent::Incremental(QuoteUpdate { exchange_ts_ns, ..update }),
            now_ns,
        ),
        view.after(MdEvent::Snapshot(update), now_ns) == view.after(
            MdEvent::Snapshot(QuoteUpdate { exchange_ts_ns, ..update }),
            now_ns,
        ),
{
    let other = QuoteUpdate { exchange_ts_ns, ..update };
    assert(view.after(MdEvent::Incremental(update), now_ns) =~= view.after(
        MdEvent::Incremental(other),
        now_ns,
    ));
    assert(view.after(MdEvent::Snapshot(update), now_ns) =~= view.after(
        MdEvent::Snapshot(other),
        now_ns,
    ));
}

/// A symbol for which no event has been seen has no quote, unknown health, last sequence
/// number 0 and no duplicates or gaps counted.
pub proof fn lemma_unseen_symbol_is_all_zero(view: ServiceView, symbol: Seq<char>)
    requires
        !view.symbols.contains_key(symbol),
    ensures
        view.state_of(symbol).quote is None,
        view.state_of(symbol).status.health == SymbolHealth::Unknown,
        view.state_of(symbol).status.last_seq == 0,
        view.state_of(symbol).status.duplicate_count == 0,
        view.state_of(symbol).status.gap_count == 0,
{
}

/// A new service knows no symbol and has counted nothing.
pub proof fn lemma_new_service_is_empty(symbol: Seq<char>)
    ensures
        ServiceView::initial().valid(),
        ServiceView::initial().symbols.dom().len() == 0,
        !ServiceView::initial().symbols.contains_key(symbol),
        ServiceView::initial().stats.events_seen == 0,
        ServiceView::initial().stats.applied == 0,
        ServiceView::initial().stats.duplicates == 0,
        ServiceView::initial().stats.gaps == 0,
        ServiceView::initial().stats.snapshots == 0,
{
    let view = ServiceView::initial();
    assert(view.symbols.dom() =~= Set::empty());
}

/// Recovery requires a snapshot: a stale symbol stays stale under every incremental, whatever
/// its sequence number, and becomes live only through a snapshot.
pub proof fn lemma_only_snapshot_recovers(view: ServiceView, event: MdEvent, now_ns: u64)
    requires
        view.state_of(event.update().symbol@).status.health == SymbolHealth::Stale,
    ensures
        ({
            let after = view.after(event, now_ns).state_of(event.update().symbol@);
            &&& event is Incremental ==> after.status.health == SymbolHealth::Stale
            &&& event is Snapshot ==> after.status.health == SymbolHealth::Live
        }),
{
}

/// Re-delivering an incremental that was just applied changes nothing but the duplicate
/// counters.
pub proof fn lemma_redelivery_is_duplicate(
    view: ServiceView,
    update: QuoteUpdate,
    now_ns: u64,
    later_ns: u64,
)
    requires
        view.valid(),
        view.can_accept(),
        view.transition_of(MdEvent::Incremental(update)) == EventTransition::Apply,
    ensures
        ({
            let event = MdEvent::Incremental(update);
            let once = view.after(event, now_ns);
            let twice = once.after(event, later_ns);
            &&& once.transition_of(event) == EventTransition::Duplicate
            &&& twice.state_of(update.symbol@).quote == once.state_of(update.symbol@).quote
            &&& twice.state_of(update.symbol@).status == (crate::model::SymbolStatus {
                duplicate_count: (once.state_of(update.symbol@).status.duplicate_count + 1) as u64,
                ..once.state_of(update.symbol@).status
            })
            &&& twice.stats.duplicates == once.stats.duplicates + 1
            &&& twice.stats.applied == once.stats.applied
        }),
{
}

/// After a snapshot with sequence number `seq`, the incremental with `seq + 1` is applied: a
/// snapshot recovers a symbol so that the feed can continue from it.
pub proof fn lemma_snapshot_then_next_incremental_applies(
    view: ServiceView,
    snapshot: QuoteUpdate,
    next: QuoteUpdate,
    snapshot_ns: u64,
    next_ns: u64,
)
    requires
        view.valid(),
        view.can_accept(),
        next.symbol@ == snapshot.symbol@,
        next.seq == snapshot.seq + 1,
    ensures
        ({
            let recovered = view.after(MdEvent::Snapshot(snapshot), snapshot_ns);
            let continued = recovered.after(MdEvent::Incremental(next), next_ns);
            &&& recovered.transition_of(MdEvent::Incremental(next)) == EventTransition::Apply
            &&& continued.state_of(next.symbol@).quote == Some(quote_of(next, next_ns))
            &&& continued.state_of(next.symbol@).status.health == SymbolHealth::Live
            &&& continued.state_of(next.symbol@).status.last_seq == next.seq
        }),
{
}

/// The state after `events` are processed in order, the `i`-th at time `times[i]`.
pub open spec fn after_all(view: ServiceView, events: Seq<MdEvent>, times: Seq<u64>) -> ServiceView
    decreases events.len(),
{
    if events.len() == 0 {
        view
    } else {
        after_all(view.after(events[0], times[0]), events.drop_first(), times.drop_first())
    }
}

/// The number of snapshots among `events`.
pub open spec fn count_snapshots(events: Seq<MdEvent>) -> int
    decreases events.len(),
{
    if events.len() == 0 {
        0
    } else {
        (if events[0] is Snapshot { 1int } else { 0int }) + count_snapshots(events.drop_first())
    }
}

/// The symbols of `events`.
pub open spec fn event_symbols(events: Seq<MdEvent>) -> Set<Seq<char>> {
    Set::new(|symbol: Seq<char>| exists|i: int| 0 <= i < events.len() && #[trigger] events[i].update().symbol@ == symbol)
}

/// After a sequence of events, the known symbols are those known before and those of the events.
pub proof fn lemma_known_symbols_after_all(view: ServiceView, events: Seq<MdEvent>, times: Seq<u64>)
    requires
        times.len() == events.len(),
    ensures
        after_all(view, events, times).symbols.dom() == view.symbols.dom().union(
            event_symbols(events),
        ),
    decreases events.len(),
{
    if events.len() > 0 {
        let rest = events.drop_first();
        lemma_known_symbols_after_all(view.after(events[0], times[0]), rest, times.drop_first());
        assert forall|symbol: Seq<char>|
            event_symbols(events).contains(symbol) <==> (symbol == events[0].update().symbol@
                || event_symbols(rest).contains(symbol)) by {
            if event_symbols(events).contains(symbol) {
                let i = choose|i: int|
                    0 <= i < events.len() && #[trigger] events[i].update().symbol@ == symbol;
                if i > 0 {
                    assert(rest[i - 1] == events[i]);
                }
            }
            if event_symbols(rest).contains(symbol) {
                let i = choose|i: int|
                    0 <= i < rest.len() && #[trigger] rest[i].update().symbol@ == symbol;
                assert(rest[i] == events[i + 1]);
            }
            if symbol == events[0].update().symbol@ {
                assert(events[0].update().symbol@ == symbol);
            }
        }
        assert(after_all(view, events, times).symbols.dom() =~= view.symbols.dom().union(
            event_symbols(events),
        ));
    } else {
        assert(view.symbols.dom().union(event_symbols(events)) =~= view.symbols.dom());
    }
}

/// From an empty service, after any sequence of events: the known symbols are exactly the
/// events' symbols, so a service snapshot lists one pair per distinct symbol among them; a
/// symbol's health is unknown exactly when no event named it, and then its whole state is the
/// initial one; and every event and every snapshot is counted once.
pub proof fn lemma_run_from_empty(events: Seq<MdEvent>, times: Seq<u64>)
    requires
        times.len() == events.len(),
        events.len() <= u64::MAX,
    ensures
        ({
            let end = after_all(ServiceView::initial(), events, times);
            &&& end.valid()
            &&& end.symbols.dom() == event_symbols(events)
            &&& end.symbols.dom().len() == event_symbols(events).len()
            &&& forall|symbol: Seq<char>|
                (#[trigger] end.state_of(symbol).status.health == SymbolHealth::Unknown)
                    == !event_symbols(events).contains(symbol)
            &&& forall|symbol: Seq<char>|
                #[trigger] end.state_of(symbol).status.health == SymbolHealth::Unknown
                    ==> end.state_of(symbol) == SymbolState::initial()
            &&& end.stats.events_seen == events.len()
            &&& end.stats.snapshots == count_snapshots(events)
            &&& end.stats.applied + end.stats.duplicates + end.stats.gaps == end.stats.events_seen
            &&& end.stats.snapshots <= end.stats.applied
        }),
{
    let start = ServiceView::initial();
    assert(start.symbols.dom() =~= Set::empty());
    lemma_stats_count_all_events(start, events, times);
    lemma_known_symbols_after_all(start, events, times);
    let end = after_all(start, events, times);
    assert(end.symbols.dom() =~= event_symbols(events));
    assert forall|symbol: Seq<char>|
        (#[trigger] end.state_of(symbol).status.health == SymbolHealth::Unknown)
            == !event_symbols(events).contains(symbol) by {
        if end.symbols.contains_key(symbol) {
            assert(end.symbols.contains_key(symbol));
        }
    }
}

/// Over any sequence of events, every event is seen once and every snapshot counted once; the
/// state stays valid, so the applied, duplicate and gap counters still add up to the events
/// seen and snapshots never exceed applied events.
pub proof fn lemma_stats_count_all_events(view: ServiceView, events: Seq<MdEvent>, times: Seq<u64>)
    requires
        view.valid(),
        times.len() == events.len(),
        view.stats.events_seen + events.len() <= u64::MAX,
    ensures
        ({
            let end = after_all(view, events, times);
            &&& end.valid()
            &&& end.stats.events_seen == view.stats.events_seen + events.len()
            &&& end.stats.snapshots == view.stats.snapshots + count_snapshots(events)
            &&& end.stats.applied + end.stats.duplicates + end.stats.gaps == end.stats.events_seen
            &&& end.stats.snapshots <= end.stats.applied
        }),
    decreases events.len(),
{
    if events.len() > 0 {
        lemma_after_preserves_valid(view, events[0], times[0]);
        lemma_every_event_is_counted_once(view, events[0], times[0]);
        lemma_stats_count_all_events(
            view.after(events[0], times[0]),
            events.drop_first(),
            times.drop_first(),
        );
    }
}

} // verus!
