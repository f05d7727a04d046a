use vstd::prelude::*;

use crate::model::{Quote, QuoteUpdate, ServiceStats, SymbolHealth, SymbolStatus};

verus! {

/// What an event does to the state of its symbol.
#[derive(Clone, Copy, Debug, PartialEq, Eq, Structural)]
pub enum EventTransition {
    /// The update becomes the symbol's quote.
    Apply,
    /// The update is at or before the last applied sequence number and is ignored.
    Duplicate,
    /// The update skips sequence numbers; the symbol becomes stale and keeps its quote.
    Gap,
}

/// The state the service keeps for one symbol.
#[derive(Clone, Copy, Debug, PartialEq, Eq, Structural)]
pub struct SymbolState {
    pub quote: Option<Quote>,
    pub status: SymbolStatus,
}

/// How an event is classified, given whether it is a snapshot, its sequence number and the
/// current state of its symbol: snapshots and the first update of a symbol are always applied;
/// otherwise an update at or below `last_seq` is a duplicate, the one right after `last_seq` is
/// applied, and any later one is a gap.
pub open spec fn classify(is_snapshot: bool, seq: u64, state: SymbolState) -> EventTransition {
    if is_snapshot || state.quote is None {
        EventTransition::Apply
    } else if seq <= state.status.last_seq {
        EventTransition::Duplicate
    } else if seq == state.status.last_seq + 1 {
        EventTransition::Apply
    } else {
        EventTransition::Gap
    }
}

/// The quote stored for `update` when it is applied at time `updated_at_ns`.
pub open spec fn quote_of(update: QuoteUpdate, updated_at_ns: u64) -> Quote {
    Quote {
        bid_px: update.bid_px,
        bid_qty: update.bid_qty,
        ask_px: update.ask_px,
        ask_qty: update.ask_qty,
        seq: update.seq,
        updated_at_ns,
    }
}

impl SymbolState {
    /// The state of a symbol for which no event has been seen.
    pub open spec fn initial() -> SymbolState {
        SymbolState { quote: None, status: SymbolStatus::initial() }
    }

    /// The health after an update of this symbol is applied: a snapshot, or an incremental on a
    /// symbol that is not stale, makes it live; a stale symbol stays stale until a snapshot.
    pub open spec fn health_after_apply(self, is_snapshot: bool) -> SymbolHealth {
        if is_snapshot || self.status.health != SymbolHealth::Stale {
            SymbolHealth::Live
        } else {
            SymbolHealth::Stale
        }
    }

    /// The state after an event carrying `update` is processed at time `now_ns`.
    pub open spec fn after(self, is_snapshot: bool, update: QuoteUpdate, now_ns: u64) -> SymbolState {
        match classify(is_snapshot, update.seq, self) {
            EventTransition::Apply => SymbolState {
                quote: Some(quote_of(update, now_ns)),
                status: SymbolStatus {
                    health: self.health_after_apply(is_snapshot),
                    last_seq: update.seq,
                    ..self.status
                },
            },
            EventTransition::Duplicate => SymbolState {
                status: SymbolStatus {
                    duplicate_count: (self.status.duplicate_count + 1) as u64,
                    ..self.status
                },
                ..self
            },
            EventTransition::Gap => SymbolState {
                status: SymbolStatus {
                    health: SymbolHealth::Stale,
                    gap_count: (self.status.gap_count + 1) as u64,
                    ..self.status
                },
                ..self
            },
        }
    }
}

impl ServiceStats {
    /// The counters after one more event, a snapshot or not, that had the given transition.
    pub open spec fn after(self, is_snapshot: bool, transition: EventTransition) -> ServiceStats {
        let seen = ServiceStats {
            events_seen: (self.events_seen + 1) as u64,
            snapshots: if is_snapshot { (self.snapshots + 1) as u64 } else { self.snapshots },
            ..self
        };
        match transition {
            EventTransition::Apply => ServiceStats { applied: (seen.applied + 1) as u64, ..seen },
            EventTransition::Duplicate => ServiceStats {
                duplicates: (seen.duplicates + 1) as u64,
                ..seen
            },
            EventTransition::Gap => ServiceStats { gaps: (seen.gaps + 1) as u64, ..seen },
        }
    }
}

/// Classifies an event of the symbol whose current state is `state`.
pub fn classify_event(is_snapshot: bool, seq: u64, state: &SymbolState) -> (res: EventTransition)
    ensures
        res == classify(is_snapshot, seq, *state),
{
    if is_snapshot || state.quote.is_none() {
        return EventTransition::Apply;
    }
    let last_seq = state.status.last_seq;
    if seq <= last_seq {
        return EventTransition::Duplicate;
    }
    if last_seq.checked_add(1) == Some(seq) {
        EventTransition::Apply
    } else {
        EventTransition::Gap
    }
}

/// The quote stored for `update` when it is applied at time `updated_at_ns`.
pub fn quote_from_update(update: &QuoteUpdate, updated_at_ns: u64) -> (res: Quote)
    ensures
        res == quote_of(*update, updated_at_ns),
        res.bid_px == update.bid_px,
        res.bid_qty == update.bid_qty,
        res.ask_px == update.ask_px,
        res.ask_qty == update.ask_qty,
        res.seq == update.seq,
        res.updated_at_ns == updated_at_ns,
{
    Quote {
        bid_px: update.bid_px,
        bid_qty: update.bid_qty,
        ask_px: update.ask_px,
        ask_qty: update.ask_qty,
        seq: update.seq,
        updated_at_ns,
    }
}

/// Processes an event carrying `update` against the state of its symbol, at time `now_ns`, and
/// returns how it was classified.
pub fn apply_to_state(
    state: &mut SymbolState,
    is_snapshot: bool,
    update: &QuoteUpdate,
    now_ns: u64,
) -> (res: EventTransition)
    requires
        old(state).status.duplicate_count < u64::MAX,
        old(state).status.gap_count < u64::MAX,
    ensures
        res == classify(is_snapshot, update.seq, *old(state)),
        *final(state) == old(state).after(is_snapshot, *update, now_ns),
{
    let transition = classify_event(is_snapshot, update.seq, state);
    match transition {
        EventTransition::Apply => {
            state.quote = Some(quote_from_update(update, now_ns));
            if is_snapshot || state.status.health != SymbolHealth::Stale {
                state.status.health = SymbolHealth::Live;
            }
            state.status.last_seq = update.seq;
        },
        EventTransition::Duplicate => {
            state.status.duplicate_count = state.status.duplicate_count + 1;
        },
        EventTransition::Gap => {
            state.status.health = SymbolHealth::Stale;
            state.status.gap_count = state.status.gap_count + 1;
        },
    }
    transition
}

} // verus!
