use vstd::prelude::*;

use crate::clock::{epoch_nanos, is_clock_reading, wall_clock_ns};
use crate::laws::lemma_after_preserves_valid;
use crate::model::{MdError, MdEvent, Quote, ServiceStats, Symbol, SymbolHealth, SymbolStatus};
use crate::sequencing::{apply_to_state, classify, EventTransition, SymbolState};
use crate::symbol_index::SymbolIndex;
use crate::totals::{total_duplicates, total_gaps};

verus! {

/// The abstract state of a [`MarketDataService`]: the state of every symbol that has been seen,
/// keyed by the symbol's characters, and the service-wide counters.
#[verifier::ext_equal]
pub struct ServiceView {
    pub symbols: Map<Seq<char>, SymbolState>,
    pub stats: ServiceStats,
}

impl ServiceView {
    /// The empty service.
    pub open spec fn initial() -> ServiceView {
        ServiceView { symbols: Map::empty(), stats: ServiceStats::zero() }
    }

    /// The state of `symbol`; the initial state where no event for it has been seen.
    pub open spec fn state_of(self, symbol: Seq<char>) -> SymbolState {
        if self.symbols.contains_key(symbol) {
            self.symbols[symbol]
        } else {
            SymbolState::initial()
        }
    }

    /// How `event` is classified in this state.
    pub open spec fn transition_of(self, event: MdEvent) -> EventTransition {
        classify(event.is_snapshot(), event.update().seq, self.state_of(event.update().symbol@))
    }

    /// The state after `event` is processed at time `now_ns`: only the event's symbol changes,
    /// and the counters record the event and its transition.
    pub open spec fn after(self, event: MdEvent, now_ns: u64) -> ServiceView {
        let update = event.update();
        let symbol = update.symbol@;
        ServiceView {
            symbols: self.symbols.insert(
                symbol,
                self.state_of(symbol).after(event.is_snapshot(), update, now_ns),
            ),
            stats: self.stats.after(event.is_snapshot(), self.transition_of(event)),
        }
    }

    /// Whether there is room to count one more event.
    pub open spec fn can_accept(self) -> bool {
        self.stats.events_seen < u64::MAX
    }

    /// The properties that every reachable state has: every known symbol has a quote whose
    /// sequence number is the last applied one and a known health; every event is counted as
    /// exactly one of applied, duplicate or gap; every snapshot was applied; a stale symbol has
    /// seen at least one gap; the service-wide duplicate and gap counters are the sums of the
    /// per-symbol ones; and every known symbol had at least one applied event.
    pub open spec fn valid(self) -> bool {
        &&& self.symbols.dom().finite()
        &&& self.stats.applied + self.stats.duplicates + self.stats.gaps == self.stats.events_seen
        &&& self.stats.snapshots <= self.stats.applied
        &&& total_duplicates(self.symbols) == self.stats.duplicates
        &&& total_gaps(self.symbols) == self.stats.gaps
        &&& self.symbols.dom().len() <= self.stats.applied
        &&& forall|symbol: Seq<char>| #[trigger]
            self.symbols.contains_key(symbol) ==> {
                let state = self.symbols[symbol];
                &&& state.quote is Some
                &&& state.quote.unwrap().seq == state.status.last_seq
                &&& state.status.health != SymbolHealth::Unknown
                &&& state.status.health == SymbolHealth::Stale ==> state.status.gap_count >= 1
                &&& state.status.duplicate_count <= self.stats.duplicates
                &&& state.status.gap_count <= self.stats.gaps
            }
    }
}

/// Market-data service: the latest quote and sequencing status of each symbol, and counters
/// over all processed events.
pub struct MarketDataService {
    /// The known symbols, numbered.
    index: SymbolIndex,
    /// `states[i]` is the state of the symbol numbered `i`.
    states: Vec<SymbolState>,
    stats: ServiceStats,
    model: Ghost<Map<Seq<char>, SymbolState>>,
}

impl View for MarketDataService {
    type V = ServiceView;

    closed spec fn view(&self) -> ServiceView {
        ServiceView { symbols: self.model@, stats: self.stats }
    }
}

impl MarketDataService {
    /// The internal representation agrees with the view, which is valid.
    pub closed spec fn wf(&self) -> bool {
        &&& self.index.wf()
        &&& self.index@.len() == self.states.len()
        &&& forall|i: int|
            #![trigger self.index@[i]]
            0 <= i < self.states.len() ==> self.model@.contains_key(self.index@[i])
                && self.model@[self.index@[i]] == self.states[i]
        &&& forall|symbol: Seq<char>| #[trigger]
            self.model@.contains_key(symbol) ==> self.index@.contains(symbol)
        &&& self@.valid()
    }

    /// Every state the service reaches has the properties of [`ServiceView::valid`].
    pub proof fn lemma_reachable_states_are_valid(&self)
        requires
            self.wf(),
        ensures
            self@.valid(),
    {
    }

    /// An empty service.
    pub fn new() -> (res: Self)
        ensures
            res.wf(),
            res@ == ServiceView::initial(),
    {
        let res = MarketDataService {
            index: SymbolIndex::new(),
            states: Vec::new(),
            stats: ServiceStats::default(),
            model: Ghost(Map::empty()),
        };
        proof {
            assert(res@.symbols.dom() =~= Set::empty());
        }
        res
    }

    /// The number of the known symbol with the characters of `symbol`, if there is one.
    fn find(&self, symbol: &String) -> (res: Option<usize>)
        requires
            self.wf(),
        ensures
            match res {
                Some(i) => i < self.states.len() && self.index@[i as int] == symbol@
                    && self@.symbols.contains_key(symbol@)
                    && self@.symbols[symbol@] == self.states[i as int],
                None => !self@.symbols.contains_key(symbol@),
            },
    {
        let res = self.index.find(symbol);
        proof {
            if let Some(i) = res {
                assert(self.index@[i as int] == symbol@);
            }
        }
        res
    }

    /// Processes one event, stamping an applied quote with `now_ns`.
    pub fn apply_event_at(&mut self, event: MdEvent, now_ns: u64) -> (res: Result<(), MdError>)
        requires
            old(self).wf(),
            old(self)@.can_accept(),
        ensures
            final(self).wf(),
            res is Ok,
            final(self)@ == old(self)@.after(event, now_ns),
    {
        let ghost old_view = self@;
        let (is_snapshot, update) = match event {
            MdEvent::Incremental(update) => (false, update),
            MdEvent::Snapshot(update) => (true, update),
        };
        let ghost key = update.symbol@;
        let ghost old_names = self.index@;
        let ghost mut idx: int = 0;
        let transition;
        match self.find(&update.symbol.0) {
            Some(i) => {
                let mut state = self.states[i];
                transition = apply_to_state(&mut state, is_snapshot, &update, now_ns);
                self.states.set(i, state);
                proof {
                    self.model@ = self.model@.insert(key, state);
                    idx = i as int;
                }
            },
            None => {
                let mut state = SymbolState { quote: None, status: SymbolStatus::default() };
                transition = apply_to_state(&mut state, is_snapshot, &update, now_ns);
                self.index.push(update.symbol);
                self.states.push(state);
                proof {
                    self.model@ = self.model@.insert(key, state);
                    idx = old_names.len() as int;
                }
            },
        }
        self.stats.events_seen = self.stats.events_seen + 1;
        if is_snapshot {
            self.stats.snapshots = self.stats.snapshots + 1;
        }
        match transition {
            EventTransition::Apply => self.stats.applied = self.stats.applied + 1,
            EventTransition::Duplicate => self.stats.duplicates = self.stats.duplicates + 1,
            EventTransition::Gap => self.stats.gaps = self.stats.gaps + 1,
        }
        proof {
            assert(self@ =~= old_view.after(event, now_ns));
            lemma_after_preserves_valid(old_view, event, now_ns);
            assert(self.index@[idx] == key);
            assert forall|i: int|
                #![trigger self.index@[i]]
                0 <= i < self.states.len() implies self.model@.contains_key(self.index@[i])
                    && self.model@[self.index@[i]] == self.states[i] by {
                if i != idx {
                    assert(self.index@[i] == old_names[i]);
                    assert(old_view.symbols.contains_key(old_names[i]));
                    if idx < old_names.len() {
                        if i < idx {
                            self.index.lemma_names_distinct(i, idx);
                        } else {
                            self.index.lemma_names_distinct(idx, i);
                        }
                    }
                    assert(old_names[i] != key);
                }
            }
            assert forall|symbol: Seq<char>| #[trigger]
                self.model@.contains_key(symbol) implies self.index@.contains(symbol) by {
                if symbol != key {
                    let k = choose|k: int| 0 <= k < old_names.len() && old_names[k] == symbol;
                    assert(self.index@[k] == symbol);
                }
            }
        }
        Ok(())
    }

    /// Processes one event, stamping an applied quote, whatever the kind of event, with the
    /// system clock: the time used is a reading of the clock since the Unix epoch, never a value
    /// taken from the event.
    pub fn apply_event(&mut self, event: MdEvent) -> (res: Result<(), MdError>)
        requires
            old(self).wf(),
            old(self)@.can_accept(),
        ensures
            final(self).wf(),
            res is Ok,
            exists|now_ns: u64| final(self)@ == old(self)@.after(event, now_ns),
            exists|reading: Option<u128>| #[trigger]
                is_clock_reading(reading) && final(self)@ == old(self)@.after(
                    event,
                    epoch_nanos(reading),
                ),
            exists|now_ns: u64| #[trigger]
                call_ensures(wall_clock_ns, (), now_ns) && final(self)@ == old(self)@.after(
                    event,
                    now_ns,
                ),
    {
        let now_ns = wall_clock_ns();
        proof {
            assert(call_ensures(wall_clock_ns, (), now_ns));
        }
        self.apply_event_at(event, now_ns)
    }

    /// The latest applied quote of `symbol`, if any.
    pub fn get_quote<S: Into<Symbol>>(&self, symbol: S) -> (res: Option<Quote>)
        requires
            self.wf(),
        ensures
            exists|key: Symbol|
                call_ensures(S::into, (symbol,), key) && res == #[trigger] self@.state_of(
                    key@,
                ).quote,
    {
        let key: Symbol = symbol.into();
        let res = match self.find(&key.0) {
            Some(i) => self.states[i].quote,
            None => None,
        };
        proof {
            assert(call_ensures(S::into, (symbol,), key));
            assert(res == self@.state_of(key@).quote);
        }
        res
    }

    /// The sequencing status of `symbol`; the initial status if no event for it was seen.
    pub fn symbol_status<S: Into<Symbol>>(&self, symbol: S) -> (res: SymbolStatus)
        requires
            self.wf(),
        ensures
            exists|key: Symbol|
                call_ensures(S::into, (symbol,), key) && res == #[trigger] self@.state_of(
                    key@,
                ).status,
    {
        let key: Symbol = symbol.into();
        let res = match self.find(&key.0) {
            Some(i) => self.states[i].status,
            None => SymbolStatus::default(),
        };
        proof {
            assert(call_ensures(S::into, (symbol,), key));
            assert(res == self@.state_of(key@).status);
        }
        res
    }

    /// Every symbol that has a quote, with that quote, each symbol once, in no particular order;
    /// as every known symbol has a quote, there is one pair per known symbol.
    pub fn snapshot(&self) -> (res: Vec<(Symbol, Quote)>)
        requires
            self.wf(),
        ensures
            res.len() == self@.symbols.dom().len(),
            forall|i: int|
                #![trigger res[i]]
                0 <= i < res.len() ==> self@.symbols.contains_key(res[i].0@)
                    && self@.symbols[res[i].0@].quote == Some(res[i].1),
            forall|i: int, j: int|
                0 <= i < j < res.len() ==> #[trigger] res[i].0@ != #[trigger] res[j].0@,
            forall|symbol: Seq<char>| #[trigger]
                self@.symbols.contains_key(symbol) && self@.symbols[symbol].quote is Some
                    ==> exists|i: int| 0 <= i < res.len() && #[trigger] res[i].0@ == symbol,
    {
        let mut res: Vec<(Symbol, Quote)> = Vec::new();
        let mut i: usize = 0;
        let n = self.index.len();
        while i < n
            invariant
                self.wf(),
                n == self.states.len(),
                i <= n,
                res.len() == i,
                forall|j: int|
                    #![trigger res[j]]
                    0 <= j < i ==> res[j].0@ == self.index@[j] && self.model@.contains_key(
                        res[j].0@,
                    ) && self.model@[res[j].0@].quote == Some(res[j].1),
            decreases n - i,
        {
            proof {
                assert(self.model@.contains_key(self.index@[i as int]));
            }
            let quote = self.states[i].quote.unwrap();
            let name = self.index.name(i).clone();
            res.push((name, quote));
            i = i + 1;
        }
        proof {
            assert forall|i: int, j: int|
                0 <= i < j < res.len() implies #[trigger] res[i].0@ != #[trigger] res[j].0@ by {
                assert(res[i].0@ == self.index@[i]);
                assert(res[j].0@ == self.index@[j]);
                self.index.lemma_names_distinct(i, j);
            }
            assert forall|symbol: Seq<char>| #[trigger]
                self@.symbols.contains_key(symbol) && self@.symbols[symbol].quote is Some implies exists|
                i: int,
            | 0 <= i < res.len() && #[trigger] res[i].0@ == symbol by {
                let k = choose|k: int| 0 <= k < self.index@.len() && self.index@[k] == symbol;
                assert(res[k].0@ == symbol);
            }
            assert(self@.symbols.dom() =~= self.index@.to_set()) by {
                assert forall|symbol: Seq<char>|
                    self.index@.to_set().contains(symbol) implies self@.symbols.contains_key(
                    symbol,
                ) by {
                    let k = choose|k: int| 0 <= k < self.index@.len() && self.index@[k] == symbol;
                    assert(self.model@.contains_key(self.index@[k]));
                }
            }
            self.index.lemma_no_duplicates();
            self.index@.unique_seq_to_set();
        }
        res
    }

    /// The service-wide counters.
    pub fn stats(&self) -> (res: ServiceStats)
        requires
            self.wf(),
        ensures
            res == self@.stats,
    {
        self.stats
    }
}

impl Default for MarketDataService {
    fn default() -> (res: Self)
        ensures
            res.wf(),
            res@ == ServiceView::initial(),
    {
        MarketDataService::new()
    }
}

} // verus!
