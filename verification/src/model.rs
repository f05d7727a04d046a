use vstd::prelude::*;

verus! {

/// Wire-level symbol name, such as `"AAPL"`.
///
/// A symbol is identified by its characters: two symbols name the same instrument exactly when
/// their views are equal.
#[derive(Debug, Hash, PartialEq, Eq, PartialOrd, Ord)]
pub struct Symbol(pub String);

impl View for Symbol {
    type V = Seq<char>;

    open spec fn view(&self) -> Seq<char> {
        self.0@
    }
}

impl Clone for Symbol {
    fn clone(&self) -> (res: Self)
        ensures
            res == *self,
    {
        Symbol(self.0.clone())
    }
}

impl Symbol {
    /// The symbol's name.
    pub fn as_str(&self) -> (res: &str)
        ensures
            res@ == self@,
    {
        self.0.as_str()
    }
}

impl From<String> for Symbol {
    fn from(value: String) -> (res: Self)
        ensures
            res == Symbol(value),
    {
        Symbol(value)
    }
}

impl<'a> From<&'a str> for Symbol {
    fn from(value: &'a str) -> (res: Self)
        ensures
            res@ == value@,
    {
        Symbol(value.to_owned())
    }
}

/// A symbol made from a `&str` has the string's characters (stated on `from` above), but is no
/// spec function of the argument: two `String`s with the same characters are not known to be
/// one value, so this conversion does not claim to follow `from_spec`.
impl<'a> vstd::std_specs::convert::FromSpecImpl<&'a str> for Symbol {
    open spec fn obeys_from_spec() -> bool {
        false
    }

    open spec fn from_spec(v: &'a str) -> Symbol {
        choose|symbol: Symbol| symbol@ == v@
    }
}

impl vstd::std_specs::convert::FromSpecImpl<String> for Symbol {
    open spec fn obeys_from_spec() -> bool {
        true
    }

    open spec fn from_spec(v: String) -> Symbol {
        Symbol(v)
    }
}

/// Full top-of-book quote stored by the service.
#[derive(Clone, Copy, Debug, Default, PartialEq, Eq, Structural)]
pub struct Quote {
    pub bid_px: i64,
    pub bid_qty: i64,
    pub ask_px: i64,
    pub ask_qty: i64,
    pub seq: u64,
    pub updated_at_ns: u64,
}

/// Incoming full top-of-book quote update.
///
/// Every message carries a complete top-of-book quote; the service still enforces per-symbol
/// sequence semantics: duplicates and stale updates are ignored, gaps are detected, and recovery
/// requires a snapshot.
#[derive(Clone, Debug, PartialEq, Eq)]
pub struct QuoteUpdate {
    pub symbol: Symbol,
    pub bid_px: i64,
    pub bid_qty: i64,
    pub ask_px: i64,
    pub ask_qty: i64,
    pub seq: u64,
    pub exchange_ts_ns: u64,
}

impl QuoteUpdate {
    /// An update for `symbol` (converted to a [`Symbol`]) with unit quantities on both sides and a zero exchange timestamp.
    pub fn new<S: Into<Symbol>>(symbol: S, seq: u64, bid_px: i64, ask_px: i64) -> (res: Self)
        ensures
            call_ensures(S::into, (symbol,), res.symbol),
            res.seq == seq,
            res.bid_px == bid_px,
            res.ask_px == ask_px,
            res.bid_qty == 1,
            res.ask_qty == 1,
            res.exchange_ts_ns == 0,
    {
        QuoteUpdate {
            symbol: symbol.into(),
            bid_px,
            bid_qty: 1,
            ask_px,
            ask_qty: 1,
            seq,
            exchange_ts_ns: 0,
        }
    }

    /// The same update with the given bid and ask quantities.
    pub fn with_qty(self, bid_qty: i64, ask_qty: i64) -> (res: Self)
        ensures
            res == (QuoteUpdate { bid_qty, ask_qty, ..self }),
    {
        let mut update = self;
        update.bid_qty = bid_qty;
        update.ask_qty = ask_qty;
        update
    }
}

/// Market-data event.
///
/// `Incremental` is applied only when `seq == last_seq + 1`, except the first incremental for a
/// previously unseen symbol, which establishes the initial state.
///
/// `Snapshot` is an explicit recovery boundary: it replaces the current state, clears the stale
/// status, and sets `last_seq = snapshot.seq`.
#[derive(Clone, Debug, PartialEq, Eq)]
pub enum MdEvent {
    Incremental(QuoteUpdate),
    Snapshot(QuoteUpdate),
}

impl MdEvent {
    /// The update that the event carries.
    pub open spec fn update(self) -> QuoteUpdate {
        match self {
            MdEvent::Incremental(update) => update,
            MdEvent::Snapshot(update) => update,
        }
    }

    /// Whether the event is a snapshot.
    pub open spec fn is_snapshot(self) -> bool {
        self is Snapshot
    }

    pub fn symbol(&self) -> (res: &Symbol)
        ensures
            *res == self.update().symbol,
    {
        match self {
            MdEvent::Incremental(update) => &update.symbol,
            MdEvent::Snapshot(update) => &update.symbol,
        }
    }

    pub fn seq(&self) -> (res: u64)
        ensures
            res == self.update().seq,
    {
        match self {
            MdEvent::Incremental(update) => update.seq,
            MdEvent::Snapshot(update) => update.seq,
        }
    }
}

/// Health of one symbol's state.
#[derive(Clone, Copy, Debug, PartialEq, Eq, Structural)]
pub enum SymbolHealth {
    /// No event has been applied for this symbol yet.
    Unknown,
    /// Latest state is usable.
    Live,
    /// A gap was seen; only a snapshot makes the symbol live again. Incrementals that continue
    /// the sequence are still stored meanwhile, but do not clear this status.
    Stale,
}

impl Default for SymbolHealth {
    fn default() -> (res: Self)
        ensures
            res == SymbolHealth::Unknown,
    {
        SymbolHealth::Unknown
    }
}

/// Sequencing status of one symbol.
#[derive(Clone, Copy, Debug, PartialEq, Eq, Structural)]
pub struct SymbolStatus {
    pub health: SymbolHealth,
    pub last_seq: u64,
    pub duplicate_count: u64,
    pub gap_count: u64,
}

impl SymbolStatus {
    /// The status of a symbol for which no event has been seen.
    pub open spec fn initial() -> SymbolStatus {
        SymbolStatus { health: SymbolHealth::Unknown, last_seq: 0, duplicate_count: 0, gap_count: 0 }
    }
}

impl Default for SymbolStatus {
    fn default() -> (res: Self)
        ensures
            res == SymbolStatus::initial(),
            res.health == SymbolHealth::Unknown,
            res.last_seq == 0,
            res.duplicate_count == 0,
            res.gap_count == 0,
    {
        SymbolStatus {
            health: SymbolHealth::default(),
            last_seq: 0,
            duplicate_count: 0,
            gap_count: 0,
        }
    }
}

/// Counters over all events the service has processed.
#[derive(Clone, Copy, Debug, PartialEq, Eq, Structural)]
pub struct ServiceStats {
    pub events_seen: u64,
    pub applied: u64,
    pub duplicates: u64,
    pub gaps: u64,
    pub snapshots: u64,
}

impl ServiceStats {
    /// All counters zero.
    pub open spec fn zero() -> ServiceStats {
        ServiceStats { events_seen: 0, applied: 0, duplicates: 0, gaps: 0, snapshots: 0 }
    }
}

impl Default for ServiceStats {
    fn default() -> (res: Self)
        ensures
            res == ServiceStats::zero(),
            res.events_seen == 0,
            res.applied == 0,
            res.duplicates == 0,
            res.gaps == 0,
            res.snapshots == 0,
    {
        ServiceStats { events_seen: 0, applied: 0, duplicates: 0, gaps: 0, snapshots: 0 }
    }
}

/// Errors of the market-data service.
#[derive(Clone, Debug, PartialEq, Eq, Structural)]
pub enum MdError {
    /// The event channel was closed.
    ChannelClosed,
}

impl MdError {
    /// Human-readable description of the error.
    pub fn message(&self) -> (res: &'static str)
        ensures
            res@ == "market-data channel is closed"@,
    {
        match self {
            MdError::ChannelClosed => "market-data channel is closed",
        }
    }
}

} // verus!
