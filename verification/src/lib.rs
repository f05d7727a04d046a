//! Per-symbol market-data sequencing: a service that keeps the latest top-of-book quote of each
//! symbol, applies incremental updates only in sequence, ignores duplicates and stale updates,
//! detects gaps, and recovers through snapshots.

pub mod clock;
pub mod laws;
pub mod model;
pub mod sequencing;
pub mod service;
pub mod symbol_index;
pub mod totals;

pub use model::{
    MdError, MdEvent, Quote, QuoteUpdate, ServiceStats, Symbol, SymbolHealth, SymbolStatus,
};
pub use sequencing::{
    apply_to_state, classify_event, quote_from_update, EventTransition, SymbolState,
};
pub use service::{MarketDataService, ServiceView};
