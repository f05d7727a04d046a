use std::collections::hash_map::DefaultHasher;
use std::hash::Hasher;

use md_hotpath::clock::{saturating_nanos, wall_clock_ns};
use md_hotpath::symbol_index::{hash_symbol, SymbolIndex};
use md_hotpath::{
    apply_to_state, classify_event, quote_from_update, EventTransition, MarketDataService,
    MdError, MdEvent, Quote, QuoteUpdate, ServiceStats, Symbol, SymbolHealth, SymbolState,
    SymbolStatus,
};

fn known(last_seq: u64) -> SymbolState {
    SymbolState {
        quote: Some(Quote {
            bid_px: 1,
            bid_qty: 1,
            ask_px: 2,
            ask_qty: 1,
            seq: last_seq,
            updated_at_ns: 0,
        }),
        status: SymbolStatus {
            health: SymbolHealth::Live,
            last_seq,
            duplicate_count: 0,
            gap_count: 0,
        },
    }
}

fn unseen() -> SymbolState {
    SymbolState {
        quote: None,
        status: SymbolStatus::default(),
    }
}

#[test]
fn classify_covers_every_branch() {
    assert_eq!(classify_event(true, 1, &known(5)), EventTransition::Apply);
    assert_eq!(classify_event(false, 1, &unseen()), EventTransition::Apply);
    assert_eq!(classify_event(false, 5, &known(5)), EventTransition::Duplicate);
    assert_eq!(classify_event(false, 4, &known(5)), EventTransition::Duplicate);
    assert_eq!(classify_event(false, 6, &known(5)), EventTransition::Apply);
    assert_eq!(classify_event(false, 7, &known(5)), EventTransition::Gap);
    assert_eq!(
        classify_event(false, u64::MAX, &known(u64::MAX)),
        EventTransition::Duplicate
    );
    assert_eq!(classify_event(false, u64::MAX, &known(0)), EventTransition::Gap);
}

#[test]
fn quote_from_update_copies_the_book_and_stamps_time() {
    let update = QuoteUpdate::new("IBM", 9, 150_00, 150_02).with_qty(3, 4);
    let quote = quote_from_update(&update, 1234);
    assert_eq!(
        quote,
        Quote {
            bid_px: 150_00,
            bid_qty: 3,
            ask_px: 150_02,
            ask_qty: 4,
            seq: 9,
            updated_at_ns: 1234,
        }
    );
}

#[test]
fn apply_to_state_updates_counters_per_transition() {
    let mut state = known(5);
    let stale = QuoteUpdate::new("IBM", 3, 1, 2);
    assert_eq!(
        apply_to_state(&mut state, false, &stale, 7),
        EventTransition::Duplicate
    );
    assert_eq!(state.status.duplicate_count, 1);
    assert_eq!(state.quote.unwrap().seq, 5);

    let skip = QuoteUpdate::new("IBM", 9, 1, 2);
    assert_eq!(apply_to_state(&mut state, false, &skip, 7), EventTransition::Gap);
    assert_eq!(state.status.gap_count, 1);
    assert_eq!(state.status.health, SymbolHealth::Stale);
    assert_eq!(state.status.last_seq, 5);

    let next = QuoteUpdate::new("IBM", 6, 10, 20);
    assert_eq!(apply_to_state(&mut state, false, &next, 8), EventTransition::Apply);
    assert_eq!(state.status.health, SymbolHealth::Stale);
    assert_eq!(state.status.last_seq, 6);
    assert_eq!(state.quote.unwrap().updated_at_ns, 8);
    assert_eq!(state.status.duplicate_count, 1);
    assert_eq!(state.status.gap_count, 1);
}

#[test]
fn snapshot_applies_even_backwards() {
    let mut service = MarketDataService::new();
    service
        .apply_event_at(MdEvent::Incremental(QuoteUpdate::new("AAPL", 10, 1, 2)), 5)
        .unwrap();
    service
        .apply_event_at(MdEvent::Snapshot(QuoteUpdate::new("AAPL", 3, 7, 8)), 6)
        .unwrap();
    let quote = service.get_quote("AAPL").unwrap();
    assert_eq!(quote.seq, 3);
    assert_eq!(quote.bid_px, 7);
    assert_eq!(quote.updated_at_ns, 6);
    assert_eq!(service.symbol_status("AAPL").last_seq, 3);
    assert_eq!(service.stats().snapshots, 1);
    assert_eq!(service.stats().applied, 2);
}

#[test]
fn redelivered_incremental_is_a_duplicate() {
    let mut service = MarketDataService::new();
    let event = MdEvent::Incremental(QuoteUpdate::new("AAPL", 1, 100, 101));
    service.apply_event_at(event.clone(), 10).unwrap();
    let first = service.get_quote("AAPL").unwrap();
    service.apply_event_at(event, 20).unwrap();
    assert_eq!(service.get_quote("AAPL").unwrap(), first);
    assert_eq!(first.updated_at_ns, 10);
    let status = service.symbol_status("AAPL");
    assert_eq!(status.duplicate_count, 1);
    assert_eq!(status.health, SymbolHealth::Live);
    assert_eq!(service.stats().duplicates, 1);
    assert_eq!(service.stats().applied, 1);
}

#[test]
fn stale_symbol_recovers_only_through_a_snapshot() {
    let mut service = MarketDataService::new();
    service
        .apply_event_at(MdEvent::Incremental(QuoteUpdate::new("AAPL", 1, 1, 2)), 1)
        .unwrap();
    service
        .apply_event_at(MdEvent::Incremental(QuoteUpdate::new("AAPL", 5, 1, 2)), 2)
        .unwrap();
    service
        .apply_event_at(MdEvent::Incremental(QuoteUpdate::new("AAPL", 6, 1, 2)), 3)
        .unwrap();
    assert_eq!(service.symbol_status("AAPL").health, SymbolHealth::Stale);
    assert_eq!(service.symbol_status("AAPL").gap_count, 2);
    service
        .apply_event_at(MdEvent::Incremental(QuoteUpdate::new("AAPL", 2, 9, 10)), 4)
        .unwrap();
    let status = service.symbol_status("AAPL");
    assert_eq!(status.health, SymbolHealth::Stale);
    assert_eq!(status.last_seq, 2);
    assert_eq!(service.get_quote("AAPL").unwrap().bid_px, 9);

    service
        .apply_event_at(MdEvent::Incremental(QuoteUpdate::new("AAPL", 3, 11, 12)), 5)
        .unwrap();
    assert_eq!(service.symbol_status("AAPL").health, SymbolHealth::Stale);
    assert_eq!(service.symbol_status("AAPL").last_seq, 3);

    service
        .apply_event_at(MdEvent::Snapshot(QuoteUpdate::new("AAPL", 7, 13, 14)), 6)
        .unwrap();
    let status = service.symbol_status("AAPL");
    assert_eq!(status.health, SymbolHealth::Live);
    assert_eq!(status.last_seq, 7);
    assert_eq!(status.gap_count, 2);
}

#[test]
fn unknown_symbol_has_initial_status_and_no_quote() {
    let mut service = MarketDataService::new();
    service
        .apply_event_at(MdEvent::Incremental(QuoteUpdate::new("AAPL", 1, 1, 2)), 1)
        .unwrap();
    assert_eq!(service.get_quote("MSFT"), None);
    assert_eq!(service.get_quote("AAP"), None);
    assert_eq!(service.symbol_status("MSFT"), SymbolStatus::default());
    assert_eq!(service.symbol_status("MSFT").health, SymbolHealth::Unknown);
}

#[test]
fn stats_count_every_event_once() {
    let mut service = MarketDataService::default();
    assert_eq!(service.stats(), ServiceStats::default());
    let events = [
        MdEvent::Incremental(QuoteUpdate::new("A", 1, 1, 2)),
        MdEvent::Incremental(QuoteUpdate::new("A", 1, 1, 2)),
        MdEvent::Incremental(QuoteUpdate::new("A", 3, 1, 2)),
        MdEvent::Snapshot(QuoteUpdate::new("A", 3, 1, 2)),
        MdEvent::Incremental(QuoteUpdate::new("B", 7, 1, 2)),
    ];
    for event in events {
        service.apply_event_at(event, 0).unwrap();
    }
    let stats = service.stats();
    assert_eq!(
        stats,
        ServiceStats {
            events_seen: 5,
            applied: 3,
            duplicates: 1,
            gaps: 1,
            snapshots: 1,
        }
    );
    assert_eq!(stats.applied + stats.duplicates + stats.gaps, stats.events_seen);
}

#[test]
fn snapshot_lists_each_symbol_once() {
    let mut service = MarketDataService::new();
    assert!(service.snapshot().is_empty());
    service
        .apply_event_at(MdEvent::Incremental(QuoteUpdate::new("AAPL", 1, 10, 11)), 1)
        .unwrap();
    service
        .apply_event_at(MdEvent::Incremental(QuoteUpdate::new("MSFT", 4, 20, 21)), 2)
        .unwrap();
    service
        .apply_event_at(MdEvent::Incremental(QuoteUpdate::new("AAPL", 2, 12, 13)), 3)
        .unwrap();
    let mut all = service.snapshot();
    all.sort_by(|a, b| a.0.cmp(&b.0));
    assert_eq!(all.len(), 2);
    assert_eq!(all[0].0.as_str(), "AAPL");
    assert_eq!(all[0].1.seq, 2);
    assert_eq!(all[0].1.bid_px, 12);
    assert_eq!(all[1].0.as_str(), "MSFT");
    assert_eq!(all[1].1.seq, 4);
}

#[test]
fn apply_event_stamps_a_clock_reading() {
    let mut service = MarketDataService::new();
    service
        .apply_event(MdEvent::Incremental(QuoteUpdate::new("AAPL", 1, 10, 11)))
        .unwrap();
    let quote = service.get_quote("AAPL").unwrap();
    assert!(quote.updated_at_ns > 0);
    assert!(wall_clock_ns() >= quote.updated_at_ns);
}

#[test]
fn nanos_saturate_at_u64_max() {
    assert_eq!(saturating_nanos(0), 0);
    assert_eq!(saturating_nanos(12345), 12345);
    assert_eq!(saturating_nanos(u64::MAX as u128), u64::MAX);
    assert_eq!(saturating_nanos(u64::MAX as u128 + 1), u64::MAX);
    assert_eq!(saturating_nanos(u128::MAX), u64::MAX);
}

#[test]
fn model_accessors() {
    let update = QuoteUpdate::new("AAPL", 42, 100, 105);
    assert_eq!(update.symbol.as_str(), "AAPL");
    assert_eq!((update.bid_qty, update.ask_qty, update.exchange_ts_ns), (1, 1, 0));
    let sized = update.clone().with_qty(10, 11);
    assert_eq!((sized.bid_qty, sized.ask_qty), (10, 11));
    assert_eq!((sized.bid_px, sized.ask_px, sized.seq), (100, 105, 42));

    let snapshot = MdEvent::Snapshot(update.clone());
    let incremental = MdEvent::Incremental(QuoteUpdate::new("MSFT", 7, 1, 2));
    assert_eq!(snapshot.symbol().as_str(), "AAPL");
    assert_eq!(snapshot.seq(), 42);
    assert_eq!(incremental.symbol().as_str(), "MSFT");
    assert_eq!(incremental.seq(), 7);

    assert_eq!(Symbol::from(String::from("IBM")).as_str(), "IBM");
    assert_eq!(Symbol::from("IBM").as_str(), "IBM");
    assert_eq!(
        QuoteUpdate::new(String::from("IBM"), 1, 2, 3).symbol,
        QuoteUpdate::new(Symbol::from("IBM"), 1, 2, 3).symbol
    );
    assert_eq!(SymbolHealth::default(), SymbolHealth::Unknown);
    assert_eq!(
        MdError::ChannelClosed.message(),
        "market-data channel is closed"
    );
}

#[test]
fn service_counters_are_sums_of_symbol_counters() {
    let mut service = MarketDataService::new();
    let feed = [
        ("A", 1),
        ("B", 5),
        ("A", 1),
        ("A", 4),
        ("B", 5),
        ("B", 4),
        ("C", 9),
        ("B", 8),
        ("A", 2),
    ];
    for (symbol, seq) in feed {
        service
            .apply_event_at(MdEvent::Incremental(QuoteUpdate::new(symbol, seq, 1, 2)), 0)
            .unwrap();
    }
    let stats = service.stats();
    let symbols = ["A", "B", "C"];
    let duplicates: u64 = symbols
        .iter()
        .map(|s| service.symbol_status(*s).duplicate_count)
        .sum();
    let gaps: u64 = symbols.iter().map(|s| service.symbol_status(*s).gap_count).sum();
    assert_eq!(duplicates, 3);
    assert_eq!(gaps, 2);
    assert_eq!(stats.duplicates, duplicates);
    assert_eq!(stats.gaps, gaps);
    assert_eq!(stats.applied, 4);
    assert!(service.snapshot().len() as u64 <= stats.applied);
    assert_eq!(service.symbol_status("A").last_seq, 2);
    assert_eq!(service.symbol_status("A").health, SymbolHealth::Stale);
    assert_eq!(service.symbol_status("B").health, SymbolHealth::Stale);
}

#[test]
fn symbol_hash_is_default_hasher_over_utf8_bytes() {
    let name = String::from("ÄPFEL");
    let mut hasher = DefaultHasher::new();
    hasher.write(name.as_bytes());
    assert_eq!(hash_symbol(&name), hasher.finish());
    assert_eq!(
        hash_symbol(&name),
        hash_symbol(&String::from("ÄPFEL"))
    );
    assert_ne!(
        hash_symbol(&name),
        hash_symbol(&String::from("APFEL"))
    );
}

#[test]
fn symbol_index_numbers_names_in_order() {
    let mut index = SymbolIndex::new();
    assert_eq!(index.len(), 0);
    assert_eq!(index.find(&String::from("AAPL")), None);
    index.push(Symbol(String::from("AAPL")));
    index.push(Symbol(String::from("MSFT")));
    assert_eq!(index.len(), 2);
    assert_eq!(index.find(&String::from("MSFT")), Some(1));
    assert_eq!(index.find(&String::from("AAPL")), Some(0));
    assert_eq!(index.find(&String::from("IBM")), None);
    assert_eq!(index.name(1).as_str(), "MSFT");
}

#[test]
fn known_symbols_are_exactly_the_event_symbols() {
    let mut service = MarketDataService::new();
    let feed = [
        MdEvent::Incremental(QuoteUpdate::new("A", 3, 1, 2)),
        MdEvent::Snapshot(QuoteUpdate::new("B", 1, 1, 2)),
        MdEvent::Incremental(QuoteUpdate::new("A", 1, 1, 2)),
        MdEvent::Incremental(QuoteUpdate::new("C", 9, 1, 2)),
        MdEvent::Incremental(QuoteUpdate::new("A", 7, 1, 2)),
    ];
    for event in feed {
        service.apply_event_at(event, 0).unwrap();
    }
    assert_eq!(service.snapshot().len(), 3);
    for symbol in ["A", "B", "C"] {
        assert_ne!(service.symbol_status(symbol).health, SymbolHealth::Unknown);
        let quote = service.get_quote(symbol).unwrap();
        assert_eq!(quote.seq, service.symbol_status(symbol).last_seq);
    }
    assert_eq!(service.symbol_status("D"), SymbolStatus::default());
    assert_eq!(service.get_quote("D"), None);
    assert_eq!(service.stats().events_seen, 5);
    assert_eq!(service.stats().snapshots, 1);
}
