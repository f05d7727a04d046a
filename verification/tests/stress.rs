use md_hotpath::{MarketDataService, MdEvent, QuoteUpdate};

fn update(symbol_idx: usize, seq: u64) -> QuoteUpdate {
    let symbol = format!("SYM{:05}", symbol_idx);
    let bid = 10_000 + symbol_idx as i64 + seq as i64;
    QuoteUpdate::new(symbol, seq, bid, bid + 1)
}

#[test]
fn burst_profile_smoke() {
    const SYMBOLS: usize = 20_000;
    const UPDATES: usize = 200_000;

    let mut service = MarketDataService::new();
    let mut next_seq = vec![0_u64; SYMBOLS];

    // Prime every symbol so the final snapshot-size assertion is deterministic.
    for (symbol_idx, seq) in next_seq.iter_mut().enumerate() {
        *seq += 1;
        service
            .apply_event(MdEvent::Incremental(update(symbol_idx, *seq)))
            .unwrap();
    }

    for i in SYMBOLS..UPDATES {
        // A skewed profile: every 10th update hits a hot subset of 128 symbols; the rest is
        // spread across the full universe.
        let symbol_idx = if i % 10 == 0 { i % 128 } else { i % SYMBOLS };
        next_seq[symbol_idx] += 1;
        service
            .apply_event(MdEvent::Incremental(update(symbol_idx, next_seq[symbol_idx])))
            .unwrap();
    }

    let stats = service.stats();
    let snapshot_size = service.snapshot().len();

    assert_eq!(
        stats.events_seen as usize, UPDATES,
        "run must drain all events"
    );
    assert_eq!(stats.gaps, 0, "generated stream is gap-free per symbol");
    assert_eq!(snapshot_size, SYMBOLS, "all symbols should have a quote");
}
