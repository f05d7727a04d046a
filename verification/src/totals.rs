//! Sums of per-symbol counters over all known symbols.

use vstd::prelude::*;

use crate::sequencing::SymbolState;

verus! {

/// The sum of `f` over the states of all symbols in `symbols`.
pub open spec fn total(symbols: Map<Seq<char>, SymbolState>, f: spec_fn(SymbolState) -> int) -> int
    decreases symbols.dom().len(),
    when symbols.dom().finite()
{
    if symbols.dom().len() == 0 {
        0
    } else {
        let k = symbols.dom().choose();
        f(symbols[k]) + total(symbols.remove(k), f)
    }
}

/// The sum of the duplicate counts of all symbols.
pub open spec fn total_duplicates(symbols: Map<Seq<char>, SymbolState>) -> int {
    total(symbols, |state: SymbolState| state.status.duplicate_count as int)
}

/// The sum of the gap counts of all symbols.
pub open spec fn total_gaps(symbols: Map<Seq<char>, SymbolState>) -> int {
    total(symbols, |state: SymbolState| state.status.gap_count as int)
}

/// The sum can be split at any symbol.
pub proof fn lemma_total_remove(
    symbols: Map<Seq<char>, SymbolState>,
    f: spec_fn(SymbolState) -> int,
    k: Seq<char>,
)
    requires
        symbols.dom().finite(),
        symbols.contains_key(k),
    ensures
        total(symbols, f) == f(symbols[k]) + total(symbols.remove(k), f),
    decreases symbols.dom().len(),
{
    let c = symbols.dom().choose();
    assert(symbols.dom().contains(c));
    if c != k {
        let without_c = symbols.remove(c);
        let without_k = symbols.remove(k);
        lemma_total_remove(without_c, f, k);
        lemma_total_remove(without_k, f, c);
        assert(without_c.remove(k) =~= without_k.remove(c));
    }
}

/// The sum after one symbol's state is replaced or added.
pub proof fn lemma_total_insert(
    symbols: Map<Seq<char>, SymbolState>,
    f: spec_fn(SymbolState) -> int,
    k: Seq<char>,
    state: SymbolState,
)
    requires
        symbols.dom().finite(),
    ensures
        total(symbols.insert(k, state), f) == total(symbols, f) + f(state) - (if symbols.contains_key(
            k,
        ) {
            f(symbols[k])
        } else {
            0
        }),
{
    let inserted = symbols.insert(k, state);
    lemma_total_remove(inserted, f, k);
    if symbols.contains_key(k) {
        lemma_total_remove(symbols, f, k);
        assert(inserted.remove(k) =~= symbols.remove(k));
    } else {
        assert(inserted.remove(k) =~= symbols);
    }
}

} // verus!
