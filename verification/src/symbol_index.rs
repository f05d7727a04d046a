use vstd::prelude::*;

use std::collections::hash_map::DefaultHasher;
use std::collections::HashMap;
use std::hash::Hasher;

use crate::model::Symbol;

verus! {

broadcast use vstd::std_specs::hash::group_hash_axioms;

/// The hash under which a symbol is filed: `DefaultHasher` fed the symbol's UTF-8 bytes.
pub open spec fn symbol_hash(symbol: Seq<char>) -> u64 {
    <DefaultHasher as vstd::std_specs::hash::DefaultHasherAdditionalSpecFns>::spec_finish(
        seq![vstd::utf8::encode_utf8(symbol)],
    )
}

/// Hashes the characters of `symbol`.
pub fn hash_symbol(symbol: &String) -> (res: u64)
    ensures
        res == symbol_hash(symbol@),
{
    let mut hasher = DefaultHasher::new();
    hasher.write(symbol.as_str().as_bytes());
    let res = hasher.finish();
    proof {
        assert(hasher@ =~= seq![vstd::utf8::encode_utf8(symbol@)]);
    }
    res
}

/// Distinct symbol names, numbered in the order they were added, with a hash index from
/// [`symbol_hash`] to the numbers of the names that have that hash.
pub struct SymbolIndex {
    names: Vec<Symbol>,
    buckets: HashMap<u64, Vec<usize>>,
}

impl View for SymbolIndex {
    type V = Seq<Seq<char>>;

    /// The names, by number.
    closed spec fn view(&self) -> Seq<Seq<char>> {
        self.names@.map_values(|name: Symbol| name@)
    }
}

impl SymbolIndex {
    /// No name occurs twice, and the hash index files every number under its name's hash and
    /// nothing else.
    pub closed spec fn wf(&self) -> bool {
        &&& forall|i: int, j: int|
            0 <= i < j < self.names.len() ==> #[trigger] self.names[i]@ != #[trigger] self.names[j]@
        &&& forall|i: int|
            #![trigger self.names[i]]
            0 <= i < self.names.len() ==> self.buckets@.contains_key(symbol_hash(self.names[i]@))
                && self.buckets@[symbol_hash(self.names[i]@)]@.contains(i as usize)
        &&& forall|h: u64, k: int|
            #![trigger self.buckets@[h]@[k]]
            self.buckets@.contains_key(h) && 0 <= k < self.buckets@[h]@.len() ==> {
                let i = self.buckets@[h]@[k];
                &&& i < self.names.len()
                &&& symbol_hash(self.names[i as int]@) == h
            }
    }

    /// No name occurs twice.
    pub proof fn lemma_names_distinct(&self, i: int, j: int)
        requires
            self.wf(),
            0 <= i < j < self@.len(),
        ensures
            self@[i] != self@[j],
    {
        assert(self.names[i]@ != self.names[j]@);
    }

    /// The names, as a sequence, have no duplicates.
    pub proof fn lemma_no_duplicates(&self)
        requires
            self.wf(),
        ensures
            self@.no_duplicates(),
    {
        assert forall|i: int, j: int|
            0 <= i < self@.len() && 0 <= j < self@.len() && i != j implies self@[i] != self@[j] by {
            if i < j {
                self.lemma_names_distinct(i, j);
            } else {
                self.lemma_names_distinct(j, i);
            }
        }
    }

    /// An index with no names.
    pub fn new() -> (res: Self)
        ensures
            res.wf(),
            res@ == Seq::<Seq<char>>::empty(),
    {
        let res = SymbolIndex { names: Vec::new(), buckets: HashMap::new() };
        proof {
            assert(res@ =~= Seq::<Seq<char>>::empty());
        }
        res
    }

    /// The number of names.
    pub fn len(&self) -> (res: usize)
        ensures
            res == self@.len(),
    {
        self.names.len()
    }

    /// The name numbered `i`.
    pub fn name(&self, i: usize) -> (res: &Symbol)
        requires
            i < self@.len(),
        ensures
            res@ == self@[i as int],
    {
        &self.names[i]
    }

    /// The number of the name with the characters of `symbol`, if there is one.
    pub fn find(&self, symbol: &String) -> (res: Option<usize>)
        requires
            self.wf(),
        ensures
            match res {
                Some(i) => i < self@.len() && self@[i as int] == symbol@,
                None => !self@.contains(symbol@),
            },
    {
        let h = hash_symbol(symbol);
        match self.buckets.get(&h) {
            None => {
                proof {
                    if self@.contains(symbol@) {
                        let i = choose|i: int| 0 <= i < self@.len() && self@[i] == symbol@;
                        assert(self.names[i]@ == symbol@);
                    }
                }
                None
            },
            Some(bucket) => {
                let mut k: usize = 0;
                while k < bucket.len()
                    invariant
                        self.wf(),
                        self.buckets@.contains_key(h),
                        self.buckets@[h] == *bucket,
                        h == symbol_hash(symbol@),
                        k <= bucket@.len(),
                        forall|m: int|
                            0 <= m < k ==> self.names[#[trigger] bucket@[m] as int]@ != symbol@,
                    decreases bucket@.len() - k,
                {
                    let i = bucket[k];
                    proof {
                        assert(self.buckets@[h]@[k as int] == i);
                    }
                    if self.names[i].0 == *symbol {
                        proof {
                            assert(self@[i as int] == self.names[i as int]@);
                        }
                        return Some(i);
                    }
                    k = k + 1;
                }
                proof {
                    if self@.contains(symbol@) {
                        let i = choose|i: int| 0 <= i < self@.len() && self@[i] == symbol@;
                        assert(self.names[i]@ == symbol@);
                        assert(self.buckets@[h]@.contains(i as usize));
                        let m = choose|m: int| 0 <= m < bucket@.len() && bucket@[m] == i as usize;
                        assert(self.names[bucket@[m] as int]@ != symbol@);
                    }
                }
                None
            },
        }
    }

    /// Adds a name that is not in the index yet; it gets the next number.
    pub fn push(&mut self, name: Symbol)
        requires
            old(self).wf(),
            !old(self)@.contains(name@),
        ensures
            final(self).wf(),
            final(self)@ == old(self)@.push(name@),
    {
        let ghost old_names = self.names@;
        let ghost old_buckets = self.buckets@;
        let n = self.names.len();
        let h = hash_symbol(&name.0);
        let mut bucket = match self.buckets.remove(&h) {
            Some(bucket) => bucket,
            None => Vec::new(),
        };
        let ghost old_bucket = bucket@;
        bucket.push(n);
        self.buckets.insert(h, bucket);
        self.names.push(name);
        proof {
            assert(self@ =~= old(self)@.push(name@));
            assert forall|i: int, j: int|
                0 <= i < j < self.names.len() implies #[trigger] self.names[i]@
                != #[trigger] self.names[j]@ by {
                if j == n {
                    assert(old(self)@[i] == old_names[i]@);
                }
            }
            assert forall|i: int|
                #![trigger self.names[i]]
                0 <= i < self.names.len() implies self.buckets@.contains_key(
                symbol_hash(self.names[i]@),
            ) && self.buckets@[symbol_hash(self.names[i]@)]@.contains(i as usize) by {
                if i < n {
                    assert(self.names[i] == old_names[i]);
                    assert(old_buckets.contains_key(symbol_hash(old_names[i]@)));
                    if symbol_hash(old_names[i]@) == h {
                        assert(old_bucket == old_buckets[h]@);
                        let m = choose|m: int|
                            0 <= m < old_bucket.len() && old_bucket[m] == i as usize;
                        assert(self.buckets@[h]@[m] == i as usize);
                    }
                } else {
                    assert(self.buckets@[h]@[old_bucket.len() as int] == n);
                }
            }
            assert forall|g: u64, k: int|
                #![trigger self.buckets@[g]@[k]]
                self.buckets@.contains_key(g) && 0 <= k < self.buckets@[g]@.len() implies {
                let i = self.buckets@[g]@[k];
                &&& i < self.names.len()
                &&& symbol_hash(self.names[i as int]@) == g
            } by {
                if g == h {
                    if k < old_bucket.len() {
                        assert(old_buckets.contains_key(h));
                        assert(old_bucket == old_buckets[h]@);
                        assert(old_buckets[h]@[k] == self.buckets@[g]@[k]);
                    }
                } else {
                    assert(old_buckets.contains_key(g));
                    assert(old_buckets[g]@[k] == self.buckets@[g]@[k]);
                }
            }
        }
    }
}

} // verus!
