//! A table of values held in the order of their keys.
//!
//! Keys and values sit in two parallel vectors. The keys are strictly
//! increasing, so no key occurs twice and a key is found by bisection.
use vstd::prelude::*;

verus! {

/// A key whose view carries a strict total order.
pub trait TableKey: View + Sized {
    /// Whether `a` stands strictly before `b`.
    spec fn precedes(a: Self::V, b: Self::V) -> bool;

    /// `precedes` is irreflexive, transitive and total.
    proof fn order_laws(a: Self::V, b: Self::V, c: Self::V)
        ensures
            !Self::precedes(a, a),
            Self::precedes(a, b) && Self::precedes(b, c) ==> Self::precedes(a, c),
            a == b || Self::precedes(a, b) || Self::precedes(b, a),
    ;

    /// Decides `precedes` on two keys.
    fn before(&self, other: &Self) -> (r: bool)
        ensures
            r == Self::precedes(self@, other@),
    ;
}

/// Whether every element of `ranks` precedes all later ones.
pub open spec fn increasing<K: TableKey>(ranks: Seq<K::V>) -> bool {
    forall|i: int, j: int| 0 <= i < j < ranks.len() ==> K::precedes(#[trigger] ranks[i], #[trigger] ranks[j])
}

/// The views of `keys`, in the same order.
pub open spec fn ranks_of<K: TableKey>(keys: Seq<K>) -> Seq<K::V> {
    Seq::new(keys.len(), |i: int| keys[i]@)
}

/// The map that results from writing `values[i]` under `ranks[i]` for
/// `i = 0, 1, ..` in turn: of two entries with one key the later stays.
pub open spec fn written<R, V>(ranks: Seq<R>, values: Seq<V>) -> Map<R, V>
    recommends
        ranks.len() == values.len(),
    decreases ranks.len(),
{
    if ranks.len() == 0 {
        Map::empty()
    } else {
        written(ranks.drop_last(), values.drop_last()).insert(ranks.last(), values.last())
    }
}

/// Where no key occurs twice, the order of writing does not matter: every
/// key holds the value it was given, and nothing else is in the map.
pub proof fn lemma_written_distinct<R, V>(ranks: Seq<R>, values: Seq<V>)
    requires
        ranks.len() == values.len(),
        ranks.no_duplicates(),
    ensures
        written(ranks, values).dom() == ranks.to_set(),
        forall|i: int| 0 <= i < ranks.len() ==> written(ranks, values)[#[trigger] ranks[i]] == values[i],
    decreases ranks.len(),
{
    if ranks.len() == 0 {
        assert(written(ranks, values).dom() =~= ranks.to_set());
    } else {
        let front = ranks.drop_last();
        lemma_written_distinct(front, values.drop_last());
        assert forall|k: R| written(ranks, values).dom().contains(k) == ranks.to_set().contains(k) by {
            if k == ranks.last() {
                assert(ranks[ranks.len() - 1] == k);
            } else {
                if front.to_set().contains(k) {
                    let i = choose|i: int| 0 <= i < front.len() && front[i] == k;
                    assert(ranks[i] == k);
                }
                if ranks.to_set().contains(k) {
                    let i = choose|i: int| 0 <= i < ranks.len() && ranks[i] == k;
                    assert(front[i] == k);
                }
            }
        }
        assert(written(ranks, values).dom() =~= ranks.to_set());
        assert forall|i: int| 0 <= i < ranks.len() implies written(ranks, values)[#[trigger] ranks[i]]
            == values[i] by {
            if i < ranks.len() - 1 {
                assert(front[i] == ranks[i]);
                assert(ranks[i] != ranks[ranks.len() - 1]);
            }
        }
    }
}

/// Writing values and then changing each by `change` gives the same map
/// as writing the changed values.
pub proof fn lemma_written_map_values<R, V, W>(ranks: Seq<R>, values: Seq<V>, change: spec_fn(V) -> W)
    requires
        ranks.len() == values.len(),
    ensures
        written(ranks, values).map_values(change) == written(ranks, values.map_values(change)),
    decreases ranks.len(),
{
    if ranks.len() == 0 {
        assert(written(ranks, values).map_values(change) =~= written(ranks, values.map_values(change)));
    } else {
        lemma_written_map_values(ranks.drop_last(), values.drop_last(), change);
        assert(values.map_values(change).drop_last() =~= values.drop_last().map_values(change));
        assert(written(ranks, values).map_values(change) =~= written(ranks, values.map_values(change)));
    }
}

/// Values under keys, held in the order of the keys.
#[derive(Debug)]
pub struct Table<K: TableKey, V> {
    keys: Vec<K>,
    values: Vec<V>,
}

/// Finds `key` among the increasing `keys`: its position if it is there,
/// else the position at which it would have to be put.
fn locate<K: TableKey>(keys: &Vec<K>, key: &K) -> (r: (usize, bool))
    requires
        increasing::<K>(ranks_of(keys@)),
    ensures
        r.0 <= keys.len(),
        r.1 ==> r.0 < keys.len() && keys[r.0 as int]@ == key@,
        !r.1 ==> forall|i: int| 0 <= i < r.0 ==> K::precedes(#[trigger] keys[i]@, key@),
        !r.1 ==> forall|i: int| r.0 <= i < keys.len() ==> K::precedes(key@, #[trigger] keys[i]@),
{
    let ghost ranks = ranks_of(keys@);
    let mut low: usize = 0;
    let mut high: usize = keys.len();
    while low < high
        invariant
            low <= high <= keys.len(),
            ranks == ranks_of(keys@),
            increasing::<K>(ranks),
            forall|i: int| 0 <= i < low ==> K::precedes(#[trigger] keys[i]@, key@),
            forall|i: int| high <= i < keys.len() ==> K::precedes(key@, #[trigger] keys[i]@),
        decreases high - low,
    {
        let mid: usize = low + (high - low) / 2;
        if keys[mid].before(key) {
            assert forall|i: int| 0 <= i < mid + 1 implies K::precedes(#[trigger] keys[i]@, key@) by {
                if i < mid {
                    assert(K::precedes(ranks[i], ranks[mid as int]));
                    K::order_laws(keys[i]@, keys[mid as int]@, key@);
                }
            }
            low = mid + 1;
        } else if key.before(&keys[mid]) {
            assert forall|i: int| mid <= i < keys.len() implies K::precedes(key@, #[trigger] keys[i]@) by {
                if mid < i {
                    assert(K::precedes(ranks[mid as int], ranks[i]));
                    K::order_laws(key@, keys[mid as int]@, keys[i]@);
                }
            }
            high = mid;
        } else {
            proof {
                K::order_laws(keys[mid as int]@, key@, key@);
            }
            return (mid, true);
        }
    }
    (low, false)
}

/// Writes `value` under `key` into the parallel vectors, keeping the keys
/// increasing.
fn write<K: TableKey, V>(keys: &mut Vec<K>, values: &mut Vec<V>, key: K, value: V)
    requires
        old(keys).len() == old(values).len(),
        increasing::<K>(ranks_of(old(keys)@)),
    ensures
        final(keys).len() == final(values).len(),
        increasing::<K>(ranks_of(final(keys)@)),
        written(ranks_of(final(keys)@), final(values)@) == written(
            ranks_of(old(keys)@),
            old(values)@,
        ).insert(key@, value),
        final(keys).len() == old(keys).len() + (if ranks_of(old(keys)@).contains(key@) {
            0int
        } else {
            1int
        }),
{
    let ghost ranks0 = ranks_of(keys@);
    let ghost values0 = values@;
    let ghost rank = key@;
    let (at, found) = locate(keys, &key);
    proof {
        lemma_increasing_distinct::<K>(ranks0);
        lemma_written_distinct(ranks0, values0);
    }
    if found {
        values.set(at, value);
        proof {
            let ranks1 = ranks_of(keys@);
            assert(ranks1 =~= ranks0);
            lemma_written_distinct(ranks1, values@);
            assert(ranks0[at as int] == rank);
            assert(written(ranks1, values@) =~= written(ranks0, values0).insert(rank, value)) by {
                assert forall|k: K::V| #[trigger] written(ranks0, values0).insert(rank, value).dom().contains(k)
                    implies written(ranks1, values@)[k] == written(ranks0, values0).insert(rank, value)[k] by {
                    let i = choose|i: int| 0 <= i < ranks0.len() && ranks0[i] == k;
                    assert(written(ranks1, values@)[ranks1[i]] == values@[i]);
                    assert(written(ranks0, values0)[ranks0[i]] == values0[i]);
                }
            }
        }
    } else {
        keys.insert(at, key);
        values.insert(at, value);
        proof {
            let ranks1 = ranks_of(keys@);
            assert(ranks1 =~= ranks0.insert(at as int, rank));
            assert forall|i: int, j: int| 0 <= i < j < ranks1.len() implies K::precedes(
                #[trigger] ranks1[i],
                #[trigger] ranks1[j],
            ) by {
                if j < at {
                    assert(K::precedes(ranks0[i], ranks0[j]));
                } else if j == at {
                    assert(ranks0[i] == keys@[i]@);
                } else if i < at {
                    assert(K::precedes(ranks0[i], ranks0[j - 1]));
                } else if i == at {
                    assert(ranks0[j - 1] == keys@[j]@);
                } else {
                    assert(K::precedes(ranks0[i - 1], ranks0[j - 1]));
                }
            }
            lemma_increasing_distinct::<K>(ranks1);
            lemma_written_distinct(ranks1, values@);
            assert(!ranks0.contains(rank)) by {
                if ranks0.contains(rank) {
                    let i = choose|i: int| 0 <= i < ranks0.len() && ranks0[i] == rank;
                    K::order_laws(rank, rank, rank);
                    assert(ranks0[i] == keys@[if i < at { i } else { i + 1 }]@);
                }
            }
            assert(ranks1[at as int] == rank);
            assert(written(ranks1, values@) =~= written(ranks0, values0).insert(rank, value)) by {
                assert forall|k: K::V| #[trigger] written(ranks0, values0).insert(rank, value).dom().contains(k)
                    implies written(ranks1, values@).dom().contains(k) && written(ranks1, values@)[k]
                    == written(ranks0, values0).insert(rank, value)[k] by {
                    if k == rank {
                        assert(written(ranks1, values@)[ranks1[at as int]] == values@[at as int]);
                    } else {
                        let i = choose|i: int| 0 <= i < ranks0.len() && ranks0[i] == k;
                        let j = if i < at { i } else { i + 1 };
                        assert(ranks1[j] == k);
                        assert(written(ranks1, values@)[ranks1[j]] == values@[j]);
                        assert(written(ranks0, values0)[ranks0[i]] == values0[i]);
                    }
                }
                assert forall|k: K::V| #[trigger] written(ranks1, values@).dom().contains(k)
                    implies written(ranks0, values0).insert(rank, value).dom().contains(k) by {
                    let j = choose|j: int| 0 <= j < ranks1.len() && ranks1[j] == k;
                    if j != at {
                        let i = if j < at { j } else { j - 1 };
                        assert(ranks0[i] == k);
                    }
                }
            }
        }
    }
}

/// Increasing keys are pairwise different.
pub proof fn lemma_increasing_distinct<K: TableKey>(ranks: Seq<K::V>)
    requires
        increasing::<K>(ranks),
    ensures
        ranks.no_duplicates(),
{
    assert forall|i: int, j: int| 0 <= i < ranks.len() && 0 <= j < ranks.len() && i != j implies ranks[i]
        != ranks[j] by {
        K::order_laws(ranks[i], ranks[j], ranks[j]);
        if i < j {
            assert(K::precedes(ranks[i], ranks[j]));
        } else {
            assert(K::precedes(ranks[j], ranks[i]));
        }
    }
}

impl<K: TableKey, V> View for Table<K, V> {
    type V = Map<K::V, V>;

    /// The value under each key.
    closed spec fn view(&self) -> Map<K::V, V> {
        written(self.ranks(), self.values@)
    }
}

impl<K: TableKey, V> Table<K, V> {
    /// The views of the keys, in the order in which the table holds them.
    pub closed spec fn ranks(&self) -> Seq<K::V> {
        ranks_of(self.keys@)
    }

    /// The values, in the order of their keys.
    pub closed spec fn items(&self) -> Seq<V> {
        self.values@
    }

    /// The keys are increasing and each has its value.
    pub closed spec fn wf(&self) -> bool {
        &&& self.keys.len() == self.values.len()
        &&& increasing::<K>(ranks_of(self.keys@))
    }

    #[verifier::type_invariant]
    spec fn inv(&self) -> bool {
        self.wf()
    }

    /// What `wf` says of a table, over `ranks`, `items` and the view.
    pub proof fn lemma_wf(&self)
        requires
            self.wf(),
        ensures
            self.ranks().len() == self.items().len(),
            increasing::<K>(self.ranks()),
            self.ranks().no_duplicates(),
            self@ == written(self.ranks(), self.items()),
            self@.dom() == self.ranks().to_set(),
            self@.dom().finite(),
            self@.dom().len() == self.ranks().len(),
            forall|i: int| 0 <= i < self.ranks().len() ==> self@[#[trigger] self.ranks()[i]] == self.items()[i],
    {
        lemma_increasing_distinct::<K>(self.ranks());
        lemma_written_distinct(self.ranks(), self.items());
        self.ranks().unique_seq_to_set();
        vstd::seq_lib::seq_to_set_is_finite(self.ranks());
    }

    /// A table without entries.
    pub fn new() -> (table: Self)
        ensures
            table.wf(),
            table@ == Map::<K::V, V>::empty(),
            table.ranks().len() == 0,
    {
        Table { keys: Vec::new(), values: Vec::new() }
    }

    /// A table without entries, with room for `capacity` of them.
    pub fn with_capacity(capacity: usize) -> (table: Self)
        ensures
            table.wf(),
            table@ == Map::<K::V, V>::empty(),
            table.ranks().len() == 0,
    {
        Table { keys: Vec::with_capacity(capacity), values: Vec::with_capacity(capacity) }
    }

    /// The table that results from writing `values[i]` under `keys[i]` for
    /// `i = 0, 1, ..` in turn.
    pub fn from_pairs(keys: Vec<K>, values: Vec<V>) -> (table: Self)
        requires
            keys.len() == values.len(),
        ensures
            table.wf(),
            table@ == written(ranks_of(keys@), values@),
    {
        let ghost ranks = ranks_of(keys@);
        let ghost keys0 = keys@;
        let ghost values0 = values@;
        let ghost n = keys0.len() as int;
        let mut keys = keys;
        let mut values = values;
        let mut later_keys: Vec<K> = Vec::new();
        let mut later_values: Vec<V> = Vec::new();
        while keys.len() > 0
            invariant
                keys.len() == values.len(),
                later_keys.len() == later_values.len(),
                keys.len() + later_keys.len() == n,
                n == keys0.len() == values0.len(),
                keys@ == keys0.take(keys.len() as int),
                values@ == values0.take(values.len() as int),
                forall|i: int| 0 <= i < later_keys.len() ==> later_keys@[i] == keys0[n - 1 - i],
                forall|i: int| 0 <= i < later_values.len() ==> later_values@[i] == values0[n - 1 - i],
            decreases keys.len(),
        {
            let key = keys.pop().unwrap();
            let value = values.pop().unwrap();
            later_keys.push(key);
            later_values.push(value);
            assert(keys@ =~= keys0.take(keys.len() as int));
            assert(values@ =~= values0.take(values.len() as int));
        }
        let mut table = Table::new();
        assert(ranks.take(0) =~= Seq::<K::V>::empty());
        while later_keys.len() > 0
            invariant
                later_keys.len() == later_values.len(),
                later_keys.len() <= n,
                n == keys0.len() == values0.len(),
                ranks == ranks_of(keys0),
                forall|i: int| 0 <= i < later_keys.len() ==> later_keys@[i] == keys0[n - 1 - i],
                forall|i: int| 0 <= i < later_values.len() ==> later_values@[i] == values0[n - 1 - i],
                table.wf(),
                table@ == written(ranks.take(n - later_keys.len()), values0.take(n - later_keys.len())),
            decreases later_keys.len(),
        {
            let ghost done = n - later_keys.len();
            let key = later_keys.pop().unwrap();
            let value = later_values.pop().unwrap();
            proof {
                assert(key == keys0[done]);
                assert(value == values0[done]);
                assert(ranks.take(done + 1).drop_last() =~= ranks.take(done));
                assert(values0.take(done + 1).drop_last() =~= values0.take(done));
                assert(ranks.take(done + 1).last() == key@);
                assert(values0.take(done + 1).last() == value);
            }
            table.insert(key, value);
        }
        assert(ranks.take(n) =~= ranks);
        assert(values0.take(n) =~= values0);
        table
    }

    /// Number of entries.
    pub fn len(&self) -> (n: usize)
        ensures
            self.wf(),
            n == self.ranks().len(),
            n == self@.dom().len(),
    {
        proof {
            use_type_invariant(self);
            self.lemma_wf();
        }
        self.keys.len()
    }

    /// Writes `value` under `key`; a value that stood under an equal key is
    /// replaced.
    pub fn insert(&mut self, key: K, value: V)
        ensures
            final(self).wf(),
            final(self)@ == old(self)@.insert(key@, value),
    {
        proof {
            use_type_invariant(&*self);
        }
        let mut taken = Table::new();
        core::mem::swap(self, &mut taken);
        let Table { keys, values } = taken;
        let mut keys = keys;
        let mut values = values;
        write(&mut keys, &mut values, key, value);
        *self = Table { keys, values };
    }

    /// The value under `key`, if the table has one.
    pub fn get(&self, key: &K) -> (r: Option<&V>)
        ensures
            self.wf(),
            r is Some <==> self@.contains_key(key@),
            r matches Some(value) ==> *value == self@[key@],
    {
        proof {
            use_type_invariant(self);
            self.lemma_wf();
        }
        let (at, found) = locate(&self.keys, key);
        if found {
            assert(self.ranks()[at as int] == key@);
            Some(&self.values[at])
        } else {
            proof {
                if self.ranks().contains(key@) {
                    let i = choose|i: int| 0 <= i < self.ranks().len() && self.ranks()[i] == key@;
                    K::order_laws(key@, key@, key@);
                    assert(self.keys@[i]@ == key@);
                }
            }
            None
        }
    }

    /// The key at position `i` in the order of the keys.
    pub fn key_at(&self, i: usize) -> (key: &K)
        requires
            i < self.ranks().len(),
        ensures
            key@ == self.ranks()[i as int],
    {
        &self.keys[i]
    }

    /// The value at position `i` in the order of the keys.
    pub fn value_at(&self, i: usize) -> (value: &V)
        requires
            i < self.items().len(),
        ensures
            *value == self.items()[i as int],
    {
        &self.values[i]
    }

    /// The keys in increasing order, and the values in the order of their
    /// keys.
    pub fn into_parts(self) -> (parts: (Vec<K>, Vec<V>))
        ensures
            self.wf(),
            ranks_of(parts.0@) == self.ranks(),
            parts.1@ == self.items(),
    {
        proof {
            use_type_invariant(&self);
        }
        (self.keys, self.values)
    }
}

} // verus!
