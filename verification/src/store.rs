//! The key-value store: a finite map from keys to values, kept in hash
//! tables, with the summary that `STATS` reports.

use crate::size::{size_string, size_text};
use crate::decimal::{decimal, decimal_string};
use crate::text::{byte_len, string_views, utf8_len};
use vstd::hash_map::StringHashMap;
use vstd::prelude::*;
use vstd::string::StringExecFns;

verus! {

/// Whether `keys` names every key of `m`, each once.
pub open spec fn lists_keys(keys: Seq<Seq<char>>, m: Map<Seq<char>, Seq<char>>) -> bool {
    &&& keys.no_duplicates()
    &&& forall|k: Seq<char>| keys.contains(k) <==> m.contains_key(k)
}

/// A listing of the keys of a store has as many names as the store has
/// keys, and the names are the keys.
pub proof fn lemma_listing_is_exact(keys: Seq<Seq<char>>, m: Map<Seq<char>, Seq<char>>)
    requires
        lists_keys(keys, m),
    ensures
        m.dom().finite(),
        keys.to_set() == m.dom(),
        keys.len() == m.len(),
{
    assert(keys.to_set() =~= m.dom());
    keys.unique_seq_to_set();
}

/// After two different keys are stored in an empty store, a listing names
/// exactly those two.
pub proof fn lemma_listing_of_two(
    keys: Seq<Seq<char>>,
    a: Seq<char>,
    x: Seq<char>,
    b: Seq<char>,
    y: Seq<char>,
)
    requires
        a != b,
        lists_keys(keys, Map::<Seq<char>, Seq<char>>::empty().insert(a, x).insert(b, y)),
    ensures
        keys.len() == 2,
        keys.contains(a),
        keys.contains(b),
        keys =~= seq![a, b] || keys =~= seq![b, a],
{
    let m = Map::<Seq<char>, Seq<char>>::empty().insert(a, x).insert(b, y);
    lemma_listing_is_exact(keys, m);
    assert(m.dom() =~= set![a, b]);
    assert(m.contains_key(a));
    assert(m.contains_key(b));
    assert(keys.contains(keys[0]));
    assert(keys.contains(keys[1]));
}

/// The byte lengths of all values of `m`, added up.
pub open spec fn total_value_bytes(m: Map<Seq<char>, Seq<char>>) -> nat
    decreases m.dom().len(),
    when m.dom().finite()
    via total_value_bytes_decreases
{
    if m.dom().len() == 0 {
        0
    } else {
        let k = m.dom().choose();
        utf8_len(m[k]) + total_value_bytes(m.remove(k))
    }
}

#[via_fn]
proof fn total_value_bytes_decreases(m: Map<Seq<char>, Seq<char>>) {
    if m.dom().len() != 0 {
        let k = m.dom().choose();
        assert(m.dom().contains(k));
        assert(m.remove(k).dom() =~= m.dom().remove(k));
    }
}

/// The total counts each value once, whichever key is taken out first.
pub proof fn lemma_total_without(m: Map<Seq<char>, Seq<char>>, k: Seq<char>)
    requires
        m.dom().finite(),
        m.contains_key(k),
    ensures
        total_value_bytes(m) == utf8_len(m[k]) + total_value_bytes(m.remove(k)),
    decreases m.dom().len(),
{
    let c = m.dom().choose();
    assert(m.dom().len() != 0);
    assert(m.dom().contains(c));
    assert(m.remove(c).dom() =~= m.dom().remove(c));
    assert(m.remove(k).dom() =~= m.dom().remove(k));
    if c != k {
        lemma_total_without(m.remove(c), k);
        lemma_total_without(m.remove(k), c);
        assert(m.remove(c).remove(k) =~= m.remove(k).remove(c));
    }
}

/// A key that was absent adds the byte length of its value to the total.
pub proof fn lemma_total_with(m: Map<Seq<char>, Seq<char>>, k: Seq<char>, v: Seq<char>)
    requires
        m.dom().finite(),
        !m.contains_key(k),
    ensures
        total_value_bytes(m.insert(k, v)) == total_value_bytes(m) + utf8_len(v),
{
    lemma_total_without(m.insert(k, v), k);
    assert(m.insert(k, v).remove(k) =~= m);
}

/// A key that was present trades the byte length of its old value for that
/// of the new one.
pub proof fn lemma_total_replaced(m: Map<Seq<char>, Seq<char>>, k: Seq<char>, v: Seq<char>)
    requires
        m.dom().finite(),
        m.contains_key(k),
    ensures
        total_value_bytes(m.insert(k, v)) + utf8_len(m[k]) == total_value_bytes(m) + utf8_len(v),
{
    lemma_total_without(m, k);
    lemma_total_without(m.insert(k, v), k);
    assert(m.insert(k, v).remove(k) =~= m.remove(k));
}

/// The byte lengths of the values that `m` holds for `keys`, added up.
pub open spec fn listed_total(keys: Seq<Seq<char>>, m: Map<Seq<char>, Seq<char>>) -> nat
    decreases keys.len(),
{
    if keys.len() == 0 {
        0
    } else {
        listed_total(keys.drop_last(), m) + utf8_len(m[keys.last()])
    }
}

proof fn lemma_listed_total_agrees(
    keys: Seq<Seq<char>>,
    m1: Map<Seq<char>, Seq<char>>,
    m2: Map<Seq<char>, Seq<char>>,
)
    requires
        forall|i: int| 0 <= i < keys.len() ==> m1[#[trigger] keys[i]] == m2[keys[i]],
    ensures
        listed_total(keys, m1) == listed_total(keys, m2),
    decreases keys.len(),
{
    if keys.len() > 0 {
        let rest = keys.drop_last();
        assert forall|i: int| 0 <= i < rest.len() implies m1[#[trigger] rest[i]] == m2[rest[i]] by {
            assert(rest[i] == keys[i]);
        }
        lemma_listed_total_agrees(rest, m1, m2);
        assert(keys.last() == keys[keys.len() - 1]);
    }
}

/// Adding up the values along a listing of the keys gives the total.
pub proof fn lemma_listed_total(keys: Seq<Seq<char>>, m: Map<Seq<char>, Seq<char>>)
    requires
        lists_keys(keys, m),
    ensures
        listed_total(keys, m) == total_value_bytes(m),
    decreases keys.len(),
{
    lemma_listing_is_exact(keys, m);
    if keys.len() > 0 {
        let k = keys.last();
        let rest = keys.drop_last();
        let less = m.remove(k);
        assert(keys.contains(k)) by {
            assert(keys[keys.len() - 1] == k);
        }
        assert(lists_keys(rest, less)) by {
            assert forall|x: Seq<char>| rest.contains(x) <==> less.contains_key(x) by {
                if rest.contains(x) {
                    let i = choose|i: int| 0 <= i < rest.len() && rest[i] == x;
                    assert(keys[i] == x);
                    assert(keys.contains(x));
                }
                if less.contains_key(x) {
                    assert(keys.contains(x));
                    let i = choose|i: int| 0 <= i < keys.len() && keys[i] == x;
                    assert(rest[i] == x);
                }
            }
        }
        lemma_listed_total(rest, less);
        assert forall|i: int| 0 <= i < rest.len() implies m[#[trigger] rest[i]] == less[rest[i]]
        by {
            assert(rest[i] == keys[i]);
        }
        lemma_listed_total_agrees(rest, m, less);
        lemma_total_without(m, k);
    }
}

/// The summary of a store of `keys` keys whose values take `bytes` bytes.
pub open spec fn stats_text(keys: nat, bytes: nat) -> Seq<char> {
    "Keys("@ + decimal(keys) + "), Size("@ + size_text(bytes) + ")"@
}

/// The summary of a store without keys.
pub open spec fn empty_stats_text() -> Seq<char> {
    "Keys(0), Size(0 B)"@
}

/// The summary of the store `m`: the number of its keys and the size of
/// its values. A store without keys has a summary of its own, which reads
/// as the general one would.
pub open spec fn stats_of(m: Map<Seq<char>, Seq<char>>) -> Seq<char> {
    if m.len() == 0 {
        empty_stats_text()
    } else {
        stats_text(m.len(), total_value_bytes(m))
    }
}

/// The summary of any store names the number of its keys and the size of
/// its values.
pub proof fn lemma_stats_of(m: Map<Seq<char>, Seq<char>>)
    requires
        m.dom().finite(),
    ensures
        stats_of(m) == stats_text(m.len(), total_value_bytes(m)),
{
    if m.len() == 0 {
        lemma_empty_stats_text();
    }
}

/// The summary of a store without keys is the general summary for no keys
/// and no bytes.
pub proof fn lemma_empty_stats_text()
    ensures
        empty_stats_text() == stats_text(0, 0),
{
    reveal_strlit("Keys(0), Size(0 B)");
    reveal_strlit("Keys(");
    reveal_strlit("), Size(");
    reveal_strlit(" B");
    reveal_strlit(")");
    assert(decimal(0) =~= seq!['0']);
    assert(empty_stats_text() =~= stats_text(0, 0));
}

/// The tables of a store: the value of each key, the place of each key
/// in the list of keys, and that list.
struct Tables {
    values: StringHashMap<String>,
    places: StringHashMap<usize>,
    keys: Vec<String>,
}

impl Tables {
    /// The tables agree: a key has a value exactly when it has a place, and
    /// the list holds each key at its place.
    spec fn wf(&self) -> bool {
        &&& forall|k: Seq<char>| self.values@.contains_key(k) <==> self.places@.contains_key(k)
        &&& forall|k: Seq<char>| #[trigger]
            self.places@.contains_key(k) ==> self.places@[k] < self.keys@.len()
                && self.keys@[self.places@[k] as int]@ == k
        &&& forall|i: int|
            0 <= i < self.keys@.len() ==> self.places@.contains_key((#[trigger] self.keys@[i])@)
                && self.places@[self.keys@[i]@] == i
    }

    /// The map that the tables stand for.
    spec fn map(&self) -> Map<Seq<char>, Seq<char>> {
        self.values@.map_values(|v: String| v@)
    }

    /// The keys as they are listed.
    spec fn names(&self) -> Seq<Seq<char>> {
        string_views(self.keys@)
    }

    proof fn lemma_names(&self)
        requires
            self.wf(),
        ensures
            lists_keys(self.names(), self.map()),
            self.map().dom().finite(),
            self.map().len() == self.keys@.len(),
    {
        let names = self.names();
        assert forall|i: int, j: int| 0 <= i < names.len() && 0 <= j < names.len() && i
            != j implies names[i] != names[j] by {
            assert(self.places@[self.keys@[i]@] == i);
            assert(self.places@[self.keys@[j]@] == j);
        }
        assert forall|k: Seq<char>| names.contains(k) <==> self.map().contains_key(k) by {
            if names.contains(k) {
                let i = choose|i: int| 0 <= i < names.len() && names[i] == k;
                assert(self.places@.contains_key(self.keys@[i]@));
            }
            if self.map().contains_key(k) {
                assert(self.places@.contains_key(k));
                assert(names[self.places@[k] as int] == k);
            }
        }
        lemma_listing_is_exact(names, self.map());
    }

    fn empty() -> (tables: Tables)
        ensures
            tables.wf(),
            tables.map() == Map::<Seq<char>, Seq<char>>::empty(),
    {
        let tables = Tables {
            values: StringHashMap::new(),
            places: StringHashMap::new(),
            keys: Vec::new(),
        };
        assert(tables.map() =~= Map::<Seq<char>, Seq<char>>::empty());
        tables
    }
}

/// The store: each key present has exactly one value.
pub struct DataStore {
    tables: Tables,
}

impl View for DataStore {
    type V = Map<Seq<char>, Seq<char>>;

    closed spec fn view(&self) -> Map<Seq<char>, Seq<char>> {
        self.tables.map()
    }
}

impl DataStore {
    #[verifier::type_invariant]
    spec fn tables_agree(&self) -> bool {
        self.tables.wf()
    }

    /// An empty store.
    pub fn new() -> (store: DataStore)
        ensures
            store@ == Map::<Seq<char>, Seq<char>>::empty(),
    {
        DataStore { tables: Tables::empty() }
    }

    /// Moves the tables out and leaves the store empty, so that they can be
    /// changed step by step while the store itself stays well formed.
    fn take_tables(&mut self) -> (tables: Tables)
        ensures
            tables == old(self).tables,
    {
        let mut tables = Tables::empty();
        core::mem::swap(&mut self.tables, &mut tables);
        tables
    }

    /// Moves changed tables back in.
    fn put_tables(&mut self, tables: Tables)
        requires
            tables.wf(),
        ensures
            final(self).tables == tables,
    {
        let mut tables = tables;
        core::mem::swap(&mut self.tables, &mut tables);
    }

    /// Stores `value` under `key`, in place of any value it had.
    pub fn set(&mut self, key: &str, value: &str)
        ensures
            final(self)@ == old(self)@.insert(key@, value@),
    {
        proof {
            use_type_invariant(&*self);
        }
        let mut tables = self.take_tables();
        let ghost before = tables;
        if !tables.places.contains_key(key) {
            tables.places.insert(String::from_str(key), tables.keys.len());
            tables.keys.push(String::from_str(key));
        }
        tables.values.insert(String::from_str(key), String::from_str(value));
        proof {
            assert(tables.wf()) by {
                assert forall|i: int|
                    0 <= i < tables.keys@.len() implies tables.places@.contains_key(
                    (#[trigger] tables.keys@[i])@,
                ) && tables.places@[tables.keys@[i]@] == i by {
                    if i < before.keys@.len() {
                        assert(before.places@.contains_key(before.keys@[i]@));
                    }
                }
            }
            assert(tables.map() =~= before.map().insert(key@, value@));
        }
        self.put_tables(tables);
    }

    /// The value stored under `key`, if there is one.
    pub fn get(&self, key: &str) -> (value: Option<String>)
        ensures
            match value {
                Some(v) => self@.contains_key(key@) && v@ == self@[key@],
                None => !self@.contains_key(key@),
            },
    {
        match self.tables.values.get(key) {
            Some(value) => Some(value.clone()),
            None => None,
        }
    }

    /// Deletes `key`. Says whether it was there.
    pub fn remove(&mut self, key: &str) -> (removed: bool)
        ensures
            removed == old(self)@.contains_key(key@),
            final(self)@ == old(self)@.remove(key@),
    {
        proof {
            use_type_invariant(&*self);
        }
        let place = match self.tables.places.get(key) {
            Some(place) => *place,
            None => {
                assert(self@.remove(key@) =~= self@);
                return false;
            },
        };
        let mut tables = self.take_tables();
        let ghost before = tables;
        let last = tables.keys.len() - 1;
        let _ = tables.keys.swap_remove(place);
        if place != last {
            tables.places.insert(tables.keys[place].clone(), place);
        }
        tables.places.remove(key);
        let _ = tables.values.remove(key);
        proof {
            let moved = before.keys@[last as int]@;
            assert(before.places@.contains_key(before.keys@[last as int]@));
            assert(place != last ==> moved != key@);
            assert(tables.wf()) by {
                assert forall|k: Seq<char>| #[trigger]
                    tables.places@.contains_key(k) implies tables.places@[k] < tables.keys@.len()
                    && tables.keys@[tables.places@[k] as int]@ == k by {
                    assert(before.places@.contains_key(k));
                    if k != moved {
                        let j = before.places@[k];
                        assert(before.keys@[j as int]@ == k);
                    }
                }
                assert forall|i: int|
                    0 <= i < tables.keys@.len() implies tables.places@.contains_key(
                    (#[trigger] tables.keys@[i])@,
                ) && tables.places@[tables.keys@[i]@] == i by {
                    if i != place {
                        assert(before.places@.contains_key(before.keys@[i]@));
                    }
                }
            }
            assert(tables.map() =~= before.map().remove(key@));
        }
        self.put_tables(tables);
        true
    }

    /// Every key, each once, in no particular order.
    pub fn keys(&self) -> (keys: Vec<String>)
        ensures
            lists_keys(string_views(keys@), self@),
            keys@.len() == self@.len(),
            self@.dom().finite(),
    {
        proof {
            use_type_invariant(self);
            self.tables.lemma_names();
        }
        let mut keys: Vec<String> = Vec::new();
        let mut i: usize = 0;
        while i < self.tables.keys.len()
            invariant
                i <= self.tables.keys@.len(),
                keys@.len() == i,
                forall|k: int| 0 <= k < i ==> (#[trigger] keys@[k])@ == self.tables.keys@[k]@,
            decreases self.tables.keys@.len() - i,
        {
            keys.push(self.tables.keys[i].clone());
            i = i + 1;
        }
        assert(string_views(keys@) =~= self.tables.names());
        keys
    }

    /// The bytes that the values take, all together.
    pub fn value_bytes(&self) -> (bytes: u128)
        ensures
            self@.dom().finite(),
            bytes == total_value_bytes(self@),
    {
        proof {
            use_type_invariant(self);
            self.tables.lemma_names();
            lemma_listed_total(self.tables.names(), self@);
        }
        let ghost names = self.tables.names();
        let mut bytes: u128 = 0;
        let mut i: usize = 0;
        while i < self.tables.keys.len()
            invariant
                self.tables.wf(),
                names == self.tables.names(),
                i <= self.tables.keys@.len(),
                bytes == listed_total(names.take(i as int), self@),
                bytes <= i * usize::MAX,
            decreases self.tables.keys@.len() - i,
        {
            let n = match self.tables.values.get(self.tables.keys[i].as_str()) {
                Some(value) => byte_len(value.as_str()),
                None => {
                    assert(self.tables.places@.contains_key(self.tables.keys@[i as int]@));
                    unreached()
                },
            };
            proof {
                assert(names.take(i + 1).drop_last() =~= names.take(i as int));
                assert(names.take(i + 1).last() == self.tables.keys@[i as int]@);
                assert(i * usize::MAX + usize::MAX <= usize::MAX * usize::MAX) by (nonlinear_arith)
                    requires
                        i < usize::MAX,
                ;
                assert(usize::MAX * usize::MAX <= u128::MAX) by (nonlinear_arith)
                    requires
                        usize::MAX <= u64::MAX,
                ;
                assert((i + 1) * usize::MAX == i * usize::MAX + usize::MAX) by (nonlinear_arith);
            }
            bytes = bytes + n as u128;
            i = i + 1;
        }
        proof {
            assert(names.take(names.len() as int) =~= names);
        }
        bytes
    }

    /// The summary that the `STATS` command reports: how many keys there
    /// are and how many bytes their values take.
    pub fn stats(&self) -> (summary: String)
        ensures
            self@.dom().finite(),
            summary@ == stats_of(self@),
    {
        if self.is_empty() {
            return String::from_str("Keys(0), Size(0 B)");
        }
        let mut summary = String::from_str("Keys(");
        summary.append(decimal_string(self.len() as u128).as_str());
        summary.append("), Size(");
        summary.append(size_string(self.value_bytes()).as_str());
        summary.append(")");
        summary
    }

    /// Whether the store holds no key.
    pub fn is_empty(&self) -> (empty: bool)
        ensures
            self@.dom().finite(),
            empty == (self@.len() == 0),
    {
        proof {
            use_type_invariant(self);
            self.tables.lemma_names();
        }
        self.tables.keys.len() == 0
    }

    /// The number of keys.
    pub fn len(&self) -> (count: usize)
        ensures
            self@.dom().finite(),
            count == self@.len(),
    {
        proof {
            use_type_invariant(self);
            self.tables.lemma_names();
        }
        self.tables.keys.len()
    }
}

} // verus!
