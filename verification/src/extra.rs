//! The optional key/value metadata of a configuration: a small map from
//! text to text that keeps the order in which its keys came.

use crate::codec::pairs_view;
use crate::text::{first_index, lemma_first_index, same_text};
use vstd::prelude::*;
use vstd::relations::injective_on;
use vstd::set_lib::{lemma_int_range, lemma_map_size, lemma_subset_equality, set_int_range};

verus! {

/// A sequence of key/value pairs, as contracts see it.
pub type Entries = Seq<(Seq<char>, Seq<char>)>;

/// Whether no key occurs twice.
pub open spec fn distinct_keys(entries: Entries) -> bool {
    forall|i: int, j: int|
        0 <= i < entries.len() && 0 <= j < entries.len() && i != j ==> entries[i].0
            != entries[j].0
}

/// The keys of the entries, in their order.
pub open spec fn keys(entries: Entries) -> Seq<Seq<char>> {
    Seq::new(entries.len(), |i: int| entries[i].0)
}

/// The first position that holds `key`, if there is one.
pub open spec fn key_index(entries: Entries, key: Seq<char>) -> Option<int> {
    first_index(keys(entries), key)
}

/// The value stored under `key`, if there is one.
pub open spec fn value_of(entries: Entries, key: Seq<char>) -> Option<Seq<char>> {
    match key_index(entries, key) {
        Some(i) => Some(entries[i].1),
        None => None,
    }
}

/// The entries after `key` is set to `value`: a key that is there keeps its
/// place and takes the new value, a new key goes to the end.
pub open spec fn inserted(entries: Entries, key: Seq<char>, value: Seq<char>) -> Entries {
    match key_index(entries, key) {
        Some(i) => entries.update(i, (key, value)),
        None => entries.push((key, value)),
    }
}

/// The entries that collecting `pairs` in their order gives: of two pairs
/// with one key, the later value stays.
pub open spec fn collected(pairs: Entries) -> Entries
    decreases pairs.len(),
{
    if pairs.len() == 0 {
        Seq::empty()
    } else {
        inserted(collected(pairs.drop_last()), pairs.last().0, pairs.last().1)
    }
}

/// What `key_index` returns is the least position that holds the key, and
/// it returns nothing exactly when the key does not occur.
pub proof fn lemma_key_index(entries: Entries, key: Seq<char>)
    ensures
        match key_index(entries, key) {
            Some(i) => 0 <= i < entries.len() && entries[i].0 == key && forall|j: int|
                0 <= j < i ==> entries[j].0 != key,
            None => forall|j: int| 0 <= j < entries.len() ==> entries[j].0 != key,
        },
{
    let ks = keys(entries);
    lemma_first_index(ks, key);
    match first_index(ks, key) {
        Some(i) => {
            assert(ks[i] == entries[i].0);
            assert forall|j: int| 0 <= j < i implies entries[j].0 != key by {
                assert(ks[j] == entries[j].0);
            }
        },
        None => {
            assert forall|j: int| 0 <= j < entries.len() implies entries[j].0 != key by {
                assert(ks[j] == entries[j].0);
            }
        },
    }
}

/// A position that holds the key with no such position before it is the
/// key's index.
pub proof fn lemma_key_index_is(entries: Entries, key: Seq<char>, i: int)
    requires
        0 <= i < entries.len(),
        entries[i].0 == key,
        forall|j: int| 0 <= j < i ==> entries[j].0 != key,
    ensures
        key_index(entries, key) == Some(i),
{
    lemma_key_index(entries, key);
}

/// Where the key does not occur it has no index.
pub proof fn lemma_key_index_none(entries: Entries, key: Seq<char>)
    requires
        forall|j: int| 0 <= j < entries.len() ==> entries[j].0 != key,
    ensures
        key_index(entries, key) is None,
{
    lemma_key_index(entries, key);
}

/// Setting a key keeps the keys distinct, and afterwards the key has the
/// new value and every other key the value it had.
pub proof fn lemma_inserted(entries: Entries, key: Seq<char>, value: Seq<char>)
    requires
        distinct_keys(entries),
    ensures
        distinct_keys(inserted(entries, key, value)),
        value_of(inserted(entries, key, value), key) == Some(value),
        forall|k: Seq<char>|
            k != key ==> value_of(inserted(entries, key, value), k) == value_of(entries, k),
{
    let after = inserted(entries, key, value);
    lemma_key_index(entries, key);
    match key_index(entries, key) {
        Some(i) => {
            lemma_key_index_is(after, key, i);
        },
        None => {
            lemma_key_index_is(after, key, entries.len() as int);
        },
    }
    assert forall|k: Seq<char>| k != key implies value_of(after, k) == value_of(entries, k) by {
        lemma_key_index(entries, k);
        match key_index(entries, k) {
            Some(i) => {
                lemma_key_index_is(after, k, i);
            },
            None => {
                lemma_key_index_none(after, k);
            },
        }
    }
}

/// Collected entries have distinct keys.
pub proof fn lemma_collected_distinct(pairs: Entries)
    ensures
        distinct_keys(collected(pairs)),
    decreases pairs.len(),
{
    if pairs.len() > 0 {
        lemma_collected_distinct(pairs.drop_last());
        lemma_inserted(collected(pairs.drop_last()), pairs.last().0, pairs.last().1);
    }
}

/// Whether the entries of `a` are those of `b` in some order, where the
/// keys of both are distinct: the two have as many entries and `b` holds
/// each entry of `a`.
pub open spec fn same_entries(a: Entries, b: Entries) -> bool {
    a.len() == b.len() && forall|i: int|
        0 <= i < a.len() ==> value_of(b, #[trigger] a[i].0) == Some(a[i].1)
}

/// Entries with distinct keys have the same entries as themselves.
pub proof fn lemma_same_entries_reflexive(a: Entries)
    requires
        distinct_keys(a),
    ensures
        same_entries(a, a),
{
    assert forall|i: int| 0 <= i < a.len() implies value_of(a, #[trigger] a[i].0) == Some(
        a[i].1,
    ) by {
        lemma_key_index_is(a, a[i].0, i);
    }
}

/// Among entries with distinct keys, having the same entries goes both
/// ways.
pub proof fn lemma_same_entries_symmetric(a: Entries, b: Entries)
    requires
        distinct_keys(a),
        same_entries(a, b),
    ensures
        same_entries(b, a),
{
    let n = a.len() as int;
    let place = |i: int| key_index(b, a[i].0)->0;
    let positions = set_int_range(0, n);
    lemma_int_range(0, n);
    assert forall|i: int| 0 <= i < n implies 0 <= place(i) < n && b[place(i)] == a[i] by {
        lemma_key_index(b, a[i].0);
        assert(value_of(b, a[i].0) == Some(a[i].1));
    }
    assert(injective_on(place, positions)) by {
        assert forall|x: int, y: int|
            positions.contains(x) && positions.contains(y) && #[trigger] place(x)
                == #[trigger] place(y) implies x == y by {
            assert(b[place(x)] == a[x]);
            assert(b[place(y)] == a[y]);
        }
    }
    let image = positions.map(place);
    lemma_map_size(positions, image, place);
    assert(image.subset_of(positions)) by {
        assert forall|j: int| image.contains(j) implies positions.contains(j) by {
            let i = choose|i: int| positions.contains(i) && j == place(i);
            assert(0 <= place(i) < n);
        }
    }
    lemma_subset_equality(image, positions);
    assert forall|j: int| 0 <= j < b.len() implies value_of(a, #[trigger] b[j].0)
        == Some(b[j].1) by {
        assert(positions.contains(j));
        assert(image.contains(j));
        let i = choose|i: int| positions.contains(i) && j == place(i);
        assert(b[place(i)] == a[i]);
        lemma_key_index_is(a, b[j].0, i);
    }
}

/// Having the same entries carries over from one pair of entries to the
/// next.
pub proof fn lemma_same_entries_transitive(a: Entries, b: Entries, c: Entries)
    requires
        same_entries(a, b),
        same_entries(b, c),
    ensures
        same_entries(a, c),
{
    assert forall|i: int| 0 <= i < a.len() implies value_of(c, #[trigger] a[i].0) == Some(
        a[i].1,
    ) by {
        lemma_key_index(b, a[i].0);
        assert(value_of(b, a[i].0) == Some(a[i].1));
        let j = key_index(b, a[i].0)->0;
        assert(value_of(c, b[j].0) == Some(b[j].1));
    }
}

/// Key/value metadata. No key occurs twice. Two values are equal when they
/// hold the same entries, in whatever order.
#[derive(Clone, Debug)]
pub struct Extra {
    entries: Vec<(String, String)>,
}

impl View for Extra {
    type V = Entries;

    closed spec fn view(&self) -> Entries {
        pairs_view(self.entries@)
    }
}

impl PartialEq for Extra {
    fn eq(&self, other: &Extra) -> (r: bool) {
        if self.entries.len() != other.entries.len() {
            return false;
        }
        let mut i: usize = 0;
        while i < self.entries.len()
            invariant
                i <= self.entries@.len(),
                self@.len() == other@.len(),
                forall|j: int| 0 <= j < i ==> value_of(other@, #[trigger] self@[j].0) == Some(self@[j].1),
            decreases self.entries@.len() - i,
        {
            match other.get(self.entries[i].0.as_str()) {
                Some(v) => {
                    if !same_text(v.as_str(), self.entries[i].1.as_str()) {
                        assert(value_of(other@, self@[i as int].0) != Some(self@[i as int].1));
                        return false;
                    }
                },
                None => {
                    assert(value_of(other@, self@[i as int].0) != Some(self@[i as int].1));
                    return false;
                },
            }
            i += 1;
        }
        true
    }
}

impl vstd::std_specs::cmp::PartialEqSpecImpl for Extra {
    open spec fn obeys_eq_spec() -> bool {
        true
    }

    open spec fn eq_spec(&self, other: &Extra) -> bool {
        same_entries(self@, other@)
    }
}

impl Eq for Extra {

}

impl Extra {
    /// Whether the keys are distinct. `new` and `from_pairs` return such a
    /// value and `insert` keeps it so.
    pub open spec fn wf(&self) -> bool {
        distinct_keys(self@)
    }

    /// Metadata without entries.
    pub fn new() -> (r: Extra)
        ensures
            r@ == Entries::empty(),
            r.wf(),
    {
        let r = Extra { entries: Vec::new() };
        assert(r@ =~= Entries::empty());
        r
    }

    /// The number of entries.
    pub fn len(&self) -> (r: usize)
        ensures
            r == self@.len(),
    {
        self.entries.len()
    }

    /// Whether there is no entry.
    pub fn is_empty(&self) -> (r: bool)
        ensures
            r == (self@.len() == 0),
    {
        self.entries.len() == 0
    }

    /// The entries in their order.
    pub fn pairs(&self) -> (r: &Vec<(String, String)>)
        ensures
            pairs_view(r@) == self@,
    {
        &self.entries
    }

    fn position(&self, key: &str) -> (r: Option<usize>)
        ensures
            match r {
                Some(i) => key_index(self@, key@) == Some(i as int) && i < self.entries@.len(),
                None => key_index(self@, key@) is None,
            },
    {
        let mut i: usize = 0;
        while i < self.entries.len()
            invariant
                i <= self.entries@.len(),
                forall|j: int| 0 <= j < i ==> self@[j].0 != key@,
            decreases self.entries@.len() - i,
        {
            if same_text(self.entries[i].0.as_str(), key) {
                proof {
                    lemma_key_index_is(self@, key@, i as int);
                }
                return Some(i);
            }
            i += 1;
        }
        proof {
            lemma_key_index_none(self@, key@);
        }
        None
    }

    /// The value stored under `key`, if there is one.
    pub fn get(&self, key: &str) -> (r: Option<&String>)
        ensures
            match r {
                Some(v) => value_of(self@, key@) == Some(v@),
                None => value_of(self@, key@) is None,
            },
    {
        match self.position(key) {
            Some(i) => Some(&self.entries[i].1),
            None => None,
        }
    }

    /// Sets `key` to `value`. A key that is there keeps its place.
    pub fn insert(&mut self, key: String, value: String)
        ensures
            final(self)@ == inserted(old(self)@, key@, value@),
            old(self).wf() ==> final(self).wf(),
    {
        proof {
            if self.wf() {
                lemma_inserted(self@, key@, value@);
            }
        }
        let ghost before = self@;
        match self.position(key.as_str()) {
            Some(i) => {
                self.entries.set(i, (key, value));
            },
            None => {
                self.entries.push((key, value));
            },
        }
        assert(self@ =~= inserted(before, key@, value@));
    }

    /// The metadata that collecting `pairs` in their order gives.
    pub fn from_pairs(pairs: &Vec<(String, String)>) -> (r: Extra)
        ensures
            r@ == collected(pairs_view(pairs@)),
            r.wf(),
    {
        let mut r = Extra::new();
        let mut i: usize = 0;
        while i < pairs.len()
            invariant
                i <= pairs@.len(),
                r@ == collected(pairs_view(pairs@).take(i as int)),
                r.wf(),
            decreases pairs@.len() - i,
        {
            r.insert(pairs[i].0.clone(), pairs[i].1.clone());
            proof {
                let t = pairs_view(pairs@).take(i + 1);
                assert(t.drop_last() =~= pairs_view(pairs@).take(i as int));
            }
            i += 1;
        }
        assert(pairs_view(pairs@).take(pairs@.len() as int) =~= pairs_view(pairs@));
        r
    }
}

} // verus!
