//! Interning: the first time a key is seen it gets the next id, counting
//! from 1; every later time it gets the same id again.

use vstd::prelude::*;
use vstd::utf8::encode_utf8;
use vstd::utf8::encode_utf8_decode_utf8;

verus! {

/// The id that `key` has, or gets, in a table that holds the keys seen so
/// far in the order in which they were first seen.
pub open spec fn interned_id<K>(table: Seq<K>, key: K) -> u64 {
    if table.contains(key) {
        (table.index_of(key) + 1) as u64
    } else {
        (table.len() + 1) as u64
    }
}

/// The table after `key` was seen.
pub open spec fn interned<K>(table: Seq<K>, key: K) -> Seq<K> {
    if table.contains(key) {
        table
    } else {
        table.push(key)
    }
}

/// The table after each of `keys` was seen, in order.
pub open spec fn intern_all<K>(table: Seq<K>, keys: Seq<K>) -> Seq<K>
    decreases keys.len(),
{
    if keys.len() == 0 {
        table
    } else {
        interned(intern_all(table, keys.drop_last()), keys.last())
    }
}

/// An id is a position: after `key` was seen, the table holds `key` at the
/// place that its id names, counting from 1. What the table held before
/// stays where it was, so no id ever changes, and a key that is new gets
/// the id that follows the ids given so far.
pub proof fn lemma_interned<K>(table: Seq<K>, key: K)
    requires
        table.no_duplicates(),
        table.len() < u64::MAX,
    ensures
        interned(table, key).no_duplicates(),
        table.is_prefix_of(interned(table, key)),
        1 <= interned_id(table, key) <= interned(table, key).len(),
        interned(table, key)[interned_id(table, key) - 1] == key,
        !table.contains(key) ==> interned_id(table, key) == table.len() + 1,
        interned_id(interned(table, key), key) == interned_id(table, key),
{
    let after = interned(table, key);
    if table.contains(key) {
        let i = table.index_of(key);
        assert(table[i] == key);
    } else {
        assert forall|i: int, j: int| 0 <= i < after.len() && 0 <= j < after.len() && i != j implies after[i]
            != after[j] by {
            if i < table.len() {
                assert(table.contains(table[i]));
            }
            if j < table.len() {
                assert(table.contains(table[j]));
            }
        }
        assert(after[table.len() as int] == key);
        assert(after.contains(key));
        let i = after.index_of(key);
        assert(after[i] == key);
        assert(i == table.len());
    }
}

/// A key that a table holds keeps its id, whatever is seen later.
pub proof fn lemma_id_is_stable<K>(table: Seq<K>, key: K, later: Seq<K>)
    requires
        table.no_duplicates(),
        table.contains(key),
    ensures
        intern_all(table, later).no_duplicates(),
        table.is_prefix_of(intern_all(table, later)),
        intern_all(table, later).contains(key),
        interned_id(intern_all(table, later), key) == interned_id(table, key),
    decreases later.len(),
{
    if later.len() > 0 {
        lemma_id_is_stable(table, key, later.drop_last());
        let before = intern_all(table, later.drop_last());
        let after = intern_all(table, later);
        let next = later.last();
        if !before.contains(next) {
            assert forall|i: int, j: int|
                0 <= i < after.len() && 0 <= j < after.len() && i != j implies after[i]
                != after[j] by {
                if i < before.len() {
                    assert(before.contains(before[i]));
                }
                if j < before.len() {
                    assert(before.contains(before[j]));
                }
            }
            let i = before.index_of(key);
            assert(before[i] == key);
            assert(after[i] == key);
            assert(after.contains(key));
            let j = after.index_of(key);
            assert(after[j] == key);
        }
    }
    let i = table.index_of(key);
    assert(table[i] == key);
    let end = intern_all(table, later);
    assert(end[i] == key);
    let j = end.index_of(key);
    assert(end[j] == key);
}

/// A table holds what it held and what was seen since, and nothing else.
pub proof fn lemma_intern_all_holds<K>(table: Seq<K>, keys: Seq<K>, key: K)
    ensures
        intern_all(table, keys).contains(key) <==> table.contains(key) || keys.contains(key),
    decreases keys.len(),
{
    if keys.len() > 0 {
        lemma_intern_all_holds(table, keys.drop_last(), key);
        let before = intern_all(table, keys.drop_last());
        let after = intern_all(table, keys);
        let next = keys.last();
        if keys.contains(key) {
            let i = keys.index_of(key);
            assert(keys[i] == key);
            if i < keys.len() - 1 {
                assert(keys.drop_last()[i] == key);
                assert(keys.drop_last().contains(key));
            }
        }
        if keys.drop_last().contains(key) {
            let i = keys.drop_last().index_of(key);
            assert(keys.drop_last()[i] == key);
            assert(keys[i] == key);
        }
        assert(keys[keys.len() - 1] == next);
        if before.contains(next) {
        } else {
            assert(after =~= before.push(next));
            if before.contains(key) {
                let i = before.index_of(key);
                assert(before[i] == key);
                assert(after[i] == key);
            }
            if after.contains(key) {
                let i = after.index_of(key);
                assert(after[i] == key);
                if i < before.len() {
                    assert(before[i] == key);
                }
            }
            assert(after[before.len() as int] == next);
        }
    }
}

/// Whether two strings hold the same text.
pub fn same_text(a: &str, b: &str) -> (same: bool)
    ensures
        same == (a@ == b@),
{
    let x = a.as_bytes();
    let y = b.as_bytes();
    proof {
        encode_utf8_decode_utf8(a@);
        encode_utf8_decode_utf8(b@);
    }
    if x.len() != y.len() {
        return false;
    }
    let mut i: usize = 0;
    while i < x.len()
        invariant
            i <= x.len(),
            x.len() == y.len(),
            x@ == encode_utf8(a@),
            y@ == encode_utf8(b@),
            forall|j: int| 0 <= j < i ==> x@[j] == y@[j],
        decreases x.len() - i,
    {
        if x[i] != y[i] {
            return false;
        }
        i += 1;
    }
    assert(x@ =~= y@);
    true
}

/// A value that can be interned.
pub trait InternKey: Copy {
    /// What the key says: two keys with the same model get the same id.
    type Model;

    spec fn model(self) -> Self::Model;

    fn same_as(self, other: Self) -> (same: bool)
        ensures
            same == (self.model() == other.model()),
    ;
}

impl InternKey for &'static str {
    type Model = Seq<char>;

    open spec fn model(self) -> Seq<char> {
        self@
    }

    fn same_as(self, other: Self) -> (same: bool) {
        same_text(self, other)
    }
}

/// A place in the source: a file and a line in it.
#[derive(Clone, Copy, Debug)]
pub struct Location {
    pub file: &'static str,
    pub line: u32,
}

impl InternKey for Location {
    type Model = (Seq<char>, u32);

    open spec fn model(self) -> (Seq<char>, u32) {
        (self.file@, self.line)
    }

    fn same_as(self, other: Self) -> (same: bool) {
        self.line == other.line && same_text(self.file, other.file)
    }
}

/// The keys seen so far, each once, in the order in which they were first
/// seen. The id of a key is its position, counting from 1.
pub struct InternTable<K: InternKey> {
    keys: Vec<K>,
}

impl<K: InternKey> View for InternTable<K> {
    type V = Seq<K::Model>;

    closed spec fn view(&self) -> Seq<K::Model> {
        self.keys@.map_values(|key: K| key.model())
    }
}

impl<K: InternKey> InternTable<K> {
    /// No key occurs twice. Every table that this module hands out is
    /// well formed.
    pub open spec fn wf(&self) -> bool {
        self@.no_duplicates()
    }

    /// An empty table.
    pub fn new() -> (table: Self)
        ensures
            table.wf(),
            table@ == Seq::<K::Model>::empty(),
    {
        InternTable { keys: Vec::new() }
    }

    /// The number of keys in the table.
    pub fn len(&self) -> (n: usize)
        ensures
            n == self@.len(),
    {
        self.keys.len()
    }

    /// Where `key` is in the table, if it is there.
    fn position(&self, key: K) -> (found: Option<usize>)
        ensures
            match found {
                Some(i) => i < self@.len() && self@[i as int] == key.model(),
                None => !self@.contains(key.model()),
            },
    {
        let mut i: usize = 0;
        while i < self.keys.len()
            invariant
                i <= self.keys.len(),
                forall|j: int| 0 <= j < i ==> self@[j] != key.model(),
            decreases self.keys.len() - i,
        {
            if self.keys[i].same_as(key) {
                return Some(i);
            }
            i += 1;
        }
        None
    }

    /// Looks `key` up and adds it if it is new. Returns the key's id and
    /// whether it was new.
    pub fn intern(&mut self, key: K) -> (found: (u64, bool))
        requires
            old(self).wf(),
        ensures
            final(self).wf(),
            final(self)@ == interned(old(self)@, key.model()),
            found.0 == interned_id(old(self)@, key.model()),
            found.1 == !old(self)@.contains(key.model()),
    {
        match self.position(key) {
            Some(i) => {
                proof {
                    let table = self@;
                    let j = table.index_of(key.model());
                    assert(table.contains(key.model()));
                    assert(j == i);
                    assert(table.len() == self.keys@.len());
                }
                let n = self.keys.len();
                assert(i < n);
                (i as u64 + 1, false)
            },
            None => {
                let ghost before = self@;
                self.keys.push(key);
                proof {
                    assert(self@ =~= before.push(key.model()));
                    assert forall|i: int, j: int|
                        0 <= i < self@.len() && 0 <= j < self@.len() && i != j implies self@[i]
                        != self@[j] by {
                        if i < before.len() && j < before.len() {
                            assert(before[i] != before[j]);
                        } else if i < before.len() {
                            assert(before.contains(before[i]));
                        } else {
                            assert(before.contains(before[j]));
                        }
                    }
                }
                (self.keys.len() as u64, true)
            },
        }
    }
}

} // verus!
