//! A map from text keys to values, held as a list of entries.

use vstd::prelude::*;
use vstd::string::*;
use crate::text::same_text;

verus! {

/// One key with its value.
#[derive(Debug)]
pub struct Entry<V> {
    pub key: String,
    pub value: V,
}

/// The keys of `entries`, in order.
pub open spec fn keys_of<V>(entries: Seq<Entry<V>>) -> Seq<Seq<char>> {
    Seq::new(entries.len(), |i: int| entries[i].key@)
}

/// The map that `entries` stands for: each key with its value.
pub open spec fn entries_map<V>(entries: Seq<Entry<V>>) -> Map<Seq<char>, V> {
    Map::new(
        |key: Seq<char>| keys_of(entries).contains(key),
        |key: Seq<char>| entries[keys_of(entries).index_of(key)].value,
    )
}

/// With each key held once, the map gives each entry's value.
pub proof fn lemma_entry_in_map<V>(entries: Seq<Entry<V>>, i: int)
    requires
        keys_of(entries).no_duplicates(),
        0 <= i < entries.len(),
    ensures
        entries_map(entries).dom().contains(entries[i].key@),
        entries_map(entries)[entries[i].key@] == entries[i].value,
{
    let names = keys_of(entries);
    assert(names[i] == entries[i].key@);
    assert(names.contains(entries[i].key@));
    let k = names.index_of(entries[i].key@);
    assert(0 <= k < names.len() && names[k] == entries[i].key@);
    assert(k == i);
}

/// A map from text keys to values. A key is held once; the entries keep the
/// order in which their keys first came.
#[derive(Debug)]
pub struct StringMap<V> {
    entries: Vec<Entry<V>>,
}

impl<V> View for StringMap<V> {
    type V = Map<Seq<char>, V>;

    closed spec fn view(&self) -> Map<Seq<char>, V> {
        entries_map(self.entries@)
    }
}

/// Where `key` stands in `entries`, if it does.
fn entry_position<V>(entries: &Vec<Entry<V>>, key: &str) -> (r: Option<usize>)
    ensures
        match r {
            Some(i) => i < entries.len() && entries@[i as int].key@ == key@,
            None => !keys_of(entries@).contains(key@),
        },
{
    let mut i: usize = 0;
    while i < entries.len()
        invariant
            i <= entries.len(),
            forall|j: int| 0 <= j < i ==> entries@[j].key@ != key@,
        decreases entries.len() - i,
    {
        if same_text(entries[i].key.as_str(), key) {
            return Some(i);
        }
        i = i + 1;
    }
    None
}

impl<V> StringMap<V> {
    #[verifier::type_invariant]
    spec fn distinct(self) -> bool {
        keys_of(self.entries@).no_duplicates()
    }

    /// The keys in the order in which they are held.
    pub closed spec fn key_order(self) -> Seq<Seq<char>> {
        keys_of(self.entries@)
    }

    pub fn new() -> (r: StringMap<V>)
        ensures
            r@ == Map::<Seq<char>, V>::empty(),
            r.key_order() == Seq::<Seq<char>>::empty(),
    {
        let r = StringMap { entries: Vec::new() };
        assert(r@ =~= Map::<Seq<char>, V>::empty());
        assert(r.key_order() =~= Seq::<Seq<char>>::empty());
        r
    }

    pub fn is_empty(&self) -> (r: bool)
        ensures
            r == (self@ == Map::<Seq<char>, V>::empty()),
    {
        let r = self.entries.len() == 0;
        proof {
            use_type_invariant(self);
            if r {
                assert(self@ =~= Map::<Seq<char>, V>::empty());
            } else {
                lemma_entry_in_map(self.entries@, 0);
            }
        }
        r
    }

    /// The value held for `key`.
    pub fn get(&self, key: &str) -> (r: Option<&V>)
        ensures
            r is Some <==> self@.dom().contains(key@),
            r is Some ==> *r.unwrap() == self@[key@],
    {
        proof {
            use_type_invariant(self);
        }
        match entry_position(&self.entries, key) {
            Some(i) => {
                proof {
                    lemma_entry_in_map(self.entries@, i as int);
                }
                Some(&self.entries[i].value)
            },
            None => None,
        }
    }

    /// Holds `value` for `key`, in place of what was held for it.
    pub fn insert(&mut self, key: &str, value: V)
        ensures
            final(self)@ == old(self)@.insert(key@, value),
            final(self).key_order() == if old(self)@.dom().contains(key@) {
                old(self).key_order()
            } else {
                old(self).key_order().push(key@)
            },
    {
        proof {
            use_type_invariant(&*self);
        }
        let ghost before = self.entries@;
        let mut entries: Vec<Entry<V>> = Vec::new();
        proof {
            assert(keys_of(entries@) == Seq::<Seq<char>>::empty());
        }
        std::mem::swap(&mut self.entries, &mut entries);
        let found = entry_position(&entries, key);
        let entry = Entry { key: String::from_str(key), value };
        match found {
            Some(i) => {
                entries.set(i, entry);
                proof {
                    assert(keys_of(entries@) == keys_of(before));
                }
            },
            None => {
                entries.push(entry);
                proof {
                    let names = keys_of(entries@);
                    assert(names == keys_of(before).push(key@));
                    assert forall|j: int, k: int|
                        0 <= j < names.len() && 0 <= k < names.len() && j != k implies names[j]
                        != names[k] by {
                        if j < before.len() {
                            assert(keys_of(before).contains(keys_of(before)[j]));
                        }
                        if k < before.len() {
                            assert(keys_of(before).contains(keys_of(before)[k]));
                        }
                    }
                }
            },
        }
        proof {
            let after = entries@;
            let wanted = entries_map(before).insert(key@, value);
            assert forall|k: Seq<char>| entries_map(after).dom().contains(k)
                <==> wanted.dom().contains(k) by {
                if keys_of(after).contains(k) {
                    let j = choose|j: int| 0 <= j < keys_of(after).len() && keys_of(after)[j] == k;
                    if k != key@ {
                        assert(keys_of(before)[j] == k);
                    }
                }
                if keys_of(before).contains(k) {
                    let j = choose|j: int|
                        0 <= j < keys_of(before).len() && keys_of(before)[j] == k;
                    assert(keys_of(after)[j] == k);
                }
                if k == key@ {
                    match found {
                        Some(i) => {
                            assert(keys_of(after)[i as int] == k);
                        },
                        None => {
                            assert(keys_of(after)[before.len() as int] == k);
                        },
                    }
                }
            }
            assert forall|k: Seq<char>| entries_map(after).dom().contains(k) implies entries_map(
                after,
            )[k] == wanted[k] by {
                let j = choose|j: int| 0 <= j < keys_of(after).len() && keys_of(after)[j] == k;
                lemma_entry_in_map(after, j);
                if k != key@ {
                    assert(keys_of(before)[j] == k);
                    lemma_entry_in_map(before, j);
                } else {
                    match found {
                        Some(i) => {
                            lemma_entry_in_map(after, i as int);
                        },
                        None => {
                            lemma_entry_in_map(after, before.len() as int);
                        },
                    }
                }
            }
            assert(entries_map(after) =~= wanted);
        }
        self.entries = entries;
    }

    /// Takes `key` and its value out; says whether the key was held.
    pub fn remove(&mut self, key: &str) -> (r: bool)
        ensures
            final(self)@ == old(self)@.remove(key@),
            r == old(self)@.dom().contains(key@),
            !r ==> final(self).key_order() == old(self).key_order(),
            r ==> exists|i: int|
                {
                    &&& 0 <= i < old(self).key_order().len()
                    &&& #[trigger] old(self).key_order()[i] == key@
                    &&& final(self).key_order() == old(self).key_order().remove(i)
                },
    {
        proof {
            use_type_invariant(&*self);
        }
        let ghost before = self.entries@;
        match entry_position(&self.entries, key) {
            Some(i) => {
                let mut entries: Vec<Entry<V>> = Vec::new();
                proof {
                    assert(keys_of(entries@) == Seq::<Seq<char>>::empty());
                }
                std::mem::swap(&mut self.entries, &mut entries);
                entries.remove(i);
                proof {
                    let after = entries@;
                    assert(keys_of(after) == keys_of(before).remove(i as int));
                    assert forall|j: int, k: int|
                        0 <= j < keys_of(after).len() && 0 <= k < keys_of(after).len() && j
                            != k implies keys_of(after)[j] != keys_of(after)[k] by {
                        let jj = if j < i { j } else { j + 1 };
                        let kk = if k < i { k } else { k + 1 };
                        assert(keys_of(after)[j] == keys_of(before)[jj]);
                        assert(keys_of(after)[k] == keys_of(before)[kk]);
                    }
                    let wanted = entries_map(before).remove(key@);
                    lemma_entry_in_map(before, i as int);
                    assert forall|k: Seq<char>| entries_map(after).dom().contains(k)
                        <==> wanted.dom().contains(k) by {
                        assert(keys_of(before)[i as int] == key@);
                        if keys_of(after).contains(k) {
                            let j = choose|j: int|
                                0 <= j < keys_of(after).len() && keys_of(after)[j] == k;
                            let jj = if j < i { j } else { j + 1 };
                            assert(keys_of(before)[jj] == k);
                            assert(keys_of(before).contains(k));
                            assert(k != key@);
                        }
                        if keys_of(before).contains(k) && k != key@ {
                            let j = choose|j: int|
                                0 <= j < keys_of(before).len() && keys_of(before)[j] == k;
                            let jj = if j < i { j } else { j - 1 };
                            assert(keys_of(after)[jj] == k);
                        }
                    }
                    assert forall|k: Seq<char>| entries_map(after).dom().contains(
                        k,
                    ) implies entries_map(after)[k] == wanted[k] by {
                        let j = choose|j: int|
                            0 <= j < keys_of(after).len() && keys_of(after)[j] == k;
                        let jj = if j < i { j } else { j + 1 };
                        assert(keys_of(before)[jj] == k);
                        assert(keys_of(before)[i as int] == key@);
                        assert(k != key@);
                        assert(after[j] == before[jj]);
                        lemma_entry_in_map(after, j);
                        lemma_entry_in_map(before, jj);
                    }
                    assert(entries_map(after) =~= wanted);
                }
                self.entries = entries;
                proof {
                    assert(old(self).key_order()[i as int] == key@);
                    assert(self.key_order() == old(self).key_order().remove(i as int));
                }
                true
            },
            None => {
                proof {
                    assert(entries_map(before) =~= entries_map(before).remove(key@));
                }
                false
            },
        }
    }

    /// The keys, in the order in which they are held.
    pub fn keys(&self) -> (r: Vec<String>)
        ensures
            crate::text::views(r@) == self.key_order(),
            crate::text::views(r@).no_duplicates(),
            crate::text::views(r@).to_set() == self@.dom(),
            r@.len() == self@.dom().len(),
    {
        let mut out: Vec<String> = Vec::new();
        let mut i: usize = 0;
        while i < self.entries.len()
            invariant
                i <= self.entries.len(),
                out@.len() == i,
                forall|j: int| 0 <= j < i ==> (#[trigger] out@[j])@ == self.entries@[j].key@,
            decreases self.entries.len() - i,
        {
            out.push(self.entries[i].key.clone());
            i = i + 1;
        }
        proof {
            use_type_invariant(self);
            assert(crate::text::views(out@) =~= keys_of(self.entries@));
            keys_of(self.entries@).unique_seq_to_set();
            assert(keys_of(self.entries@).to_set() =~= self@.dom());
        }
        out
    }
}

} // verus!
