//! A table of values by key.
use vstd::prelude::*;

verus! {

/// What values can be registered under.
pub trait RegistryKey: View + Sized {
    /// Whether two keys are the same.
    fn same_key(&self, other: &Self) -> (r: bool)
        ensures
            r == (self@ == other@),
    ;
}

impl RegistryKey for String {
    fn same_key(&self, other: &Self) -> (r: bool) {
        *self == *other
    }
}

impl RegistryKey for [u8; 32] {
    fn same_key(&self, other: &Self) -> (r: bool) {
        crate::wire::same_bytes(self.as_slice(), other.as_slice())
    }
}

/// Values registered under keys, each key at most once.
pub struct Registry<K: RegistryKey, V> {
    entries: Vec<(K, V)>,
}

/// No two entries have the same key.
spec fn distinct_keys<K: RegistryKey, V>(entries: Seq<(K, V)>) -> bool {
    forall|i: int, j: int|
        #![trigger entries[i], entries[j]]
        0 <= i < j < entries.len() ==> entries[i].0@ != entries[j].0@
}

/// Whether an entry has this key.
spec fn has_key<K: RegistryKey, V>(entries: Seq<(K, V)>, key: <K as View>::V) -> bool {
    exists|i: int| 0 <= i < entries.len() && (#[trigger] entries[i]).0@ == key
}

/// Where the entry with this key stands.
spec fn place_of<K: RegistryKey, V>(entries: Seq<(K, V)>, key: <K as View>::V) -> int {
    choose|i: int| 0 <= i < entries.len() && (#[trigger] entries[i]).0@ == key
}

/// The entries as a map.
spec fn as_map<K: RegistryKey, V>(entries: Seq<(K, V)>) -> Map<<K as View>::V, V> {
    Map::new(
        |key: <K as View>::V| has_key(entries, key),
        |key: <K as View>::V| entries[place_of(entries, key)].1,
    )
}

proof fn lemma_entry_is_mapped<K: RegistryKey, V>(entries: Seq<(K, V)>, i: int)
    requires
        distinct_keys(entries),
        0 <= i < entries.len(),
    ensures
        as_map(entries).dom().contains(entries[i].0@),
        as_map(entries)[entries[i].0@] == entries[i].1,
{
    let key = entries[i].0@;
    assert(has_key(entries, key));
    let j = place_of(entries, key);
    assert(entries[j].0@ == key);
    assert(i == j);
}

proof fn lemma_push<K: RegistryKey, V>(entries: Seq<(K, V)>, key: K, value: V)
    requires
        distinct_keys(entries),
        !has_key(entries, key@),
    ensures
        distinct_keys(entries.push((key, value))),
        as_map(entries.push((key, value))) == as_map(entries).insert(key@, value),
{
    let more = entries.push((key, value));
    assert(distinct_keys(more)) by {
        assert forall|i: int, j: int|
            #![trigger more[i], more[j]]
            0 <= i < j < more.len() implies more[i].0@ != more[j].0@ by {
            assert(more[i] == entries[i]);
            if j < entries.len() {
                assert(more[j] == entries[j]);
            }
        }
    }
    assert forall|n: <K as View>::V|
        as_map(more).dom().contains(n) <==> as_map(entries).insert(key@, value).dom().contains(
            n,
        ) by {
        if has_key(entries, n) {
            let i = place_of(entries, n);
            assert(more[i] == entries[i]);
        }
        assert(more[entries.len() as int].0@ == key@);
        if has_key(more, n) && n != key@ {
            let i = place_of(more, n);
            assert(entries[i] == more[i]);
        }
    }
    assert forall|n: <K as View>::V| as_map(more).dom().contains(n) implies as_map(more)[n] == as_map(
        entries,
    ).insert(key@, value)[n] by {
        let i = place_of(more, n);
        lemma_entry_is_mapped(more, i);
        if i < entries.len() {
            assert(more[i] == entries[i]);
            lemma_entry_is_mapped(entries, i);
        }
    }
    assert(as_map(more) =~= as_map(entries).insert(key@, value));
}

proof fn lemma_update<K: RegistryKey, V>(entries: Seq<(K, V)>, at: int, key: K, value: V)
    requires
        distinct_keys(entries),
        0 <= at < entries.len(),
        entries[at].0@ == key@,
    ensures
        distinct_keys(entries.update(at, (key, value))),
        as_map(entries.update(at, (key, value))) == as_map(entries).insert(key@, value),
{
    let more = entries.update(at, (key, value));
    assert forall|i: int| 0 <= i < entries.len() implies (#[trigger] more[i]).0@
        == entries[i].0@ by {}
    assert(distinct_keys(more)) by {
        assert forall|i: int, j: int|
            #![trigger more[i], more[j]]
            0 <= i < j < more.len() implies more[i].0@ != more[j].0@ by {
            assert(entries[i].0@ != entries[j].0@);
        }
    }
    assert forall|n: <K as View>::V| has_key(more, n) <==> has_key(entries, n) by {
        if has_key(entries, n) {
            let i = place_of(entries, n);
            assert(more[i].0@ == n);
        }
        if has_key(more, n) {
            let i = place_of(more, n);
            assert(entries[i].0@ == n);
        }
    }
    assert(has_key(entries, key@)) by {
        assert(entries[at].0@ == key@);
    }
    assert forall|n: <K as View>::V| as_map(more).dom().contains(n) implies as_map(more)[n] == as_map(
        entries,
    ).insert(key@, value)[n] by {
        let i = place_of(more, n);
        assert(more[i].0@ == n);
        lemma_entry_is_mapped(more, i);
        lemma_entry_is_mapped(entries, i);
        if i != at {
            assert(entries[i].0@ != entries[at].0@);
        }
    }
    assert(as_map(more) =~= as_map(entries).insert(key@, value));
}

proof fn lemma_remove<K: RegistryKey, V>(entries: Seq<(K, V)>, at: int)
    requires
        distinct_keys(entries),
        0 <= at < entries.len(),
    ensures
        distinct_keys(entries.remove(at)),
        as_map(entries.remove(at)) == as_map(entries).remove(entries[at].0@),
{
    let less = entries.remove(at);
    let gone = entries[at].0@;
    assert forall|i: int| 0 <= i < less.len() implies (#[trigger] less[i]) == entries[if i < at {
        i
    } else {
        i + 1
    }] by {}
    assert(distinct_keys(less)) by {
        assert forall|i: int, j: int|
            #![trigger less[i], less[j]]
            0 <= i < j < less.len() implies less[i].0@ != less[j].0@ by {
            let a = if i < at {
                i
            } else {
                i + 1
            };
            let b = if j < at {
                j
            } else {
                j + 1
            };
            assert(entries[a].0@ != entries[b].0@);
        }
    }
    assert forall|n: <K as View>::V| has_key(less, n) <==> has_key(entries, n) && n != gone by {
        if has_key(less, n) {
            let i = place_of(less, n);
            let a = if i < at {
                i
            } else {
                i + 1
            };
            assert(less[i].0@ == n);
            assert(entries[a].0@ == n);
            if n == gone {
                assert(entries[a].0@ == entries[at].0@);
            }
        }
        if has_key(entries, n) && n != gone {
            let i = place_of(entries, n);
            assert(entries[i].0@ == n);
            let b = if i < at {
                i
            } else {
                i - 1
            };
            assert(less[b] == entries[i]);
        }
    }
    assert forall|n: <K as View>::V| as_map(less).dom().contains(n) implies as_map(less)[n] == as_map(
        entries,
    ).remove(gone)[n] by {
        let i = place_of(less, n);
        assert(less[i].0@ == n);
        lemma_entry_is_mapped(less, i);
        let a = if i < at {
            i
        } else {
            i + 1
        };
        assert(less[i] == entries[a]);
        lemma_entry_is_mapped(entries, a);
    }
    assert(as_map(less) =~= as_map(entries).remove(gone));
}

impl<K: RegistryKey, V> View for Registry<K, V> {
    type V = Map<<K as View>::V, V>;

    closed spec fn view(&self) -> Map<<K as View>::V, V> {
        as_map(self.entries@)
    }
}

impl<K: RegistryKey, V> Registry<K, V> {
    /// Each key is registered at most once.
    pub closed spec fn wf(&self) -> bool {
        distinct_keys(self.entries@)
    }

    /// A table with nothing in it.
    pub fn new() -> (r: Self)
        ensures
            r.wf(),
            r@ == Map::<<K as View>::V, V>::empty(),
    {
        let r = Registry { entries: Vec::new() };
        assert(r@ =~= Map::<<K as View>::V, V>::empty()) by {
            assert forall|n: <K as View>::V| !has_key(r.entries@, n) by {}
        }
        r
    }

    fn find(&self, key: &K) -> (r: Option<usize>)
        requires
            self.wf(),
        ensures
            r matches Some(i) ==> i < self.entries@.len() && self.entries@[i as int].0@ == key@
                && self@.dom().contains(key@) && self@[key@] == self.entries@[i as int].1,
            r is None ==> !has_key(self.entries@, key@) && !self@.dom().contains(key@),
    {
        let mut i: usize = 0;
        while i < self.entries.len()
            invariant
                self.wf(),
                i <= self.entries@.len(),
                forall|j: int| 0 <= j < i ==> (#[trigger] self.entries@[j]).0@ != key@,
            decreases self.entries@.len() - i,
        {
            if self.entries[i].0.same_key(key) {
                proof {
                    lemma_entry_is_mapped(self.entries@, i as int);
                }
                return Some(i);
            }
            i = i + 1;
        }
        None
    }

    /// The value registered under a key.
    pub fn get(&self, key: &K) -> (r: Option<&V>)
        requires
            self.wf(),
        ensures
            r is Some <==> self@.dom().contains(key@),
            r matches Some(v) ==> *v == self@[key@],
    {
        match self.find(key) {
            Some(i) => Some(&self.entries[i].1),
            None => None,
        }
    }

    /// Registers a value under a key, in the place of what was there.
    pub fn insert(&mut self, key: K, value: V)
        requires
            old(self).wf(),
        ensures
            final(self).wf(),
            final(self)@ == old(self)@.insert(key@, value),
    {
        match self.find(&key) {
            Some(i) => {
                proof {
                    lemma_update(self.entries@, i as int, key, value);
                }
                self.entries[i] = (key, value);
            },
            None => {
                proof {
                    lemma_push(self.entries@, key, value);
                }
                self.entries.push((key, value));
            },
        }
    }

    /// Takes the value registered under a key out of the table.
    pub fn remove(&mut self, key: &K) -> (r: Option<V>)
        requires
            old(self).wf(),
        ensures
            final(self).wf(),
            final(self)@ == old(self)@.remove(key@),
            r is Some <==> old(self)@.dom().contains(key@),
            r matches Some(v) ==> v == old(self)@[key@],
    {
        match self.find(key) {
            Some(i) => {
                proof {
                    lemma_remove(self.entries@, i as int);
                }
                let taken = self.entries.remove(i);
                Some(taken.1)
            },
            None => {
                assert(self@.remove(key@) =~= self@);
                None
            },
        }
    }

    /// The keys, in the order in which the values are kept.
    pub closed spec fn order(&self) -> Seq<<K as View>::V> {
        self.entries@.map_values(|e: (K, V)| e.0@)
    }

    /// The value at a position of that order.
    pub fn value_at(&self, i: usize) -> (r: Option<&V>)
        requires
            self.wf(),
        ensures
            r is Some <==> i < self.order().len(),
            r matches Some(v) ==> self@.dom().contains(self.order()[i as int]) && *v
                == self@[self.order()[i as int]],
            self.order().no_duplicates(),
            self.order().to_set() == self@.dom(),
    {
        proof {
            lemma_order(self.entries@);
        }
        if i < self.entries.len() {
            proof {
                lemma_entry_is_mapped(self.entries@, i as int);
            }
            Some(&self.entries[i].1)
        } else {
            None
        }
    }

    /// How many keys are registered.
    pub fn len(&self) -> (r: usize)
        requires
            self.wf(),
        ensures
            r == self@.dom().len(),
    {
        proof {
            lemma_size(self.entries@);
        }
        self.entries.len()
    }
}

proof fn lemma_order<K: RegistryKey, V>(entries: Seq<(K, V)>)
    requires
        distinct_keys(entries),
    ensures
        entries.map_values(|e: (K, V)| e.0@).no_duplicates(),
        entries.map_values(|e: (K, V)| e.0@).to_set() == as_map(entries).dom(),
{
    let order = entries.map_values(|e: (K, V)| e.0@);
    assert forall|i: int, j: int|
        0 <= i < order.len() && 0 <= j < order.len() && i != j implies order[i] != order[j] by {
        if i < j {
            assert(entries[i].0@ != entries[j].0@);
        } else {
            assert(entries[j].0@ != entries[i].0@);
        }
    }
    assert forall|k: <K as View>::V| order.to_set().contains(k) <==> as_map(
        entries,
    ).dom().contains(k) by {
        if order.contains(k) {
            let i = choose|i: int| 0 <= i < order.len() && order[i] == k;
            assert(entries[i].0@ == k);
        }
        if has_key(entries, k) {
            let i = place_of(entries, k);
            assert(order[i] == k);
        }
    }
    assert(order.to_set() =~= as_map(entries).dom());
}

proof fn lemma_size<K: RegistryKey, V>(entries: Seq<(K, V)>)
    requires
        distinct_keys(entries),
    ensures
        as_map(entries).dom().finite(),
        as_map(entries).dom().len() == entries.len(),
    decreases entries.len(),
{
    if entries.len() == 0 {
        assert(as_map(entries).dom() =~= Set::<<K as View>::V>::empty());
    } else {
        let last = entries.last();
        let front = entries.drop_last();
        assert(distinct_keys(front)) by {
            assert forall|i: int, j: int|
                #![trigger front[i], front[j]]
                0 <= i < j < front.len() implies front[i].0@ != front[j].0@ by {
                assert(entries[i].0@ != entries[j].0@);
            }
        }
        assert(!has_key(front, last.0@)) by {
            if has_key(front, last.0@) {
                let i = place_of(front, last.0@);
                assert(entries[i].0@ != entries[entries.len() - 1].0@);
                assert(front[i] == entries[i]);
            }
        }
        lemma_size(front);
        lemma_push(front, last.0, last.1);
        assert(front.push((last.0, last.1)) =~= entries);
        assert(as_map(entries).dom() =~= as_map(front).dom().insert(last.0@));
    }
}

} // verus!
