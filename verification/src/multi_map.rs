//! Values that can be found by either of two keys.
use crate::protocol::Digest;
use crate::registry::Registry;
use vstd::prelude::*;

verus! {

/// Values, each under a first and a second key; no key is used twice.
pub struct MultiMap<V> {
    by_first: Registry<Digest, (Digest, V)>,
    by_second: Registry<Digest, Digest>,
}

/// Some value has this second key.
pub open spec fn has_second<V>(m: Map<Seq<u8>, (Digest, V)>, second: Seq<u8>) -> bool {
    exists|first: Seq<u8>| #[trigger] m.dom().contains(first) && m[first].0@ == second
}

/// The first key of the value that has this second key.
pub open spec fn first_of<V>(m: Map<Seq<u8>, (Digest, V)>, second: Seq<u8>) -> Seq<u8> {
    choose|first: Seq<u8>| #[trigger] m.dom().contains(first) && m[first].0@ == second
}

/// No two values have the same second key.
pub open spec fn second_keys_differ<V>(m: Map<Seq<u8>, (Digest, V)>) -> bool {
    forall|a: Seq<u8>, b: Seq<u8>|
        #![trigger m[a], m[b]]
        m.dom().contains(a) && m.dom().contains(b) && m[a].0@ == m[b].0@ ==> a == b
}

impl<V> View for MultiMap<V> {
    type V = Map<Seq<u8>, (Digest, V)>;

    /// The second key and the value under each first key.
    closed spec fn view(&self) -> Map<Seq<u8>, (Digest, V)> {
        self.by_first@
    }
}

/// Either table leads to the other.
spec fn tables_agree<V>(
    by_first: Map<Seq<u8>, (Digest, V)>,
    by_second: Map<Seq<u8>, Digest>,
) -> bool {
    &&& forall|first: Seq<u8>| #[trigger]
        by_first.dom().contains(first) ==> by_second.dom().contains(by_first[first].0@)
            && by_second[by_first[first].0@]@ == first
    &&& forall|second: Seq<u8>| #[trigger]
        by_second.dom().contains(second) ==> by_first.dom().contains(by_second[second]@)
            && by_first[by_second[second]@].0@ == second
}

proof fn lemma_second<V>(
    by_first: Map<Seq<u8>, (Digest, V)>,
    by_second: Map<Seq<u8>, Digest>,
    second: Seq<u8>,
)
    requires
        tables_agree(by_first, by_second),
    ensures
        second_keys_differ(by_first),
        has_second(by_first, second) <==> by_second.dom().contains(second),
        by_second.dom().contains(second) ==> first_of(by_first, second) == by_second[second]@,
{
    if by_second.dom().contains(second) {
        let first = by_second[second]@;
        assert(by_first.dom().contains(first) && by_first[first].0@ == second);
        let other = first_of(by_first, second);
        assert(by_first.dom().contains(other) && by_first[other].0@ == second);
    }
    assert forall|a: Seq<u8>, b: Seq<u8>|
        #![trigger by_first[a], by_first[b]]
        by_first.dom().contains(a) && by_first.dom().contains(b) && by_first[a].0@
            == by_first[b].0@ implies a == b by {
        assert(by_second[by_first[a].0@]@ == a);
        assert(by_second[by_first[b].0@]@ == b);
    }
}

impl<V> MultiMap<V> {
    /// No key is used twice.
    pub closed spec fn wf(&self) -> bool {
        &&& self.by_first.wf()
        &&& self.by_second.wf()
        &&& tables_agree(self.by_first@, self.by_second@)
    }

    /// A map with nothing in it.
    pub fn new() -> (r: Self)
        ensures
            r.wf(),
            r@ == Map::<Seq<u8>, (Digest, V)>::empty(),
    {
        MultiMap { by_first: Registry::new(), by_second: Registry::new() }
    }

    /// Keeps a value under two keys, unless one of them is in use: then the
    /// value comes back.
    pub fn insert(&mut self, first: Digest, second: Digest, value: V) -> (r: Result<(), V>)
        requires
            old(self).wf(),
        ensures
            final(self).wf(),
            second_keys_differ(final(self)@),
            r is Err <==> old(self)@.dom().contains(first@) || has_second(old(self)@, second@),
            r is Ok ==> final(self)@ == old(self)@.insert(first@, (second, value)),
            r matches Err(v) ==> v == value && final(self)@ == old(self)@,
    {
        proof {
            lemma_second(self.by_first@, self.by_second@, second@);
        }
        if self.by_first.get(&first).is_some() || self.by_second.get(&second).is_some() {
            return Err(value);
        }
        self.by_first.insert(first, (second, value));
        self.by_second.insert(second, first);
        proof {
            assert forall|f: Seq<u8>| #[trigger]
                self.by_first@.dom().contains(f) implies self.by_second@.dom().contains(
                self.by_first@[f].0@,
            ) && self.by_second@[self.by_first@[f].0@]@ == f by {
                if f != first@ {
                    assert(old(self).by_first@.dom().contains(f));
                }
            }
            assert forall|s: Seq<u8>| #[trigger]
                self.by_second@.dom().contains(s) implies self.by_first@.dom().contains(
                self.by_second@[s]@,
            ) && self.by_first@[self.by_second@[s]@].0@ == s by {
                if s != second@ {
                    assert(old(self).by_second@.dom().contains(s));
                }
            }
            lemma_second(self.by_first@, self.by_second@, second@);
        }
        Ok(())
    }

    /// The value under a first key.
    pub fn get1(&self, first: &Digest) -> (r: Option<&V>)
        requires
            self.wf(),
        ensures
            r is Some <==> self@.dom().contains(first@),
            r matches Some(v) ==> *v == self@[first@].1,
    {
        match self.by_first.get(first) {
            Some(e) => Some(&e.1),
            None => None,
        }
    }

    /// The value under a second key.
    pub fn get2(&self, second: &Digest) -> (r: Option<&V>)
        requires
            self.wf(),
        ensures
            second_keys_differ(self@),
            r is Some <==> has_second(self@, second@),
            r matches Some(v) ==> *v == self@[first_of(self@, second@)].1,
    {
        proof {
            lemma_second(self.by_first@, self.by_second@, second@);
        }
        match self.by_second.get(second) {
            Some(first) => match self.by_first.get(first) {
                Some(e) => Some(&e.1),
                None => None,
            },
            None => None,
        }
    }

    /// Takes out the value under a first key.
    pub fn remove1(&mut self, first: &Digest) -> (r: Option<V>)
        requires
            old(self).wf(),
        ensures
            final(self).wf(),
            second_keys_differ(final(self)@),
            final(self)@ == old(self)@.remove(first@),
            r is Some <==> old(self)@.dom().contains(first@),
            r matches Some(v) ==> v == old(self)@[first@].1,
    {
        match self.by_first.remove(first) {
            Some(e) => {
                let _ = self.by_second.remove(&e.0);
                proof {
                    lemma_removed(old(self).by_first@, old(self).by_second@, first@);
                    lemma_second(self.by_first@, self.by_second@, e.0@);
                }
                Some(e.1)
            },
            None => {
                proof {
                    assert(self.by_first@ =~= old(self).by_first@);
                    lemma_second(self.by_first@, self.by_second@, first@);
                }
                None
            },
        }
    }

    /// Takes out the value under a second key.
    pub fn remove2(&mut self, second: &Digest) -> (r: Option<V>)
        requires
            old(self).wf(),
        ensures
            final(self).wf(),
            second_keys_differ(final(self)@),
            r is Some <==> has_second(old(self)@, second@),
            r matches Some(v) ==> v == old(self)@[first_of(old(self)@, second@)].1
                && final(self)@ == old(self)@.remove(first_of(old(self)@, second@)),
            r is None ==> final(self)@ == old(self)@,
    {
        proof {
            lemma_second(self.by_first@, self.by_second@, second@);
        }
        match self.by_second.remove(second) {
            Some(first) => {
                let found = self.by_first.remove(&first);
                proof {
                    lemma_removed(old(self).by_first@, old(self).by_second@, first@);
                    assert(old(self).by_first@[first@].0@ == second@);
                    lemma_second(self.by_first@, self.by_second@, second@);
                }
                match found {
                    Some(e) => Some(e.1),
                    None => None,
                }
            },
            None => {
                assert(self.by_second@ =~= old(self).by_second@);
                None
            },
        }
    }

    /// How many values there are.
    pub fn len(&self) -> (r: usize)
        requires
            self.wf(),
        ensures
            r == self@.dom().len(),
    {
        self.by_first.len()
    }

    /// The first keys, in the order in which the values are kept.
    pub closed spec fn order(&self) -> Seq<Seq<u8>> {
        self.by_first.order()
    }

    /// The value at a position of that order.
    pub fn value_at(&self, i: usize) -> (r: Option<&V>)
        requires
            self.wf(),
        ensures
            r is Some <==> i < self.order().len(),
            r matches Some(v) ==> self@.dom().contains(self.order()[i as int]) && *v
                == self@[self.order()[i as int]].1,
            self.order().no_duplicates(),
            self.order().to_set() == self@.dom(),
    {
        match self.by_first.value_at(i) {
            Some(e) => Some(&e.1),
            None => None,
        }
    }
}

proof fn lemma_removed<V>(
    by_first: Map<Seq<u8>, (Digest, V)>,
    by_second: Map<Seq<u8>, Digest>,
    first: Seq<u8>,
)
    requires
        tables_agree(by_first, by_second),
        by_first.dom().contains(first),
    ensures
        tables_agree(by_first.remove(first), by_second.remove(by_first[first].0@)),
{
    let second = by_first[first].0@;
    let f2 = by_first.remove(first);
    let s2 = by_second.remove(second);
    assert forall|f: Seq<u8>| #[trigger] f2.dom().contains(f) implies s2.dom().contains(f2[f].0@)
        && s2[f2[f].0@]@ == f by {
        assert(by_first.dom().contains(f));
        assert(by_second[by_first[f].0@]@ == f);
        assert(by_second[second]@ == first);
    }
    assert forall|s: Seq<u8>| #[trigger] s2.dom().contains(s) implies f2.dom().contains(s2[s]@)
        && f2[s2[s]@].0@ == s by {
        assert(by_second.dom().contains(s));
        assert(by_first[by_second[s]@].0@ == s);
    }
}

/// A value is found by its second key, and under its own first key.
pub proof fn a_second_key_leads_to_its_value<V>(m: Map<Seq<u8>, (Digest, V)>, first: Seq<u8>)
    requires
        second_keys_differ(m),
        m.dom().contains(first),
    ensures
        has_second(m, m[first].0@),
        first_of(m, m[first].0@) == first,
{
    let f = first_of(m, m[first].0@);
    assert(m.dom().contains(f) && m[f].0@ == m[first].0@);
}

/// A second key that no value has is not found.
pub proof fn an_unused_second_key_is_not_found<V>(m: Map<Seq<u8>, (Digest, V)>, second: Seq<u8>)
    requires
        forall|first: Seq<u8>| #[trigger] m.dom().contains(first) ==> m[first].0@ != second,
    ensures
        !has_second(m, second),
{
}

} // verus!
