//! A small header map: name/value pairs that cross a transport boundary.
use vstd::prelude::*;

verus! {

pub type HeaderSeq = Seq<(Seq<char>, Seq<char>)>;

/// The value under the first entry named `k`.
pub open spec fn lookup(es: HeaderSeq, k: Seq<char>) -> Option<Seq<char>>
    decreases es.len(),
{
    if es.len() == 0 {
        None
    } else if es[0].0 == k {
        Some(es[0].1)
    } else {
        lookup(es.drop_first(), k)
    }
}

pub proof fn lemma_lookup_push(es: HeaderSeq, e: (Seq<char>, Seq<char>), k: Seq<char>)
    ensures
        lookup(es.push(e), k) == (if lookup(es, k).is_some() {
            lookup(es, k)
        } else if e.0 == k {
            Some(e.1)
        } else {
            None
        }),
    decreases es.len(),
{
    if es.len() > 0 {
        assert(es.push(e).drop_first() =~= es.drop_first().push(e));
        lemma_lookup_push(es.drop_first(), e, k);
    } else {
        assert(es.push(e).drop_first() =~= es);
    }
}

pub proof fn lemma_lookup_update(es: HeaderSeq, i: int, k: Seq<char>, v: Seq<char>, k2: Seq<char>)
    requires
        0 <= i < es.len(),
        es[i].0 == k,
        forall|j: int| 0 <= j < i ==> (#[trigger] es[j]).0 != k,
    ensures
        lookup(es.update(i, (k, v)), k2) == (if k2 == k {
            Some(v)
        } else {
            lookup(es, k2)
        }),
    decreases i,
{
    if i > 0 {
        assert(es.update(i, (k, v)).drop_first() =~= es.drop_first().update(i - 1, (k, v)));
        assert forall|j: int| 0 <= j < i - 1 implies (#[trigger] es.drop_first()[j]).0 != k by {
            assert(es.drop_first()[j] == es[j + 1]);
        }
        lemma_lookup_update(es.drop_first(), i - 1, k, v, k2);
        assert(es[0].0 != k);
        assert(es.update(i, (k, v))[0] == es[0]);
    } else {
        assert(es.update(i, (k, v)).drop_first() =~= es.drop_first());
        assert(es.update(i, (k, v))[0] == (k, v));
    }
}

/// A settable and readable map from header names to values.
pub struct HeaderMap {
    entries: Vec<(String, String)>,
}

impl View for HeaderMap {
    type V = HeaderSeq;

    closed spec fn view(&self) -> HeaderSeq {
        self.entries@.map_values(|e: (String, String)| (e.0@, e.1@))
    }
}

impl HeaderMap {
    pub open spec fn get_spec(&self, k: Seq<char>) -> Option<Seq<char>> {
        lookup(self@, k)
    }

    /// An empty map.
    pub fn new() -> (r: HeaderMap)
        ensures
            r@ == Seq::<(Seq<char>, Seq<char>)>::empty(),
            forall|k: Seq<char>| #[trigger] r.get_spec(k) == None::<Seq<char>>,
    {
        let r = HeaderMap { entries: Vec::new() };
        assert(r@ =~= Seq::<(Seq<char>, Seq<char>)>::empty());
        r
    }

    /// The number of entries.
    pub fn len(&self) -> (r: usize)
        ensures
            r == self@.len(),
    {
        self.entries.len()
    }

    /// The names of the entries, in order.
    pub fn keys(&self) -> (r: Vec<String>)
        ensures
            r@.map_values(|k: String| k@) == self@.map_values(
                |e: (Seq<char>, Seq<char>)| e.0,
            ),
    {
        let mut r: Vec<String> = Vec::new();
        let mut i: usize = 0;
        while i < self.entries.len()
            invariant
                i <= self.entries@.len(),
                r@.len() == i,
                forall|j: int| 0 <= j < i ==> (#[trigger] r@[j])@ == self@[j].0,
            decreases self.entries.len() - i,
        {
            let k = self.entries[i].0.clone();
            r.push(k);
            i = i + 1;
        }
        assert(r@.map_values(|k: String| k@) =~= self@.map_values(
            |e: (Seq<char>, Seq<char>)| e.0,
        ));
        r
    }

    /// The value stored under `key`, if any.
    pub fn get(&self, key: &str) -> (r: Option<&str>)
        ensures
            r matches Some(v) ==> self.get_spec(key@) == Some(v@),
            r is None ==> self.get_spec(key@) is None,
    {
        let k = String::from_str(key);
        let mut i: usize = 0;
        assert(self@.subrange(0, self@.len() as int) =~= self@);
        while i < self.entries.len()
            invariant
                i <= self.entries@.len(),
                k@ == key@,
                lookup(self@, key@) == lookup(self@.subrange(i as int, self@.len() as int), key@),
            decreases self.entries.len() - i,
        {
            let ghost rest = self@.subrange(i as int, self@.len() as int);
            assert(rest[0] == self@[i as int]);
            if self.entries[i].0 == k {
                return Some(self.entries[i].1.as_str());
            }
            assert(rest.drop_first() =~= self@.subrange(i + 1, self@.len() as int));
            i = i + 1;
        }
        None
    }

    /// Stores `value` under `key`, replacing a value stored there before.
    pub fn set(&mut self, key: &str, value: String)
        ensures
            final(self).get_spec(key@) == Some(value@),
            forall|k: Seq<char>|
                k != key@ ==> #[trigger] final(self).get_spec(k) == old(self).get_spec(k),
    {
        let k = String::from_str(key);
        let ghost es = self@;
        let mut i: usize = 0;
        while i < self.entries.len()
            invariant
                i <= self.entries@.len(),
                k@ == key@,
                self@ == es,
                es == old(self)@,
                forall|j: int| 0 <= j < i ==> (#[trigger] es[j]).0 != key@,
            decreases self.entries.len() - i,
        {
            if self.entries[i].0 == k {
                self.entries.set(i, (k, value));
                proof {
                    assert(self@ =~= es.update(i as int, (key@, value@)));
                    assert forall|k2: Seq<char>| #[trigger] self.get_spec(k2) == (if k2 == key@ {
                        Some(value@)
                    } else {
                        lookup(es, k2)
                    }) by {
                        lemma_lookup_update(es, i as int, key@, value@, k2);
                    }
                }
                return;
            }
            i = i + 1;
        }
        self.entries.push((k, value));
        proof {
            assert(self@ =~= es.push((key@, value@)));
            assert forall|k2: Seq<char>| #[trigger] self.get_spec(k2) == (if k2 == key@ {
                Some(value@)
            } else {
                lookup(es, k2)
            }) by {
                lemma_lookup_push(es, (key@, value@), k2);
                if k2 == key@ {
                    lemma_lookup_absent(es, key@);
                }
            }
        }
    }
}

pub proof fn lemma_lookup_absent(es: HeaderSeq, k: Seq<char>)
    requires
        forall|j: int| 0 <= j < es.len() ==> (#[trigger] es[j]).0 != k,
    ensures
        lookup(es, k) is None,
    decreases es.len(),
{
    if es.len() > 0 {
        assert forall|j: int| 0 <= j < es.len() - 1 implies (#[trigger] es.drop_first()[j]).0 != k by {
            assert(es.drop_first()[j] == es[j + 1]);
        }
        lemma_lookup_absent(es.drop_first(), k);
    }
}

} // verus!
