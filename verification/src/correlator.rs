//! The correlation table: each outstanding request's identifier, in
//! canonical text form, paired with the waiter that will receive the
//! correlated response. Abstractly a map from identifier to waiter.

use vstd::prelude::*;

verus! {

/// No two entries share an identifier.
pub open spec fn keys_distinct<W>(s: Seq<(String, W)>) -> bool {
    forall|i: int, j: int| 0 <= i < j < s.len() ==> (#[trigger] s[i]).0@ != (#[trigger] s[j]).0@
}

/// The map an entry sequence stands for.
pub open spec fn map_of<W>(s: Seq<(String, W)>) -> Map<Seq<char>, W>
    decreases s.len(),
{
    if s.len() == 0 {
        Map::empty()
    } else {
        map_of(s.drop_last()).insert(s.last().0@, s.last().1)
    }
}

pub proof fn lemma_map_of_contains<W>(s: Seq<(String, W)>, k: Seq<char>)
    ensures
        map_of(s).contains_key(k) <==> exists|i: int| 0 <= i < s.len() && (#[trigger] s[i]).0@
            == k,
    decreases s.len(),
{
    if s.len() > 0 {
        lemma_map_of_contains(s.drop_last(), k);
        if s.last().0@ == k {
            assert((s[s.len() - 1]).0@ == k);
        } else {
            if map_of(s).contains_key(k) {
                let i = choose|i: int| 0 <= i < s.drop_last().len() && (#[trigger] s.drop_last()[i]).0@ == k;
                assert((s[i]).0@ == k);
            }
            if exists|i: int| 0 <= i < s.len() && (#[trigger] s[i]).0@ == k {
                let i = choose|i: int| 0 <= i < s.len() && (#[trigger] s[i]).0@ == k;
                assert((s.drop_last()[i]).0@ == k);
            }
        }
    }
}

pub proof fn lemma_map_of_index<W>(s: Seq<(String, W)>, i: int)
    requires
        keys_distinct(s),
        0 <= i < s.len(),
    ensures
        map_of(s).contains_key(s[i].0@),
        map_of(s)[s[i].0@] == s[i].1,
    decreases s.len(),
{
    if i < s.len() - 1 {
        assert(keys_distinct(s.drop_last()));
        lemma_map_of_index(s.drop_last(), i);
        assert(s.drop_last()[i] == s[i]);
        assert(s.last().0@ != s[i].0@);
    }
}

pub proof fn lemma_map_of_remove<W>(s: Seq<(String, W)>, i: int)
    requires
        keys_distinct(s),
        0 <= i < s.len(),
    ensures
        map_of(s.remove(i)) == map_of(s).remove(s[i].0@),
    decreases s.len(),
{
    s.remove_ensures(i);
    if i == s.len() - 1 {
        assert(s.remove(i) =~= s.drop_last());
        lemma_map_of_contains(s.drop_last(), s[i].0@);
        assert(forall|j: int| 0 <= j < s.drop_last().len() ==> (#[trigger] s.drop_last()[j]).0@
            != s[i].0@);
        assert(map_of(s.drop_last()) =~= map_of(s).remove(s[i].0@));
    } else {
        assert(keys_distinct(s.drop_last()));
        lemma_map_of_remove(s.drop_last(), i);
        assert(s.remove(i).drop_last() =~= s.drop_last().remove(i));
        assert(s.remove(i).last() == s.last());
        assert(map_of(s.remove(i)) == map_of(s.drop_last().remove(i)).insert(
            s.last().0@,
            s.last().1,
        ));
        assert(s.last().0@ != s[i].0@);
        assert(map_of(s.drop_last()).remove(s[i].0@).insert(s.last().0@, s.last().1) =~= map_of(
            s.drop_last(),
        ).insert(s.last().0@, s.last().1).remove(s[i].0@));
    }
}

/// Table pairing each outstanding request identifier with its waiter.
pub struct Correlator<W> {
    entries: Vec<(String, W)>,
}

impl<W> View for Correlator<W> {
    type V = Map<Seq<char>, W>;

    closed spec fn view(&self) -> Map<Seq<char>, W> {
        map_of(self.entries@)
    }
}

impl<W> Correlator<W> {
    /// The table's internal invariant: identifiers are not repeated.
    pub closed spec fn wf(&self) -> bool {
        keys_distinct(self.entries@)
    }

    /// An empty table.
    pub fn new() -> (c: Self)
        ensures
            c.wf(),
            c@ == Map::<Seq<char>, W>::empty(),
    {
        let c = Correlator { entries: Vec::new() };
        proof {
            assert(c@ =~= Map::<Seq<char>, W>::empty());
        }
        c
    }

    fn position(&self, id: &String) -> (r: Option<usize>)
        ensures
            r matches Some(i) ==> i < self.entries@.len() && self.entries@[i as int].0@ == id@,
            r is None ==> forall|j: int|
                0 <= j < self.entries@.len() ==> (#[trigger] self.entries@[j]).0@ != id@,
    {
        let n = self.entries.len();
        let mut i: usize = 0;
        while i < n
            invariant
                n == self.entries@.len(),
                0 <= i <= n,
                forall|j: int| 0 <= j < i ==> (#[trigger] self.entries@[j]).0@ != id@,
            decreases n - i,
        {
            let e = &self.entries[i];
            if e.0 == *id {
                return Some(i);
            }
            i += 1;
        }
        None
    }

    /// Registers a waiter under an identifier. A waiter already registered
    /// under the same identifier is silently evicted and handed back, so
    /// that the caller can release it.
    pub fn insert(&mut self, id: String, waiter: W) -> (evicted: Option<W>)
        requires
            old(self).wf(),
        ensures
            final(self).wf(),
            final(self)@ == old(self)@.insert(id@, waiter),
            evicted matches Some(w) ==> old(self)@.contains_key(id@) && old(self)@[id@] == w,
            (evicted is None) <==> !old(self)@.contains_key(id@),
    {
        proof {
            lemma_map_of_contains(self.entries@, id@);
        }
        let evicted: Option<W> = match self.position(&id) {
            Some(i) => {
                proof {
                    lemma_map_of_index(self.entries@, i as int);
                    lemma_map_of_remove(self.entries@, i as int);
                    self.entries@.remove_ensures(i as int);
                }
                let (_, w) = self.entries.remove(i);
                proof {
                    assert(keys_distinct(self.entries@));
                }
                Some(w)
            },
            None => None,
        };
        proof {
            lemma_map_of_contains(self.entries@, id@);
            assert(forall|j: int|
                0 <= j < self.entries@.len() ==> (#[trigger] self.entries@[j]).0@ != id@);
        }
        let ghost pre = self.entries@;
        self.entries.push((id, waiter));
        proof {
            assert(self.entries@.drop_last() =~= pre);
            assert(keys_distinct(self.entries@));
            assert(final(self)@ == map_of(pre).insert(id@, waiter));
            assert(map_of(pre).insert(id@, waiter) =~= old(self)@.insert(id@, waiter));
        }
        evicted
    }

    /// Takes the waiter registered under an identifier out of the table,
    /// if one is there.
    pub fn remove(&mut self, id: &String) -> (r: Option<W>)
        requires
            old(self).wf(),
        ensures
            final(self).wf(),
            r matches Some(w) ==> old(self)@.contains_key(id@) && w == old(self)@[id@]
                && final(self)@ == old(self)@.remove(id@),
            r is None ==> !old(self)@.contains_key(id@) && *final(self) == *old(self),
    {
        proof {
            lemma_map_of_contains(self.entries@, id@);
        }
        match self.position(id) {
            Some(i) => {
                proof {
                    lemma_map_of_index(self.entries@, i as int);
                    lemma_map_of_remove(self.entries@, i as int);
                    self.entries@.remove_ensures(i as int);
                }
                let (_, w) = self.entries.remove(i);
                proof {
                    assert(keys_distinct(self.entries@));
                }
                Some(w)
            },
            None => None,
        }
    }

    /// Empties the table, handing every outstanding entry back so that each
    /// waiter can be resolved: no entry is left behind, none is invented,
    /// and no identifier appears twice.
    pub fn drain(&mut self) -> (r: Vec<(String, W)>)
        requires
            old(self).wf(),
        ensures
            final(self).wf(),
            final(self)@ == Map::<Seq<char>, W>::empty(),
            keys_distinct(r@),
            forall|j: int| 0 <= j < r@.len() ==> old(self)@.contains_key((#[trigger] r@[j]).0@)
                && old(self)@[r@[j].0@] == r@[j].1,
            forall|k: Seq<char>| old(self)@.contains_key(k) ==> exists|j: int|
                0 <= j < r@.len() && (#[trigger] r@[j]).0@ == k,
    {
        let ghost pre = self.entries@;
        let mut r: Vec<(String, W)> = Vec::new();
        while self.entries.len() > 0
            invariant
                keys_distinct(pre),
                self.entries@ == pre.take(pre.len() - r@.len()),
                r@.len() <= pre.len(),
                forall|j: int| 0 <= j < r@.len() ==> r@[j] == pre[pre.len() - 1 - j],
            decreases self.entries@.len(),
        {
            let ghost k = pre.len() - r@.len();
            proof {
                assert(pre.take(k)[k - 1] == pre[k - 1]);
                assert(pre.take(k).subrange(0, k - 1) =~= pre.take(k - 1));
            }
            let e = self.entries.pop().unwrap();
            r.push(e);
        }
        proof {
            assert(r@.len() == pre.len());
            assert(self.entries@ =~= Seq::<(String, W)>::empty());
            assert(final(self)@ =~= Map::<Seq<char>, W>::empty());
            assert forall|j: int, l: int| 0 <= j < l < r@.len() implies (#[trigger] r@[j]).0@ != (
            #[trigger] r@[l]).0@ by {
                assert(r@[j] == pre[pre.len() - 1 - j]);
                assert(r@[l] == pre[pre.len() - 1 - l]);
            }
            assert forall|j: int| 0 <= j < r@.len() implies map_of(pre).contains_key(
                (#[trigger] r@[j]).0@,
            ) && map_of(pre)[r@[j].0@] == r@[j].1 by {
                lemma_map_of_index(pre, pre.len() - 1 - j);
            }
            assert forall|k: Seq<char>| map_of(pre).contains_key(k) implies exists|j: int|
                0 <= j < r@.len() && (#[trigger] r@[j]).0@ == k by {
                lemma_map_of_contains(pre, k);
                let i = choose|i: int| 0 <= i < pre.len() && (#[trigger] pre[i]).0@ == k;
                assert((r@[pre.len() - 1 - i]).0@ == k);
            }
        }
        r
    }
}

} // verus!
