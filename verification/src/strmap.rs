//! A map with texts as keys.

use vstd::prelude::*;
use vstd::string::*;

use crate::text;
use crate::text::insert_in_order;

verus! {

/// A map from texts to values: no key stands in it twice.
#[derive(Debug)]
pub struct StrMap<T> {
    entries: Vec<(String, T)>,
}

/// What a list of entries maps its keys to.
pub open spec fn map_of<T>(entries: Seq<(String, T)>) -> Map<Seq<char>, T>
    decreases entries.len(),
{
    if entries.len() == 0 {
        Map::empty()
    } else {
        map_of(entries.drop_last()).insert(entries.last().0@, entries.last().1)
    }
}

/// No key stands in a list twice.
pub open spec fn keys_differ<T>(entries: Seq<(String, T)>) -> bool {
    forall|i: int, j: int|
        0 <= i < j < entries.len() ==> (#[trigger] entries[i]).0@ != (#[trigger] entries[j]).0@
}

/// A key is in the map where an entry has it, and each entry is what the map says of its key.
pub proof fn lemma_map_of<T>(entries: Seq<(String, T)>)
    requires
        keys_differ(entries),
    ensures
        forall|i: int|
            0 <= i < entries.len() ==> map_of(entries).dom().contains((#[trigger] entries[i]).0@)
                && map_of(entries)[entries[i].0@] == entries[i].1,
        forall|k: Seq<char>|
            #[trigger] map_of(entries).dom().contains(k) ==> exists|i: int|
                0 <= i < entries.len() && (#[trigger] entries[i]).0@ == k,
        map_of(entries).dom().finite(),
        map_of(entries).dom().len() == entries.len(),
    decreases entries.len(),
{
    if entries.len() > 0 {
        let shorter = entries.drop_last();
        assert(keys_differ(shorter)) by {
            assert forall|i: int, j: int| 0 <= i < j < shorter.len() implies (#[trigger] shorter[i]).0@
                != (#[trigger] shorter[j]).0@ by {
                assert(shorter[i] == entries[i] && shorter[j] == entries[j]);
            }
        }
        lemma_map_of(shorter);
        let last = entries.last();
        assert(!map_of(shorter).dom().contains(last.0@)) by {
            if map_of(shorter).dom().contains(last.0@) {
                let i = choose|i: int| 0 <= i < shorter.len() && (#[trigger] shorter[i]).0@ == last.0@;
                assert(entries[i].0@ != entries[entries.len() - 1].0@);
            }
        }
        assert forall|i: int| 0 <= i < entries.len() implies map_of(entries).dom().contains(
            (#[trigger] entries[i]).0@,
        ) && map_of(entries)[entries[i].0@] == entries[i].1 by {
            if i < shorter.len() {
                assert(shorter[i] == entries[i]);
                assert(entries[i].0@ != entries[entries.len() - 1].0@);
            }
        }
        assert forall|k: Seq<char>| #[trigger] map_of(entries).dom().contains(k) implies exists|i: int|
            0 <= i < entries.len() && (#[trigger] entries[i]).0@ == k by {
            if k == last.0@ {
                assert(entries[entries.len() - 1].0@ == k);
            } else {
                let i = choose|i: int| 0 <= i < shorter.len() && (#[trigger] shorter[i]).0@ == k;
                assert(entries[i].0@ == k);
            }
        }
    }
}

/// Taking an entry out of a list takes its key out of the map.
proof fn lemma_map_of_remove<T>(entries: Seq<(String, T)>, i: int)
    requires
        keys_differ(entries),
        0 <= i < entries.len(),
    ensures
        keys_differ(entries.remove(i)),
        map_of(entries.remove(i)) == map_of(entries).remove(entries[i].0@),
{
    let rest = entries.remove(i);
    assert forall|a: int, b: int| 0 <= a < b < rest.len() implies (#[trigger] rest[a]).0@
        != (#[trigger] rest[b]).0@ by {
        let a0 = if a < i { a } else { a + 1 };
        let b0 = if b < i { b } else { b + 1 };
        assert(rest[a] == entries[a0] && rest[b] == entries[b0]);
    }
    lemma_map_of(entries);
    lemma_map_of(rest);
    let key = entries[i].0@;
    assert forall|k: Seq<char>| map_of(rest).dom().contains(k) <==> map_of(entries).remove(
        key,
    ).dom().contains(k) by {
        if map_of(rest).dom().contains(k) {
            let a = choose|a: int| 0 <= a < rest.len() && (#[trigger] rest[a]).0@ == k;
            let a0 = if a < i { a } else { a + 1 };
            assert(entries[a0] == rest[a]);
            assert(entries[a0].0@ != entries[i].0@);
        }
        if map_of(entries).dom().contains(k) && k != key {
            let a0 = choose|a0: int| 0 <= a0 < entries.len() && (#[trigger] entries[a0]).0@ == k;
            let a = if a0 < i { a0 } else { a0 - 1 };
            assert(rest[a] == entries[a0]);
        }
    }
    assert forall|k: Seq<char>| map_of(rest).dom().contains(k) implies map_of(rest)[k] == map_of(
        entries,
    )[k] by {
        let a = choose|a: int| 0 <= a < rest.len() && (#[trigger] rest[a]).0@ == k;
        let a0 = if a < i { a } else { a + 1 };
        assert(entries[a0] == rest[a]);
    }
    assert(map_of(rest) =~= map_of(entries).remove(key));
}

/// The part of a map whose values fit.
pub open spec fn filtered<T>(m: Map<Seq<char>, T>, fits: spec_fn(T) -> bool) -> Map<Seq<char>, T> {
    m.restrict(Set::new(|k: Seq<char>| m.dom().contains(k) && fits(m[k])))
}

/// One more entry: it is in the map of the fitting ones where it fits.
proof fn lemma_filtered_push<T>(done: Seq<(String, T)>, e: (String, T), fits: spec_fn(T) -> bool)
    requires
        keys_differ(done.push(e)),
    ensures
        keys_differ(done),
        !map_of(done).dom().contains(e.0@),
        map_of(done.push(e)) == map_of(done).insert(e.0@, e.1),
        filtered(map_of(done.push(e)), fits) == (if fits(e.1) {
            filtered(map_of(done), fits).insert(e.0@, e.1)
        } else {
            filtered(map_of(done), fits)
        }),
{
    let all = done.push(e);
    assert(all.drop_last() =~= done);
    assert forall|i: int, j: int| 0 <= i < j < done.len() implies (#[trigger] done[i]).0@ != (
    #[trigger] done[j]).0@ by {
        assert(all[i] == done[i] && all[j] == done[j]);
    }
    lemma_map_of(done);
    if map_of(done).dom().contains(e.0@) {
        let k = choose|k: int| 0 <= k < done.len() && (#[trigger] done[k]).0@ == e.0@;
        assert(all[k].0@ != all[done.len() as int].0@);
    }
    if fits(e.1) {
        assert(filtered(map_of(all), fits) =~= filtered(map_of(done), fits).insert(e.0@, e.1));
    } else {
        assert(filtered(map_of(all), fits) =~= filtered(map_of(done), fits));
    }
}

impl<T> StrMap<T> {
    pub closed spec fn view(&self) -> Map<Seq<char>, T> {
        map_of(self.entries@)
    }

    /// The entries, in the order in which their keys came.
    pub closed spec fn pairs(&self) -> Seq<(String, T)> {
        self.entries@
    }

    #[verifier::type_invariant]
    spec fn well_formed(&self) -> bool {
        keys_differ(self.entries@)
    }

    pub fn new() -> (r: Self)
        ensures
            r@ == Map::<Seq<char>, T>::empty(),
            r.pairs().len() == 0,
    {
        StrMap { entries: Vec::new() }
    }

    fn position(&self, key: &str) -> (r: Option<usize>)
        ensures
            match r {
                Some(i) => i < self.entries.len() && self.entries@[i as int].0@ == key@ && self@.dom().contains(
                    key@,
                ) && self@[key@] == self.entries@[i as int].1,
                None => !self@.dom().contains(key@) && forall|k: int|
                    0 <= k < self.entries.len() ==> (#[trigger] self.entries@[k]).0@ != key@,
            },
    {
        proof {
            use_type_invariant(self);
            lemma_map_of(self.entries@);
        }
        let wanted: String = key.to_owned();
        let mut i: usize = 0;
        while i < self.entries.len()
            invariant
                i <= self.entries.len(),
                wanted@ == key@,
                forall|k: int| 0 <= k < i ==> (#[trigger] self.entries@[k]).0@ != key@,
            decreases self.entries.len() - i,
        {
            if self.entries[i].0 == wanted {
                proof {
                    use_type_invariant(self);
                    lemma_map_of(self.entries@);
                }
                return Some(i);
            }
            i = i + 1;
        }
        proof {
            lemma_map_of(self.entries@);
        }
        None
    }

    /// The value of a key.
    pub fn get(&self, key: &str) -> (r: Option<&T>)
        ensures
            match r {
                Some(v) => self@.dom().contains(key@) && self@[key@] == *v,
                None => !self@.dom().contains(key@),
            },
    {
        match self.position(key) {
            Some(i) => Some(&self.entries[i].1),
            None => None,
        }
    }

    /// Takes a key out, and hands back its value.
    pub fn remove(&mut self, key: &str) -> (r: Option<T>)
        ensures
            final(self)@ == old(self)@.remove(key@),
            r == (if old(self)@.dom().contains(key@) {
                Some(old(self)@[key@])
            } else {
                None
            }),
    {
        match self.position(key) {
            Some(i) => {
                let mut entries: Vec<(String, T)> = Vec::new();
                proof {
                    use_type_invariant(&*self);
                }
                std::mem::swap(&mut entries, &mut self.entries);
                proof {
                    lemma_map_of_remove(entries@, i as int);
                }
                let taken = entries.remove(i);
                self.entries = entries;
                Some(taken.1)
            },
            None => {
                assert(self@.remove(key@) =~= self@);
                None
            },
        }
    }

    /// Gives a key a value.
    pub fn insert(&mut self, key: &str, value: T)
        ensures
            final(self)@ == old(self)@.insert(key@, value),
    {
        let ghost before = self@;
        let _ = self.remove(key);
        let mut entries: Vec<(String, T)> = Vec::new();
        proof {
            use_type_invariant(&*self);
            lemma_map_of(self.entries@);
        }
        std::mem::swap(&mut entries, &mut self.entries);
        let ghost rest = entries@;
        entries.push((key.to_owned(), value));
        proof {
            assert(entries@.drop_last() =~= rest);
            assert(!map_of(rest).dom().contains(key@));
            assert forall|i: int, j: int| 0 <= i < j < entries@.len() implies (#[trigger] entries@[i]).0@
                != (#[trigger] entries@[j]).0@ by {
                if j == rest.len() {
                    assert(rest[i] == entries@[i]);
                    assert(map_of(rest).dom().contains(rest[i].0@));
                } else {
                    assert(rest[i] == entries@[i] && rest[j] == entries@[j]);
                }
            }
            assert(before.remove(key@).insert(key@, value) =~= before.insert(key@, value));
        }
        self.entries = entries;
    }

    pub fn len(&self) -> (r: usize)
        ensures
            r == self.pairs().len(),
            r == self@.dom().len(),
            self@.dom().finite(),
            self@ == map_of(self.pairs()),
            keys_differ(self.pairs()),
    {
        proof {
            use_type_invariant(self);
            lemma_map_of(self.entries@);
        }
        self.entries.len()
    }

    /// Keeps the values that fit, and tells how many did not.
    pub fn retain<F: Fn(&T) -> bool>(&mut self, keep: F, Ghost(fits): Ghost<spec_fn(T) -> bool>) -> (r:
        usize)
        requires
            forall|v: T| #[trigger] call_requires(keep, (&v,)),
            forall|v: T, b: bool| #[trigger] call_ensures(keep, (&v,), b) ==> b == fits(v),
        ensures
            final(self)@ == filtered(old(self)@, fits),
            r == old(self)@.dom().len() - final(self)@.dom().len(),
    {
        proof {
            use_type_invariant(&*self);
            lemma_map_of(self.entries@);
        }
        let ghost before = self.entries@;
        let mut entries: Vec<(String, T)> = Vec::new();
        std::mem::swap(&mut entries, &mut self.entries);
        let total: usize = entries.len();
        let mut kept: Vec<(String, T)> = Vec::new();
        proof {
            assert(map_of(kept@) =~= filtered(map_of(before.take(0)), fits));
        }
        for e in it: entries.into_iter()
            invariant
                it.seq() == before,
                keys_differ(before),
                keys_differ(kept@),
                kept.len() <= it.index(),
                map_of(kept@) == filtered(map_of(before.take(it.index())), fits),
                forall|v: T| #[trigger] call_requires(keep, (&v,)),
                forall|v: T, b: bool| #[trigger] call_ensures(keep, (&v,), b) ==> b == fits(v),
        {
            proof {
                let done = before.take(it.index());
                assert(done.push(e) =~= before.take(it.index() + 1));
                assert(keys_differ(done.push(e))) by {
                    assert forall|i: int, j: int| 0 <= i < j < done.push(e).len() implies (
                    #[trigger] done.push(e)[i]).0@ != (#[trigger] done.push(e)[j]).0@ by {
                        assert(done.push(e)[i] == before[i] && done.push(e)[j] == before[j]);
                    }
                }
                lemma_filtered_push(done, e, fits);
                lemma_map_of(kept@);
            }
            if keep(&e.1) {
                let ghost rest = kept@;
                kept.push(e);
                proof {
                    assert(kept@.drop_last() =~= rest);
                    assert forall|i: int, j: int| 0 <= i < j < kept@.len() implies (
                    #[trigger] kept@[i]).0@ != (#[trigger] kept@[j]).0@ by {
                        assert(rest[i] == kept@[i]);
                        if j < rest.len() {
                            assert(rest[j] == kept@[j]);
                        } else {
                            assert(map_of(rest).dom().contains(rest[i].0@));
                        }
                    }
                }
            }
        }
        proof {
            assert(before.take(before.len() as int) =~= before);
            lemma_map_of(kept@);
        }
        let left: usize = kept.len();
        self.entries = kept;
        total - left
    }

    /// The key of some value that fits.
    pub fn find_key<F: Fn(&T) -> bool>(&self, test: F, Ghost(fits): Ghost<spec_fn(T) -> bool>) -> (r:
        Option<String>)
        requires
            forall|v: T| #[trigger] call_requires(test, (&v,)),
            forall|v: T, b: bool| #[trigger] call_ensures(test, (&v,), b) ==> b == fits(v),
        ensures
            match r {
                Some(k) => self@.dom().contains(k@) && fits(self@[k@]),
                None => forall|k: Seq<char>|
                    self@.dom().contains(k) ==> !fits(#[trigger] self@[k]),
            },
    {
        proof {
            use_type_invariant(self);
            lemma_map_of(self.entries@);
        }
        let mut i: usize = 0;
        while i < self.entries.len()
            invariant
                i <= self.entries.len(),
                forall|k: int| 0 <= k < i ==> !fits((#[trigger] self.entries@[k]).1),
                forall|v: T| #[trigger] call_requires(test, (&v,)),
                forall|v: T, b: bool| #[trigger] call_ensures(test, (&v,), b) ==> b == fits(v),
            decreases self.entries.len() - i,
        {
            if test(&self.entries[i].1) {
                proof {
                    use_type_invariant(self);
                    lemma_map_of(self.entries@);
                }
                return Some(self.entries[i].0.clone());
            }
            i = i + 1;
        }
        proof {
            lemma_map_of(self.entries@);
            assert forall|k: Seq<char>| self@.dom().contains(k) implies !fits(
                #[trigger] self@[k],
            ) by {
                let i = choose|i: int|
                    0 <= i < self.entries@.len() && (#[trigger] self.entries@[i]).0@ == k;
                assert(!fits(self.entries@[i].1));
            }
        }
        None
    }

    /// How many values fit.
    pub fn count<F: Fn(&T) -> bool>(&self, test: F, Ghost(fits): Ghost<spec_fn(T) -> bool>) -> (r:
        usize)
        requires
            forall|v: T| #[trigger] call_requires(test, (&v,)),
            forall|v: T, b: bool| #[trigger] call_ensures(test, (&v,), b) ==> b == fits(v),
        ensures
            r == filtered(self@, fits).dom().len(),
    {
        let ghost all = self.entries@;
        proof {
            use_type_invariant(self);
            assert(filtered(map_of(all.take(0)), fits).dom() =~= Set::<Seq<char>>::empty());
        }
        let mut n: usize = 0;
        let mut i: usize = 0;
        while i < self.entries.len()
            invariant
                i <= self.entries.len(),
                n <= i,
                all == self.entries@,
                keys_differ(all),
                filtered(map_of(all.take(i as int)), fits).dom().finite(),
                n == filtered(map_of(all.take(i as int)), fits).dom().len(),
                forall|v: T| #[trigger] call_requires(test, (&v,)),
                forall|v: T, b: bool| #[trigger] call_ensures(test, (&v,), b) ==> b == fits(v),
            decreases self.entries.len() - i,
        {
            proof {
                let done = all.take(i as int);
                let e = all[i as int];
                assert(done.push(e) =~= all.take(i + 1));
                assert(keys_differ(done.push(e))) by {
                    assert forall|a: int, b: int| 0 <= a < b < done.push(e).len() implies (
                    #[trigger] done.push(e)[a]).0@ != (#[trigger] done.push(e)[b]).0@ by {
                        assert(done.push(e)[a] == all[a] && done.push(e)[b] == all[b]);
                    }
                }
                lemma_filtered_push(done, e, fits);
                assert(filtered(map_of(done), fits).insert(e.0@, e.1).dom() =~= filtered(
                    map_of(done),
                    fits,
                ).dom().insert(e.0@));
            }
            if test(&self.entries[i].1) {
                n = n + 1;
            }
            i = i + 1;
        }
        assert(all.take(i as int) =~= all);
        n
    }

    /// The keys, in order.
    pub fn sorted_keys(&self) -> (r: Vec<String>)
        ensures
            text::in_order(text::texts(r@)),
            text::texts(r@).no_duplicates(),
            text::texts(r@).to_set() == self@.dom(),
    {
        proof {
            use_type_invariant(self);
            lemma_map_of(self.entries@);
        }
        let ghost all = self.entries@;
        let mut out: Vec<String> = Vec::new();
        let mut i: usize = 0;
        while i < self.entries.len()
            invariant
                i <= self.entries.len(),
                all == self.entries@,
                keys_differ(all),
                text::in_order(text::texts(out@)),
                text::texts(out@).no_duplicates(),
                forall|k: Seq<char>| #[trigger]
                    text::texts(out@).to_set().contains(k) <==> exists|j: int|
                        0 <= j < i && (#[trigger] all[j]).0@ == k,
            decreases self.entries.len() - i,
        {
            let ghost before = text::texts(out@);
            let ghost key = all[i as int].0@;
            proof {
                if before.contains(key) {
                    assert(before.to_set().contains(key));
                    let j = choose|j: int| 0 <= j < i && (#[trigger] all[j]).0@ == key;
                    assert(all[j].0@ != all[i as int].0@);
                }
            }
            insert_in_order(&mut out, self.entries[i].0.clone());
            proof {
                assert forall|k: Seq<char>| #[trigger]
                    text::texts(out@).to_set().contains(k) <==> exists|j: int|
                        0 <= j < i + 1 && (#[trigger] all[j]).0@ == k by {
                    assert(text::texts(out@).to_set().contains(k) <==> before.to_set().contains(k)
                        || k == key);
                    if before.to_set().contains(k) {
                        let j = choose|j: int| 0 <= j < i && (#[trigger] all[j]).0@ == k;
                        assert(all[j].0@ == k);
                    }
                    if k == key {
                        assert(all[i as int].0@ == k);
                    }
                    if exists|j: int| 0 <= j < i + 1 && (#[trigger] all[j]).0@ == k {
                        let j = choose|j: int| 0 <= j < i + 1 && (#[trigger] all[j]).0@ == k;
                        if j < i {
                            assert(before.to_set().contains(k));
                        }
                    }
                }
            }
            i = i + 1;
        }
        proof {
            lemma_map_of(all);
            assert(text::texts(out@).to_set() =~= self@.dom());
        }
        out
    }

    /// The value at a position.
    pub fn value_at(&self, i: usize) -> (r: &T)
        requires
            i < self.pairs().len(),
        ensures
            *r == self.pairs()[i as int].1,
    {
        &self.entries[i].1
    }
}

impl<T: Copy> StrMap<T> {
    /// The same map once more.
    pub fn copy(&self) -> (r: Self)
        ensures
            r@ == self@,
    {
        let mut entries: Vec<(String, T)> = Vec::new();
        let mut i: usize = 0;
        while i < self.entries.len()
            invariant
                i <= self.entries.len(),
                entries@ == self.entries@.take(i as int),
            decreases self.entries.len() - i,
        {
            entries.push((self.entries[i].0.clone(), self.entries[i].1));
            assert(entries@ =~= self.entries@.take(i + 1));
            i = i + 1;
        }
        proof {
            use_type_invariant(self);
            assert(entries@ =~= self.entries@);
        }
        StrMap { entries }
    }
}

} // verus!
