//! The connection registry: the single source of truth for who is online.
//!
//! It maps a user id to the handle of that user's one live connection
//! (last-registered wins on reconnect). Handles are opaque numbers; the
//! transport layer owns the actual send-capable endpoints and keys them by
//! these numbers. The registry itself keeps no persistent state: it is
//! rebuilt from nothing on restart as clients re-register.

use vstd::prelude::*;

verus! {

/// In-memory map from user id to live connection handle.
///
/// Abstractly a `Map<Seq<char>, u64>`; the entry list never holds the same
/// user id twice.
pub struct AddrMap {
    entries: Vec<(String, u64)>,
}

/// The map an entry list denotes: later entries win, though `AddrMap`
/// keeps its keys unique so the order never matters.
pub closed spec fn map_of(entries: Seq<(String, u64)>) -> Map<Seq<char>, u64>
    decreases entries.len(),
{
    if entries.len() == 0 {
        Map::empty()
    } else {
        map_of(entries.drop_last()).insert(entries.last().0@, entries.last().1)
    }
}

/// No user id occurs twice in the entry list.
spec fn keys_unique(entries: Seq<(String, u64)>) -> bool {
    forall|i: int, j: int|
        0 <= i < j < entries.len() ==> entries[i].0@ != entries[j].0@
}

proof fn lemma_map_of_contains(entries: Seq<(String, u64)>, k: Seq<char>)
    ensures
        map_of(entries).contains_key(k) <==> exists|i: int|
            0 <= i < entries.len() && entries[i].0@ == k,
    decreases entries.len(),
{
    if entries.len() > 0 {
        lemma_map_of_contains(entries.drop_last(), k);
        if entries.last().0@ == k {
            assert(entries[entries.len() - 1].0@ == k);
        } else if map_of(entries).contains_key(k) {
            let i = choose|i: int|
                0 <= i < entries.drop_last().len() && entries.drop_last()[i].0@ == k;
            assert(entries[i].0@ == k);
        } else if exists|i: int| 0 <= i < entries.len() && entries[i].0@ == k {
            let i = choose|i: int| 0 <= i < entries.len() && entries[i].0@ == k;
            assert(entries.drop_last()[i].0@ == k);
        }
    }
}

proof fn lemma_map_of_index(entries: Seq<(String, u64)>, i: int)
    requires
        keys_unique(entries),
        0 <= i < entries.len(),
    ensures
        map_of(entries).contains_key(entries[i].0@),
        map_of(entries)[entries[i].0@] == entries[i].1,
    decreases entries.len(),
{
    if i == entries.len() - 1 {
    } else {
        lemma_map_of_index(entries.drop_last(), i);
        assert(entries.drop_last()[i] == entries[i]);
    }
}

proof fn lemma_map_of_push(entries: Seq<(String, u64)>, e: (String, u64))
    ensures
        map_of(entries.push(e)) == map_of(entries).insert(e.0@, e.1),
{
    assert(entries.push(e).drop_last() =~= entries);
}

proof fn lemma_map_of_remove_at(entries: Seq<(String, u64)>, i: int)
    requires
        keys_unique(entries),
        0 <= i < entries.len(),
    ensures
        map_of(entries.remove(i)) =~= map_of(entries).remove(entries[i].0@),
    decreases entries.len(),
{
    let k = entries[i].0@;
    if i == entries.len() - 1 {
        assert(entries.remove(i) =~= entries.drop_last());
        lemma_map_of_contains(entries.drop_last(), k);
        assert(!map_of(entries.drop_last()).contains_key(k));
        assert(map_of(entries).remove(k) =~= map_of(entries.drop_last()));
    } else {
        let last = entries.last();
        assert(entries.remove(i).drop_last() =~= entries.drop_last().remove(i));
        assert(entries.remove(i).last() == last);
        lemma_map_of_remove_at(entries.drop_last(), i);
        assert(entries.drop_last()[i] == entries[i]);
        assert(map_of(entries.remove(i)) =~= map_of(entries.drop_last()).remove(k).insert(
            last.0@,
            last.1,
        ));
        assert(last.0@ != k);
        assert(map_of(entries.drop_last()).remove(k).insert(last.0@, last.1) =~= map_of(
            entries.drop_last(),
        ).insert(last.0@, last.1).remove(k));
    }
}

impl AddrMap {
    /// The registry as a mathematical map from user id to handle.
    pub closed spec fn view(&self) -> Map<Seq<char>, u64> {
        map_of(self.entries@)
    }

    /// Well-formedness: the entry list never holds a user id twice.
    /// `new` establishes it and every method keeps it.
    pub closed spec fn inv(&self) -> bool {
        keys_unique(self.entries@)
    }

    /// An empty registry: nobody is online.
    pub fn new() -> (r: AddrMap)
        ensures
            r.inv(),
            r@ == Map::<Seq<char>, u64>::empty(),
    {
        AddrMap { entries: Vec::new() }
    }

    /// The index holding `id`, if any.
    fn find(&self, id: &String) -> (r: Option<usize>)
        ensures
            match r {
                Some(i) => i < self.entries@.len() && self.entries@[i as int].0@ == id@,
                None => forall|i: int|
                    0 <= i < self.entries@.len() ==> self.entries@[i].0@ != id@,
            },
    {
        let mut i: usize = 0;
        while i < self.entries.len()
            invariant
                i <= self.entries@.len(),
                forall|j: int| 0 <= j < i ==> self.entries@[j].0@ != id@,
            decreases self.entries@.len() - i,
        {
            if self.entries[i].0 == *id {
                return Some(i);
            }
            i = i + 1;
        }
        None
    }

    /// Register `handle` as `id`'s live connection, replacing any handle
    /// registered before: the last write wins.
    pub fn add_addr(&mut self, id: &String, handle: u64)
        requires
            old(self).inv(),
        ensures
            final(self).inv(),
            final(self)@ == old(self)@.insert(id@, handle),
    {
        let found = self.find(id);
        if let Some(i) = found {
            let ghost before = self.entries@;
            self.entries.remove(i);
            proof {
                lemma_map_of_remove_at(before, i as int);
                assert forall|j: int| 0 <= j < self.entries@.len() implies self.entries@[j].0@
                    != id@ by {
                    if j < i {
                        assert(self.entries@[j] == before[j]);
                    } else {
                        assert(self.entries@[j] == before[j + 1]);
                    }
                }
                assert(keys_unique(self.entries@));
            }
            let entry = (id.clone(), handle);
            let ghost e = entry;
            let ghost base = self.entries@;
            self.entries.push(entry);
            proof {
                lemma_map_of_push(base, e);
                assert(map_of(base) == old(self)@.remove(id@));
                assert(map_of(self.entries@) =~= old(self)@.insert(id@, handle));
                assert(keys_unique(self.entries@));
            }
        } else {
            let entry = (id.clone(), handle);
            let ghost e = entry;
            let ghost base = self.entries@;
            self.entries.push(entry);
            proof {
                lemma_map_of_push(base, e);
                assert(map_of(self.entries@) =~= old(self)@.insert(id@, handle));
                assert(keys_unique(self.entries@));
            }
        }
    }

    /// The live handle for `id`: `None` means offline, which is not a
    /// failure.
    pub fn get_addr(&self, id: &String) -> (r: Option<u64>)
        requires
            self.inv(),
        ensures
            r == if self@.contains_key(id@) {
                Some(self@[id@])
            } else {
                Option::<u64>::None
            },
    {
        let found = self.find(id);
        match found {
            Some(i) => {
                proof {
                    lemma_map_of_index(self.entries@, i as int);
                }
                Some(self.entries[i].1)
            },
            None => {
                proof {
                    lemma_map_of_contains(self.entries@, id@);
                }
                None
            },
        }
    }

    /// Drop `id`'s registration, if any; afterwards `id` is offline.
    pub fn remove_addr(&mut self, id: &String)
        requires
            old(self).inv(),
        ensures
            final(self).inv(),
            final(self)@ == old(self)@.remove(id@),
    {
        let found = self.find(id);
        if let Some(i) = found {
            let ghost before = self.entries@;
            self.entries.remove(i);
            proof {
                lemma_map_of_remove_at(before, i as int);
            }
        } else {
            proof {
                lemma_map_of_contains(self.entries@, id@);
                assert(map_of(self.entries@) =~= map_of(self.entries@).remove(id@));
            }
        }
    }
}

/// Law: registering twice keeps only the last handle, and a removed user
/// is gone. For every registry state `m`, user `u` and handles `h1`, `h2`:
/// after `add(u, h1)` then `add(u, h2)` a lookup of `u` yields `h2`, and
/// after a further `remove(u)` the lookup yields nothing.
pub proof fn lemma_registry_last_write_wins(m: Map<Seq<char>, u64>, u: Seq<char>, h1: u64, h2: u64)
    ensures
        m.insert(u, h1).insert(u, h2).contains_key(u),
        m.insert(u, h1).insert(u, h2)[u] == h2,
        !m.insert(u, h1).insert(u, h2).remove(u).contains_key(u),
{
}

} // verus!
