//! A map from 64 bit identifiers, for the handful of frames,
//! transfers and pings that are under way at one time.

use crate::clock;
use crate::clock::nanos_since;
use std::collections::BTreeMap;
use vstd::prelude::*;

verus! {

/// Something that remembers when it was last touched.
pub trait Timed: View {
    /// The time that what the value holds was last touched.
    spec fn stamp_of(held: Self::V) -> u64;

    fn stamp(&self) -> (time: u64)
        ensures
            time == Self::stamp_of(self@),
    ;
}

/// A map from identifiers to values.
pub struct IdMap<V: View> {
    entries: BTreeMap<u64, V>,
}

impl<V: View> View for IdMap<V> {
    type V = Map<u64, V::V>;

    closed spec fn view(&self) -> Map<u64, V::V> {
        Map::new(|id: u64| self.entries@.contains_key(id), |id: u64| self.entries@[id]@)
    }
}

impl<V: View> IdMap<V> {
    pub fn new() -> (map: Self)
        ensures
            map@ == Map::<u64, V::V>::empty(),
    {
        let map = IdMap { entries: BTreeMap::new() };
        assert(map@ =~= Map::<u64, V::V>::empty());
        map
    }

    pub fn len(&self) -> (len: usize)
        ensures
            self@.dom().finite(),
            len == self@.len(),
    {
        assert(self@.dom() =~= self.entries@.dom());
        self.entries.len()
    }

    pub fn contains(&self, id: u64) -> (found: bool)
        ensures
            found == self@.contains_key(id),
    {
        self.entries.contains_key(&id)
    }

    pub fn get(&self, id: u64) -> (value: Option<&V>)
        ensures
            match value {
                Some(value) => self@.contains_key(id) && value@ == self@[id],
                None => !self@.contains_key(id),
            },
    {
        self.entries.get(&id)
    }

    /// Takes the value of `id` out of the map.
    pub fn remove(&mut self, id: u64) -> (value: Option<V>)
        ensures
            old(self)@.dom().finite(),
            final(self)@ == old(self)@.remove(id),
            match value {
                Some(value) => old(self)@.contains_key(id) && value@ == old(self)@[id],
                None => !old(self)@.contains_key(id),
            },
    {
        let ghost before = self@;
        assert(before.dom() =~= self.entries@.dom());
        let value = self.entries.remove(&id);
        assert(self@ =~= before.remove(id));
        value
    }

    /// Gives `id` a value, in place of the one that it had.
    pub fn insert(&mut self, id: u64, value: V)
        ensures
            final(self)@ == old(self)@.insert(id, value@),
    {
        let ghost before = self@;
        let _ = self.entries.insert(id, value);
        assert(self@ =~= before.insert(id, value@));
    }

    pub fn clear(&mut self)
        ensures
            final(self)@ == Map::<u64, V::V>::empty(),
    {
        self.entries.clear();
        assert(self@ =~= Map::<u64, V::V>::empty());
    }

    /// The identifiers.
    fn ids(&self) -> (ids: Vec<u64>)
        ensures
            forall|id: u64| #[trigger] self@.contains_key(id) <==> ids@.contains(id),
    {
        let mut ids: Vec<u64> = Vec::new();
        let entries = self.entries.keys();
        let ghost all = vstd::std_specs::btree::into_iter_keys(entries);
        assert(all.to_set() == self.entries@.dom());
        for id in keys: entries
            invariant
                keys.seq().unref() == all,
                ids@ == all.take(keys.index()),
        {
            ids.push(*id);
        }
        assert(ids@ =~= all);
        assert forall|id: u64| #[trigger] self@.contains_key(id) <==> ids@.contains(id) by {
            assert(all.to_set().contains(id) <==> all.contains(id));
        }
        ids
    }

    /// The smallest identifier.
    pub fn first_id(&self) -> (id: Option<u64>)
        ensures
            match id {
                Some(id) => self@.contains_key(id) && forall|other: u64|
                    self@.contains_key(other) ==> id <= other,
                None => self@ == Map::<u64, V::V>::empty(),
            },
    {
        let ids = self.ids();
        if ids.len() == 0 {
            assert(self@ =~= Map::<u64, V::V>::empty());
            return None;
        }
        let mut first: u64 = ids[0];
        let mut i: usize = 1;
        while i < ids.len()
            invariant
                1 <= i <= ids@.len(),
                ids@.contains(first),
                forall|k: int| 0 <= k < i ==> first <= #[trigger] ids@[k],
            decreases ids@.len() - i,
        {
            if ids[i] < first {
                first = ids[i];
            }
            i += 1;
        }
        Some(first)
    }

    /// The largest identifier.
    pub fn last_id(&self) -> (id: Option<u64>)
        ensures
            match id {
                Some(id) => self@.contains_key(id) && forall|other: u64|
                    self@.contains_key(other) ==> other <= id,
                None => self@ == Map::<u64, V::V>::empty(),
            },
    {
        let ids = self.ids();
        if ids.len() == 0 {
            assert(self@ =~= Map::<u64, V::V>::empty());
            return None;
        }
        let mut last: u64 = ids[0];
        let mut i: usize = 1;
        while i < ids.len()
            invariant
                1 <= i <= ids@.len(),
                ids@.contains(last),
                forall|k: int| 0 <= k < i ==> #[trigger] ids@[k] <= last,
            decreases ids@.len() - i,
        {
            if ids[i] > last {
                last = ids[i];
            }
            i += 1;
        }
        Some(last)
    }
}

/// The smallest identifier.
pub open spec fn smallest<W>(held: Map<u64, W>) -> u64 {
    choose|id: u64| #![trigger held.contains_key(id)] held.contains_key(id) && forall|other: u64| #[trigger]
        held.contains_key(other) ==> id <= other
}

/// The largest identifier.
pub open spec fn largest<W>(held: Map<u64, W>) -> u64 {
    choose|id: u64| #![trigger held.contains_key(id)] held.contains_key(id) && forall|other: u64| #[trigger]
        held.contains_key(other) ==> other <= id
}

/// The map, without its smallest identifier if there are more than `limit`.
pub open spec fn capped<W>(held: Map<u64, W>, limit: nat) -> Map<u64, W> {
    if held.len() > limit {
        held.remove(smallest(held))
    } else {
        held
    }
}

/// The map, with a value for `id` if there was none.
pub open spec fn with_default<W>(held: Map<u64, W>, id: u64, value: W) -> Map<u64, W> {
    if held.contains_key(id) {
        held
    } else {
        held.insert(id, value)
    }
}

impl<V: View> IdMap<V> {
    /// Takes out the smallest identifier if there are more than `limit`.
    pub fn cap(&mut self, limit: usize)
        ensures
            final(self)@ == capped(old(self)@, limit as nat),
    {
        if self.len() > limit {
            match self.first_id() {
                Some(id) => {
                    proof {
                        let ghost held = self@;
                        assert(held.contains_key(id));
                        let ghost chosen = smallest(held);
                        assert(held.contains_key(chosen) && chosen <= id);
                    }
                    let _ = self.remove(id);
                },
                None => {
                    assert(self@.dom() =~= Set::empty());
                },
            }
        }
    }

    /// The largest identifier, of a map that is not empty.
    pub fn largest_id(&self) -> (id: u64)
        requires
            self@.len() > 0,
        ensures
            id == largest(self@),
            self@.contains_key(id),
    {
        match self.last_id() {
            Some(id) => {
                proof {
                    assert(self@.contains_key(id));
                    let ghost chosen = largest(self@);
                    assert(self@.contains_key(chosen) && id <= chosen);
                }
                id
            },
            None => {
                assert(self@.dom() =~= Set::empty());
                0
            },
        }
    }

    /// Gives `id` a value if it has none.
    pub fn insert_if_absent(&mut self, id: u64, value: V)
        ensures
            final(self)@ == with_default(old(self)@, id, value@),
    {
        if !self.contains(id) {
            self.insert(id, value);
        }
    }
}

impl Timed for u64 {
    open spec fn stamp_of(held: u64) -> u64 {
        held
    }

    fn stamp(&self) -> (time: u64) {
        *self
    }
}

/// What is left when everything older than `max_age` is taken out.
pub open spec fn recent<V: Timed>(held: Map<u64, V::V>, now: u64, max_age: u128) -> Map<
    u64,
    V::V,
> {
    Map::new(
        |id: u64| held.contains_key(id) && clock::age(now, V::stamp_of(held[id])) <= max_age,
        |id: u64| held[id],
    )
}

/// Nothing was touched longer ago than `id`, and nothing with a smaller
/// identifier as long ago.
pub open spec fn is_oldest<V: Timed>(held: Map<u64, V::V>, id: u64) -> bool {
    held.contains_key(id) && forall|other: u64| #[trigger]
        held.contains_key(other) ==> is_older::<V>(held, id, other)
}

/// One was touched longer ago than the other, or as long ago with a smaller identifier.
pub open spec fn is_older<V: Timed>(held: Map<u64, V::V>, id: u64, other: u64) -> bool {
    V::stamp_of(held[id]) < V::stamp_of(held[other]) || (V::stamp_of(held[id]) == V::stamp_of(
        held[other],
    ) && id <= other)
}

impl<V: Timed> IdMap<V> {
    /// When the value of an identifier that is in the map was last touched.
    fn stamp_of_id(&self, id: u64) -> (time: u64)
        requires
            self@.contains_key(id),
        ensures
            time == V::stamp_of(self@[id]),
    {
        match self.get(id) {
            Some(value) => value.stamp(),
            None => 0,
        }
    }

    /// Takes out what was last touched more than `max_age` before `now`, and
    /// says how much that was.
    pub fn retain_recent(&mut self, now: u64, max_age: u128) -> (removed: usize)
        ensures
            final(self)@ == recent::<V>(old(self)@, now, max_age),
            old(self)@.dom().finite(),
            final(self)@.dom().finite(),
            removed == old(self)@.len() - final(self)@.len(),
    {
        let ghost before = self@;
        let total: usize = self.len();
        let ids = self.ids();
        let mut i: usize = 0;
        while i < ids.len()
            invariant
                i <= ids@.len(),
                forall|id: u64| #[trigger] before.contains_key(id) <==> ids@.contains(id),
                forall|id: u64| #[trigger]
                    self@.contains_key(id) ==> before.contains_key(id) && self@[id] == before[id],
                forall|id: u64| #[trigger]
                    before.contains_key(id) && !self@.contains_key(id) ==> clock::age(
                        now,
                        V::stamp_of(before[id]),
                    ) > max_age,
                forall|k: int|
                    0 <= k < i && self@.contains_key(#[trigger] ids@[k]) ==> clock::age(
                        now,
                        V::stamp_of(before[ids@[k]]),
                    ) <= max_age,
                self@.dom().finite(),
                self@.dom().subset_of(before.dom()),
            decreases ids@.len() - i,
        {
            let id: u64 = ids[i];
            if self.contains(id) {
                let old_for: u64 = nanos_since(now, self.stamp_of_id(id));
                if old_for as u128 > max_age {
                    let _ = self.remove(id);
                }
            }
            i += 1;
        }
        assert(self@ =~= recent::<V>(before, now, max_age));
        proof {
            vstd::set_lib::lemma_len_subset(self@.dom(), before.dom());
        }
        total - self.len()
    }

    /// The identifier of what was touched longest ago.
    pub fn oldest_id(&self) -> (id: Option<u64>)
        ensures
            match id {
                Some(id) => is_oldest::<V>(self@, id),
                None => self@ == Map::<u64, V::V>::empty(),
            },
    {
        let ids = self.ids();
        if ids.len() == 0 {
            assert(self@ =~= Map::<u64, V::V>::empty());
            return None;
        }
        let mut oldest: u64 = ids[0];
        let mut i: usize = 1;
        assert(ids@.contains(oldest));
        while i < ids.len()
            invariant
                1 <= i <= ids@.len(),
                ids@.contains(oldest),
                forall|id: u64| #[trigger] self@.contains_key(id) <==> ids@.contains(id),
                forall|k: int| 0 <= k < i ==> is_older::<V>(self@, oldest, #[trigger] ids@[k]),
            decreases ids@.len() - i,
        {
            let id: u64 = ids[i];
            assert(ids@.contains(id));
            let stamp: u64 = self.stamp_of_id(id);
            let oldest_stamp: u64 = self.stamp_of_id(oldest);
            if stamp < oldest_stamp || (stamp == oldest_stamp && id < oldest) {
                oldest = id;
            }
            i += 1;
        }
        assert forall|other: u64| #[trigger] self@.contains_key(other) implies is_older::<V>(
            self@,
            oldest,
            other,
        ) by {
            assert(ids@.contains(other));
        }
        Some(oldest)
    }
}

} // verus!
