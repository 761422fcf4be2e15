//! A small map from monitor ids to values that remembers insertion order.
//!
//! Settings are kept per monitor id. The number of monitors is tiny, so the
//! map is a vector of entries; what it guarantees is that no id occurs twice
//! and that entries stay in the order in which their ids first arrived, which
//! makes everything derived from it (driver calls, saved profiles)
//! deterministic.

use vstd::prelude::*;

verus! {

/// A monitor id as contracts see it: the characters of the string.
pub type Id = Seq<char>;

/// Whether some entry of `entries` is stored under `id`.
pub open spec fn has_id<T>(entries: Seq<(Id, T)>, id: Id) -> bool {
    exists|i: int| 0 <= i < entries.len() && (#[trigger] entries[i]).0 == id
}

/// The index of an entry stored under `id`; meaningful when `has_id` holds.
pub open spec fn position<T>(entries: Seq<(Id, T)>, id: Id) -> int {
    choose|i: int| 0 <= i < entries.len() && (#[trigger] entries[i]).0 == id
}

/// No id is stored twice.
pub open spec fn distinct_ids<T>(entries: Seq<(Id, T)>) -> bool {
    forall|i: int, j: int|
        0 <= i < j < entries.len() ==> (#[trigger] entries[i]).0 != (#[trigger] entries[j]).0
}

/// The finite map that a list of entries stands for.
pub open spec fn as_map<T>(entries: Seq<(Id, T)>) -> Map<Id, T> {
    Map::new(|id: Id| has_id(entries, id), |id: Id| entries[position(entries, id)].1)
}

/// `entries` after storing `value` under `id`: an existing entry keeps its
/// place and gets the new value, a new id goes to the end.
pub open spec fn put<T>(entries: Seq<(Id, T)>, id: Id, value: T) -> Seq<(Id, T)> {
    if has_id(entries, id) {
        entries.update(position(entries, id), (id, value))
    } else {
        entries.push((id, value))
    }
}

/// In a list without repeated ids every entry is found under its own id.
pub proof fn lemma_entry_lookup<T>(entries: Seq<(Id, T)>, i: int)
    requires
        distinct_ids(entries),
        0 <= i < entries.len(),
    ensures
        has_id(entries, entries[i].0),
        position(entries, entries[i].0) == i,
        as_map(entries).contains_key(entries[i].0),
        as_map(entries)[entries[i].0] == entries[i].1,
{
    let id = entries[i].0;
    assert(has_id(entries, id));
    let p = position(entries, id);
    assert(0 <= p < entries.len() && entries[p].0 == id);
    if p < i {
        assert(entries[p].0 != entries[i].0);
    } else if i < p {
        assert(entries[i].0 != entries[p].0);
    }
}

/// Storing a value keeps ids distinct and acts on the map as `Map::insert`.
pub proof fn lemma_put<T>(entries: Seq<(Id, T)>, id: Id, value: T)
    requires
        distinct_ids(entries),
    ensures
        distinct_ids(put(entries, id, value)),
        as_map(put(entries, id, value)) == as_map(entries).insert(id, value),
        has_id(put(entries, id, value), id),
{
    let after = put(entries, id, value);
    let at = if has_id(entries, id) { position(entries, id) } else { entries.len() as int };
    assert(0 <= at < after.len() && after[at] == (id, value));
    assert(after.len() == entries.len() + (if has_id(entries, id) { 0int } else { 1int }));
    assert forall|i: int| 0 <= i < after.len() && i != at implies #[trigger] after[i]
        == entries[i] && entries[i].0 != id by {
        if has_id(entries, id) {
            if i < at {
                assert(entries[i].0 != entries[at].0);
            } else {
                assert(entries[at].0 != entries[i].0);
            }
        }
    }
    assert(distinct_ids(after)) by {
        assert forall|i: int, j: int| 0 <= i < j < after.len() implies (#[trigger] after[i]).0 != (
        #[trigger] after[j]).0 by {
            if i != at && j != at {
                assert(entries[i].0 != entries[j].0);
            }
        }
    }
    assert(has_id(after, id));
    assert forall|k: Id| #[trigger] has_id(after, k) == (k == id || has_id(entries, k)) by {
        if has_id(after, k) {
            let i = position(after, k);
            if i != at {
                assert(entries[i].0 == k);
            }
        }
        if has_id(entries, k) && k != id {
            let i = position(entries, k);
            assert(after[i].0 == k);
        }
    }
    assert forall|k: Id| has_id(after, k) implies #[trigger] as_map(after)[k] == as_map(
        entries,
    ).insert(id, value)[k] by {
        let i = position(after, k);
        lemma_entry_lookup(after, i);
        if i != at {
            lemma_entry_lookup(entries, i);
        }
    }
    assert(as_map(after) =~= as_map(entries).insert(id, value));
}

/// `i` is the first index at which `entries` holds `id`.
pub open spec fn is_first<T>(entries: Seq<(Id, T)>, id: Id, i: int) -> bool {
    &&& 0 <= i < entries.len()
    &&& entries[i].0 == id
    &&& forall|j: int| 0 <= j < i ==> (#[trigger] entries[j]).0 != id
}

/// `i` is the last index at which `entries` holds `id`.
pub open spec fn is_last<T>(entries: Seq<(Id, T)>, id: Id, i: int) -> bool {
    &&& 0 <= i < entries.len()
    &&& entries[i].0 == id
    &&& forall|j: int| i < j < entries.len() ==> (#[trigger] entries[j]).0 != id
}

/// The first index at which `entries` holds `id`; meaningful when `has_id`
/// holds.
pub open spec fn first_position<T>(entries: Seq<(Id, T)>, id: Id) -> int {
    choose|i: int| is_first(entries, id, i)
}

/// The last index at which `entries` holds `id`; meaningful when `has_id`
/// holds.
pub open spec fn last_position<T>(entries: Seq<(Id, T)>, id: Id) -> int {
    choose|i: int| is_last(entries, id, i)
}

/// `entries` after offering each of `offers` in turn: an offer is taken, at
/// the end, only when its id is not stored yet.
pub open spec fn seed_all<T>(entries: Seq<(Id, T)>, offers: Seq<(Id, T)>) -> Seq<(Id, T)>
    decreases offers.len(),
{
    if offers.len() == 0 {
        entries
    } else {
        let seeded = seed_all(entries, offers.drop_last());
        if has_id(seeded, offers.last().0) {
            seeded
        } else {
            seeded.push(offers.last())
        }
    }
}

/// `entries` after storing each of `updates` in turn.
pub open spec fn put_all<T>(entries: Seq<(Id, T)>, updates: Seq<(Id, T)>) -> Seq<(Id, T)>
    decreases updates.len(),
{
    if updates.len() == 0 {
        entries
    } else {
        put(put_all(entries, updates.drop_last()), updates.last().0, updates.last().1)
    }
}

/// `map`, and for every id it lacks the value of the first offer made for
/// that id.
pub open spec fn with_defaults<T>(map: Map<Id, T>, offers: Seq<(Id, T)>) -> Map<Id, T> {
    Map::new(
        |id: Id| map.contains_key(id) || has_id(offers, id),
        |id: Id|
            if map.contains_key(id) {
                map[id]
            } else {
                offers[first_position(offers, id)].1
            },
    )
}

/// `map` with every id named in `updates` set to the value of the last
/// update made for that id.
pub open spec fn overwritten<T>(map: Map<Id, T>, updates: Seq<(Id, T)>) -> Map<Id, T> {
    Map::new(
        |id: Id| map.contains_key(id) || has_id(updates, id),
        |id: Id|
            if has_id(updates, id) {
                updates[last_position(updates, id)].1
            } else {
                map[id]
            },
    )
}

/// An id that occurs has a first occurrence, and only one index is it.
pub proof fn lemma_first_position<T>(entries: Seq<(Id, T)>, id: Id)
    requires
        has_id(entries, id),
    ensures
        is_first(entries, id, first_position(entries, id)),
        forall|i: int| is_first(entries, id, i) ==> i == first_position(entries, id),
    decreases entries.len(),
{
    let w = position(entries, id);
    if exists|j: int| 0 <= j < w && (#[trigger] entries[j]).0 == id {
        let shorter = entries.take(w);
        let j = choose|j: int| 0 <= j < w && (#[trigger] entries[j]).0 == id;
        assert(shorter[j].0 == id);
        lemma_first_position(shorter, id);
        let f = first_position(shorter, id);
        assert(is_first(entries, id, f)) by {
            assert forall|k: int| 0 <= k < f implies (#[trigger] entries[k]).0 != id by {
                assert(shorter[k].0 != id);
            }
        }
    } else {
        assert(is_first(entries, id, w));
    }
    let f = first_position(entries, id);
    assert forall|i: int| is_first(entries, id, i) implies i == f by {
        if i < f {
            assert(entries[i].0 != id);
        } else if f < i {
            assert(entries[f].0 != id);
        }
    }
}

/// An id that occurs has a last occurrence, and only one index is it.
pub proof fn lemma_last_position<T>(entries: Seq<(Id, T)>, id: Id)
    requires
        has_id(entries, id),
    ensures
        is_last(entries, id, last_position(entries, id)),
        forall|i: int| is_last(entries, id, i) ==> i == last_position(entries, id),
    decreases entries.len(),
{
    let w = position(entries, id);
    if exists|j: int| w < j < entries.len() && (#[trigger] entries[j]).0 == id {
        let shorter = entries.skip(w + 1);
        let j = choose|j: int| w < j < entries.len() && (#[trigger] entries[j]).0 == id;
        assert(shorter[j - w - 1].0 == id);
        lemma_last_position(shorter, id);
        let l = last_position(shorter, id) + w + 1;
        assert(is_last(entries, id, l)) by {
            assert(entries[l] == shorter[l - w - 1]);
            assert forall|k: int| l < k < entries.len() implies (#[trigger] entries[k]).0
                != id by {
                assert(shorter[k - w - 1].0 != id);
            }
        }
    } else {
        assert(is_last(entries, id, w));
    }
    let l = last_position(entries, id);
    assert forall|i: int| is_last(entries, id, i) implies i == l by {
        if i < l {
            assert(entries[l].0 != id);
        } else if l < i {
            assert(entries[i].0 != id);
        }
    }
}

/// What appending one entry does to the ids that occur and to where they
/// occur first and last.
pub proof fn lemma_push_positions<T>(entries: Seq<(Id, T)>, entry: (Id, T), id: Id)
    ensures
        has_id(entries.push(entry), id) == (has_id(entries, id) || entry.0 == id),
        has_id(entries, id) ==> first_position(entries.push(entry), id) == first_position(
            entries,
            id,
        ),
        !has_id(entries, id) && entry.0 == id ==> first_position(entries.push(entry), id)
            == entries.len(),
        entry.0 == id ==> last_position(entries.push(entry), id) == entries.len(),
        has_id(entries, id) && entry.0 != id ==> last_position(entries.push(entry), id)
            == last_position(entries, id),
{
    let longer = entries.push(entry);
    let n = entries.len() as int;
    assert(longer[n] == entry);
    assert forall|k: int| 0 <= k < n implies #[trigger] longer[k] == entries[k] by {}
    if has_id(longer, id) {
        let i = position(longer, id);
        assert(0 <= i < longer.len() && longer[i].0 == id);
        if i < n {
            assert(entries[i].0 == id);
        }
    }
    if has_id(entries, id) {
        let i = position(entries, id);
        assert(0 <= i < n && entries[i].0 == id);
        assert(longer[i].0 == id);
        assert(has_id(longer, id));
        lemma_first_position(entries, id);
        lemma_first_position(longer, id);
        let f = first_position(entries, id);
        assert(is_first(longer, id, f)) by {
            assert(longer[f] == entries[f]);
            assert forall|k: int| 0 <= k < f implies (#[trigger] longer[k]).0 != id by {
                assert(longer[k] == entries[k]);
            }
        }
        if entry.0 != id {
            lemma_last_position(entries, id);
            lemma_last_position(longer, id);
            let l = last_position(entries, id);
            assert(is_last(longer, id, l)) by {
                assert(longer[l] == entries[l]);
                assert forall|k: int| l < k < longer.len() implies (#[trigger] longer[k]).0
                    != id by {
                    if k < n {
                        assert(longer[k] == entries[k]);
                    }
                }
            }
        }
    }
    if entry.0 == id {
        assert(longer[n].0 == id);
        assert(has_id(longer, id));
        lemma_last_position(longer, id);
        assert(is_last(longer, id, n));
        if !has_id(entries, id) {
            lemma_first_position(longer, id);
            assert(is_first(longer, id, n)) by {
                assert forall|k: int| 0 <= k < n implies (#[trigger] longer[k]).0 != id by {
                    assert(longer[k] == entries[k]);
                    if entries[k].0 == id {
                        assert(has_id(entries, id));
                    }
                }
            }
        }
    }
}

/// Offering values keeps what is stored, keeps ids distinct, and fills each
/// missing id from the first offer made for it.
pub proof fn lemma_seed_all<T>(entries: Seq<(Id, T)>, offers: Seq<(Id, T)>)
    requires
        distinct_ids(entries),
    ensures
        distinct_ids(seed_all(entries, offers)),
        entries.is_prefix_of(seed_all(entries, offers)),
        as_map(seed_all(entries, offers)) == with_defaults(as_map(entries), offers),
    decreases offers.len(),
{
    let after = seed_all(entries, offers);
    let before = as_map(entries);
    if offers.len() == 0 {
        assert forall|id: Id| !has_id(offers, id) by {}
        assert(as_map(entries) =~= with_defaults(before, offers));
    } else {
        let earlier = offers.drop_last();
        let seeded = seed_all(entries, earlier);
        let offer = offers.last();
        lemma_seed_all(entries, earlier);
        assert(offers =~= earlier.push(offer));
        let known = with_defaults(before, earlier);
        let wanted = with_defaults(before, offers);
        assert(as_map(seeded) == known);
        assert(has_id(seeded, offer.0) == known.contains_key(offer.0)) by {
            assert(as_map(seeded).contains_key(offer.0) == has_id(seeded, offer.0));
        }
        if has_id(seeded, offer.0) {
            assert forall|id: Id| wanted.contains_key(id) == known.contains_key(id) by {
                lemma_push_positions(earlier, offer, id);
            }
            assert forall|id: Id| wanted.contains_key(id) implies #[trigger] wanted[id]
                == known[id] by {
                lemma_push_positions(earlier, offer, id);
                if !before.contains_key(id) {
                    assert(known.contains_key(id));
                    assert(has_id(earlier, id));
                    lemma_first_position(earlier, id);
                    assert(offers[first_position(earlier, id)] == earlier[first_position(
                        earlier,
                        id,
                    )]);
                }
            }
            assert(wanted =~= known);
        } else {
            lemma_put(seeded, offer.0, offer.1);
            assert(after == put(seeded, offer.0, offer.1));
            assert(as_map(after) == known.insert(offer.0, offer.1));
            assert forall|id: Id| wanted.contains_key(id) == known.insert(
                offer.0,
                offer.1,
            ).contains_key(id) by {
                lemma_push_positions(earlier, offer, id);
            }
            assert forall|id: Id| wanted.contains_key(id) implies #[trigger] wanted[id]
                == known.insert(offer.0, offer.1)[id] by {
                lemma_push_positions(earlier, offer, id);
                assert(!known.contains_key(offer.0));
                if !before.contains_key(id) {
                    if has_id(earlier, id) {
                        assert(known.contains_key(id));
                        lemma_first_position(earlier, id);
                        assert(offers[first_position(earlier, id)] == earlier[first_position(
                            earlier,
                            id,
                        )]);
                    } else {
                        assert(id == offer.0);
                        assert(offers[earlier.len() as int] == offer);
                    }
                }
            }
            assert(wanted =~= known.insert(offer.0, offer.1));
        }
    }
}

/// Storing values one after the other keeps ids distinct and leaves each
/// named id with the last value given for it.
pub proof fn lemma_put_all<T>(entries: Seq<(Id, T)>, updates: Seq<(Id, T)>)
    requires
        distinct_ids(entries),
    ensures
        distinct_ids(put_all(entries, updates)),
        as_map(put_all(entries, updates)) == overwritten(as_map(entries), updates),
    decreases updates.len(),
{
    let before = as_map(entries);
    if updates.len() == 0 {
        assert forall|id: Id| !has_id(updates, id) by {}
        assert(as_map(entries) =~= overwritten(before, updates));
    } else {
        let earlier = updates.drop_last();
        let update = updates.last();
        lemma_put_all(entries, earlier);
        lemma_put(put_all(entries, earlier), update.0, update.1);
        assert(updates =~= earlier.push(update));
        let known = overwritten(before, earlier).insert(update.0, update.1);
        let wanted = overwritten(before, updates);
        assert(as_map(put_all(entries, updates)) == known);
        assert forall|id: Id| wanted.contains_key(id) == known.contains_key(id) by {
            lemma_push_positions(earlier, update, id);
        }
        assert forall|id: Id| wanted.contains_key(id) implies #[trigger] wanted[id]
            == known[id] by {
            lemma_push_positions(earlier, update, id);
            if id == update.0 {
                assert(updates[earlier.len() as int] == update);
            } else if has_id(earlier, id) {
                lemma_last_position(earlier, id);
                assert(updates[last_position(earlier, id)] == earlier[last_position(
                    earlier,
                    id,
                )]);
            }
        }
        assert(wanted =~= known);
    }
}

/// Offering the same values a second time changes nothing.
pub proof fn lemma_seed_all_idempotent<T>(entries: Seq<(Id, T)>, offers: Seq<(Id, T)>)
    ensures
        seed_all(seed_all(entries, offers), offers) == seed_all(entries, offers),
{
    let once = seed_all(entries, offers);
    assert forall|i: int| 0 <= i < offers.len() implies has_id(once, (#[trigger] offers[i]).0) by {
        lemma_seed_all_holds_offer(entries, offers, i);
    }
    lemma_seed_all_of_known(once, offers);
}

/// After offering, every offered id is stored.
proof fn lemma_seed_all_holds_offer<T>(entries: Seq<(Id, T)>, offers: Seq<(Id, T)>, i: int)
    requires
        0 <= i < offers.len(),
    ensures
        has_id(seed_all(entries, offers), offers[i].0),
    decreases offers.len(),
{
    let seeded = seed_all(entries, offers.drop_last());
    let after = seed_all(entries, offers);
    if i < offers.len() - 1 {
        lemma_seed_all_holds_offer(entries, offers.drop_last(), i);
        let p = position(seeded, offers[i].0);
        assert(after[p].0 == offers[i].0);
    } else if !has_id(seeded, offers.last().0) {
        assert(after[after.len() - 1].0 == offers[i].0);
    }
}

/// Offering ids that are all stored already changes nothing.
proof fn lemma_seed_all_of_known<T>(entries: Seq<(Id, T)>, offers: Seq<(Id, T)>)
    requires
        forall|i: int| 0 <= i < offers.len() ==> has_id(entries, (#[trigger] offers[i]).0),
    ensures
        seed_all(entries, offers) == entries,
    decreases offers.len(),
{
    if offers.len() > 0 {
        let earlier = offers.drop_last();
        assert forall|i: int| 0 <= i < earlier.len() implies has_id(
            entries,
            (#[trigger] earlier[i]).0,
        ) by {
            assert(earlier[i] == offers[i]);
        }
        lemma_seed_all_of_known(entries, earlier);
        assert(has_id(entries, offers[offers.len() - 1].0));
    }
}

/// Values kept per monitor id, in the order in which the ids first arrived.
#[derive(Debug)]
pub struct IdMap<T> {
    entries: Vec<(String, T)>,
}

impl<T> View for IdMap<T> {
    type V = Map<Id, T>;

    /// The map from id to value.
    open spec fn view(&self) -> Map<Id, T> {
        as_map(self.entries())
    }
}

impl<T> IdMap<T> {
    /// The entries in order, each as the pair of id and value.
    pub closed spec fn entries(&self) -> Seq<(Id, T)> {
        self.entries@.map_values(|e: (String, T)| (e.0@, e.1))
    }

    /// The ids in order.
    pub open spec fn ids(&self) -> Seq<Id> {
        self.entries().map_values(|e: (Id, T)| e.0)
    }

    /// Every map holds each id at most once.
    #[verifier::type_invariant]
    pub open spec fn well_formed(&self) -> bool {
        distinct_ids(self.entries())
    }

    pub fn new() -> (map: Self)
        ensures
            map.entries() == Seq::<(Id, T)>::empty(),
            map@ == Map::<Id, T>::empty(),
    {
        let map = IdMap { entries: Vec::new() };
        assert(map.entries() =~= Seq::<(Id, T)>::empty());
        assert(map@ =~= Map::<Id, T>::empty());
        map
    }

    pub fn len(&self) -> (n: usize)
        ensures
            n == self.entries().len(),
    {
        self.entries.len()
    }

    pub fn is_empty(&self) -> (empty: bool)
        ensures
            empty == (self.entries().len() == 0),
    {
        self.entries.len() == 0
    }

    /// The id of the `i`-th entry.
    pub fn id_at(&self, i: usize) -> (id: &String)
        requires
            i < self.entries().len(),
        ensures
            id@ == self.entries()[i as int].0,
            self@.contains_key(id@),
    {
        proof {
            use_type_invariant(self);
            lemma_entry_lookup(self.entries(), i as int);
        }
        &self.entries[i].0
    }

    /// The value of the `i`-th entry.
    pub fn value_at(&self, i: usize) -> (value: &T)
        requires
            i < self.entries().len(),
        ensures
            *value == self.entries()[i as int].1,
            *value == self@[self.entries()[i as int].0],
    {
        proof {
            use_type_invariant(self);
            lemma_entry_lookup(self.entries(), i as int);
        }
        &self.entries[i].1
    }

    /// Where `id` is stored, if it is.
    pub fn position_of(&self, id: &String) -> (found: Option<usize>)
        ensures
            found is Some <==> self@.contains_key(id@),
            found matches Some(i) ==> i < self.entries().len() && self.entries()[i as int].0
                == id@ && i == position(self.entries(), id@),
    {
        proof {
            use_type_invariant(self);
        }
        let mut i: usize = 0;
        while i < self.entries.len()
            invariant
                i <= self.entries.len(),
                distinct_ids(self.entries()),
                forall|k: int| 0 <= k < i ==> (#[trigger] self.entries()[k]).0 != id@,
            decreases self.entries.len() - i,
        {
            if self.entries[i].0 == *id {
                proof {
                    lemma_entry_lookup(self.entries(), i as int);
                }
                return Some(i);
            }
            i += 1;
        }
        None
    }

    pub fn contains_key(&self, id: &String) -> (present: bool)
        ensures
            present == self@.contains_key(id@),
    {
        self.position_of(id).is_some()
    }

    /// The value stored under `id`, if there is one.
    pub fn get(&self, id: &String) -> (value: Option<&T>)
        ensures
            value is Some <==> self@.contains_key(id@),
            value matches Some(v) ==> *v == self@[id@],
    {
        match self.position_of(id) {
            Some(i) => {
                proof {
                    use_type_invariant(self);
                    lemma_entry_lookup(self.entries(), i as int);
                }
                Some(&self.entries[i].1)
            },
            None => None,
        }
    }

    /// Stores `value` under `id`, replacing what was stored there.
    pub fn insert(&mut self, id: String, value: T)
        ensures
            final(self).entries() == put(old(self).entries(), id@, value),
            final(self)@ == old(self)@.insert(id@, value),
    {
        proof {
            use_type_invariant(&*self);
            lemma_put(self.entries(), id@, value);
        }
        let found = self.position_of(&id);
        let ghost before = self.entries();
        let mut entries: Vec<(String, T)> = Vec::new();
        std::mem::swap(&mut entries, &mut self.entries);
        match found {
            Some(i) => {
                entries.set(i, (id, value));
            },
            None => {
                entries.push((id, value));
            },
        }
        assert(entries@.map_values(|e: (String, T)| (e.0@, e.1)) =~= put(before, id@, value));
        self.entries = entries;
    }

    /// Stores `value` under `id` unless something is stored there already.
    pub fn insert_if_absent(&mut self, id: String, value: T)
        ensures
            final(self).entries() == seed_all(old(self).entries(), seq![(id@, value)]),
            final(self)@ == with_defaults(old(self)@, seq![(id@, value)]),
            final(self)@ == if old(self)@.contains_key(id@) {
                old(self)@
            } else {
                old(self)@.insert(id@, value)
            },
    {
        proof {
            use_type_invariant(&*self);
            let offers = seq![(id@, value)];
            assert(offers.drop_last() =~= Seq::<(Id, T)>::empty());
            assert(seed_all(self.entries(), offers.drop_last()) == self.entries());
            lemma_seed_all(self.entries(), offers);
            lemma_put(self.entries(), id@, value);
            if self@.contains_key(id@) {
                assert(with_defaults(self@, offers) =~= self@);
            }
        }
        if !self.contains_key(&id) {
            self.insert(id, value);
        }
    }

    /// Forgets every entry.
    pub fn clear(&mut self)
        ensures
            final(self).entries() == Seq::<(Id, T)>::empty(),
            final(self)@ == Map::<Id, T>::empty(),
    {
        self.entries = Vec::new();
        assert(self.entries() =~= Seq::<(Id, T)>::empty());
        assert(self@ =~= Map::<Id, T>::empty());
    }
}

impl<T: Copy> IdMap<T> {
    /// A second map with the same entries in the same order.
    pub fn duplicate(&self) -> (copy: Self)
        ensures
            copy.entries() == self.entries(),
            copy@ == self@,
    {
        proof {
            use_type_invariant(self);
        }
        let mut entries: Vec<(String, T)> = Vec::new();
        let mut i: usize = 0;
        while i < self.entries.len()
            invariant
                i <= self.entries.len(),
                entries@.map_values(|e: (String, T)| (e.0@, e.1)) == self.entries().take(i as int),
            decreases self.entries.len() - i,
        {
            let ghost before = entries@.map_values(|e: (String, T)| (e.0@, e.1));
            let id = self.entries[i].0.clone();
            entries.push((id, self.entries[i].1));
            proof {
                let after = entries@.map_values(|e: (String, T)| (e.0@, e.1));
                assert(after =~= before.push(self.entries()[i as int]));
                assert(self.entries().take(i + 1) =~= self.entries().take(i as int).push(
                    self.entries()[i as int],
                ));
            }
            i += 1;
        }
        assert(self.entries().take(i as int) =~= self.entries());
        IdMap { entries }
    }
}

} // verus!
