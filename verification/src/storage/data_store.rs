//! Where the journal is kept: the store of things and of key-value pairs.

use super::thing::{has_name, name_starts_with, Thing, ThingView};
use crate::text::{chars_of, eq_chars, string_of};
use vstd::prelude::*;

verus! {

/// A store for the journal: things by UUID, and values by key. Embedders of the library provide
/// one (a browser's local storage, a file); each operation either succeeds, with the effect that
/// its contract states, or fails and changes nothing.
pub trait DataStore {
    /// The things in the store, by UUID.
    spec fn things(&self) -> Map<u128, ThingView>;

    /// The key-value pairs in the store.
    spec fn key_values(&self) -> Map<Seq<char>, Seq<char>>;

    /// The store answers every request: no operation fails for want of storage (a store in
    /// memory answers; one that is unavailable does not).
    spec fn answers(&self) -> bool;

    /// Whether the store can be used.
    fn health_check(&self) -> (r: Result<(), ()>)
        ensures
            self.answers() ==> r is Ok,
    ;

    /// Removes the thing with `uuid`; an error where there is none.
    fn delete_thing_by_uuid(&mut self, uuid: &u128) -> (r: Result<(), ()>)
        ensures
            r is Ok ==> old(self).things().contains_key(*uuid) && final(self).things() == old(
                self,
            ).things().remove(*uuid),
            r is Err ==> final(self).things() == old(self).things(),
            final(self).key_values() == old(self).key_values(),
            final(self).answers() == old(self).answers(),
            old(self).answers() ==> (r is Ok <==> old(self).things().contains_key(*uuid)),
    ;

    /// Stores `thing` in place of the thing with its UUID, or as a new one.
    fn edit_thing(&mut self, thing: &Thing) -> (r: Result<(), ()>)
        ensures
            r is Ok ==> final(self).things() == old(self).things().insert(thing.uuid, thing@),
            r is Err ==> final(self).things() == old(self).things(),
            final(self).key_values() == old(self).key_values(),
            final(self).answers() == old(self).answers(),
            old(self).answers() ==> r is Ok,
    ;

    /// All the things in the store.
    fn get_all_the_things(&self) -> (r: Result<Vec<Thing>, ()>)
        ensures
            r is Ok ==> (forall|i: int|
                0 <= i < r->Ok_0@.len() ==> self.things().contains_key(#[trigger] r->Ok_0@[i].uuid)
                    && self.things()[r->Ok_0@[i].uuid] == r->Ok_0@[i]@) && (forall|k: u128|
                #[trigger] self.things().contains_key(k) ==> exists|i: int|
                    0 <= i < r->Ok_0@.len() && r->Ok_0@[i].uuid == k),
            self.answers() ==> r is Ok,
    ;

    /// The thing with `uuid`, if the store holds one.
    fn get_thing_by_uuid(&self, uuid: &u128) -> (r: Result<Option<Thing>, ()>)
        ensures
            match r {
                Ok(Some(t)) => t.uuid == *uuid && self.things().contains_key(*uuid)
                    && self.things()[*uuid] == t@,
                Ok(None) => !self.things().contains_key(*uuid),
                Err(_) => true,
            },
            self.answers() ==> r is Ok,
    ;

    /// A thing named `name` (ignoring ASCII case), if the store holds one.
    fn get_thing_by_name(&self, name: &str) -> (r: Result<Option<Thing>, ()>)
        ensures
            match r {
                Ok(Some(t)) => self.things().contains_key(t.uuid) && self.things()[t.uuid] == t@
                    && has_name(t@, name@),
                Ok(None) => forall|k: u128| #[trigger]
                    self.things().contains_key(k) ==> !has_name(self.things()[k], name@),
                Err(_) => true,
            },
            self.answers() ==> r is Ok,
    ;

    /// Things whose name begins with `name` (ignoring ASCII case), at most `limit` of them.
    fn get_things_by_name_start(&self, name: &str, limit: Option<usize>) -> (r: Result<
        Vec<Thing>,
        (),
    >)
        ensures
            r is Ok ==> (forall|i: int|
                0 <= i < r->Ok_0@.len() ==> self.things().contains_key(#[trigger] r->Ok_0@[i].uuid)
                    && self.things()[r->Ok_0@[i].uuid] == r->Ok_0@[i]@ && name_starts_with(
                    r->Ok_0@[i]@,
                    name@,
                )) && (limit matches Some(n) ==> r->Ok_0@.len() <= n),
            self.answers() ==> r is Ok && ((limit matches Some(n) && r->Ok_0@.len() == n)
                || lists_all_starting(self.things(), r->Ok_0@, name@)),
    ;

    /// Adds `thing`; an error where the store holds a thing with its UUID already.
    fn save_thing(&mut self, thing: &Thing) -> (r: Result<(), ()>)
        ensures
            r is Ok ==> !old(self).things().contains_key(thing.uuid) && final(self).things()
                == old(self).things().insert(thing.uuid, thing@),
            r is Err ==> final(self).things() == old(self).things(),
            final(self).key_values() == old(self).key_values(),
            final(self).answers() == old(self).answers(),
            old(self).answers() ==> (r is Ok <==> !old(self).things().contains_key(thing.uuid)),
    ;

    /// Sets the value of `key`.
    fn set_value(&mut self, key: &str, value: &str) -> (r: Result<(), ()>)
        ensures
            r is Ok ==> final(self).key_values() == old(self).key_values().insert(key@, value@),
            r is Err ==> final(self).key_values() == old(self).key_values(),
            final(self).things() == old(self).things(),
            final(self).answers() == old(self).answers(),
            old(self).answers() ==> r is Ok,
    ;

    /// The value of `key`, if it has one.
    fn get_value(&self, key: &str) -> (r: Result<Option<String>, ()>)
        ensures
            match r {
                Ok(Some(v)) => self.key_values().contains_key(key@) && self.key_values()[key@]
                    == v@,
                Ok(None) => !self.key_values().contains_key(key@),
                Err(_) => true,
            },
            self.answers() ==> r is Ok,
    ;

    /// Removes the value of `key`.
    fn delete_value(&mut self, key: &str) -> (r: Result<(), ()>)
        ensures
            r is Ok ==> final(self).key_values() == old(self).key_values().remove(key@),
            r is Err ==> final(self).key_values() == old(self).key_values(),
            final(self).things() == old(self).things(),
            final(self).answers() == old(self).answers(),
            old(self).answers() ==> r is Ok,
    ;
}

/// A store that holds nothing and fails every operation: for where no storage is available.
#[derive(Clone, Copy, Debug, Default)]
pub struct NullDataStore;

impl DataStore for NullDataStore {
    open spec fn things(&self) -> Map<u128, ThingView> {
        Map::empty()
    }

    open spec fn key_values(&self) -> Map<Seq<char>, Seq<char>> {
        Map::empty()
    }

    open spec fn answers(&self) -> bool {
        false
    }

    fn health_check(&self) -> (r: Result<(), ()>)
        ensures
            r is Err,
    {
        Err(())
    }

    fn delete_thing_by_uuid(&mut self, uuid: &u128) -> (r: Result<(), ()>)
        ensures
            r is Err,
    {
        Err(())
    }

    fn edit_thing(&mut self, thing: &Thing) -> (r: Result<(), ()>)
        ensures
            r is Err,
    {
        Err(())
    }

    fn get_all_the_things(&self) -> (r: Result<Vec<Thing>, ()>)
        ensures
            r is Err,
    {
        Err(())
    }

    fn get_thing_by_uuid(&self, uuid: &u128) -> (r: Result<Option<Thing>, ()>)
        ensures
            r is Err,
    {
        Err(())
    }

    fn get_thing_by_name(&self, name: &str) -> (r: Result<Option<Thing>, ()>)
        ensures
            r is Err,
    {
        Err(())
    }

    fn get_things_by_name_start(&self, name: &str, limit: Option<usize>) -> (r: Result<
        Vec<Thing>,
        (),
    >)
        ensures
            r is Err,
    {
        Err(())
    }

    fn save_thing(&mut self, thing: &Thing) -> (r: Result<(), ()>)
        ensures
            r is Err,
    {
        Err(())
    }

    fn set_value(&mut self, key: &str, value: &str) -> (r: Result<(), ()>)
        ensures
            r is Err,
    {
        Err(())
    }

    fn get_value(&self, key: &str) -> (r: Result<Option<String>, ()>)
        ensures
            r is Err,
    {
        Err(())
    }

    fn delete_value(&mut self, key: &str) -> (r: Result<(), ()>)
        ensures
            r is Err,
    {
        Err(())
    }
}


/// The things of a list, by UUID.
pub open spec fn things_map(s: Seq<Thing>) -> Map<u128, ThingView> {
    Map::new(
        |k: u128| exists|i: int| 0 <= i < s.len() && s[i].uuid == k,
        |k: u128| s[choose|i: int| 0 <= i < s.len() && s[i].uuid == k]@,
    )
}

/// No two things of a list have the same UUID.
pub open spec fn uuids_distinct(s: Seq<Thing>) -> bool {
    forall|i: int, j: int| 0 <= i < s.len() && 0 <= j < s.len() && i != j ==> s[i].uuid != s[j].uuid
}

/// The values of a list of key-value pairs, by key.
pub open spec fn values_map(s: Seq<(String, String)>) -> Map<Seq<char>, Seq<char>> {
    Map::new(
        |k: Seq<char>| exists|i: int| 0 <= i < s.len() && s[i].0@ == k,
        |k: Seq<char>| s[choose|i: int| 0 <= i < s.len() && s[i].0@ == k].1@,
    )
}

/// No two pairs of a list have the same key.
pub open spec fn keys_distinct(s: Seq<(String, String)>) -> bool {
    forall|i: int, j: int| 0 <= i < s.len() && 0 <= j < s.len() && i != j ==> s[i].0@ != s[j].0@
}

/// In a list without repeated UUIDs, each thing is what the map gives for its UUID.
pub proof fn lemma_things_lookup(s: Seq<Thing>, i: int)
    requires
        uuids_distinct(s),
        0 <= i < s.len(),
    ensures
        things_map(s).contains_key(s[i].uuid),
        things_map(s)[s[i].uuid] == s[i]@,
{
    let j = choose|j: int| 0 <= j < s.len() && s[j].uuid == s[i].uuid;
    assert(s[j].uuid == s[i].uuid);
}

/// Adding a thing with a new UUID adds it to the map.
pub proof fn lemma_things_push(s: Seq<Thing>, t: Thing)
    requires
        uuids_distinct(s),
        !things_map(s).contains_key(t.uuid),
    ensures
        uuids_distinct(s.push(t)),
        things_map(s.push(t)) == things_map(s).insert(t.uuid, t@),
{
    let s2 = s.push(t);
    assert forall|i: int, j: int|
        0 <= i < s2.len() && 0 <= j < s2.len() && i != j implies s2[i].uuid != s2[j].uuid by {
        if i < s.len() && j < s.len() {
        } else if i < s.len() {
            assert(s[i].uuid == s2[i].uuid);
        } else {
            assert(s[j].uuid == s2[j].uuid);
        }
    }
    assert forall|k: u128| #[trigger] things_map(s2).contains_key(k) implies things_map(
        s,
    ).insert(t.uuid, t@).contains_key(k) by {
        let i = choose|i: int| 0 <= i < s2.len() && s2[i].uuid == k;
        if i < s.len() {
            assert(s[i].uuid == k);
        }
    }
    assert forall|k: u128| #[trigger] things_map(s).insert(t.uuid, t@).contains_key(k) implies things_map(
        s2,
    ).contains_key(k) && things_map(s2)[k] == things_map(s).insert(t.uuid, t@)[k] by {
        if k == t.uuid {
            assert(s2[s.len() as int].uuid == k);
            lemma_things_lookup(s2, s.len() as int);
        } else {
            let i = choose|i: int| 0 <= i < s.len() && s[i].uuid == k;
            assert(s2[i] == s[i]);
            lemma_things_lookup(s2, i);
            lemma_things_lookup(s, i);
        }
    }
    assert(things_map(s2) =~= things_map(s).insert(t.uuid, t@));
}

/// Replacing a thing by one with the same UUID replaces it in the map.
pub proof fn lemma_things_update(s: Seq<Thing>, i: int, t: Thing)
    requires
        uuids_distinct(s),
        0 <= i < s.len(),
        s[i].uuid == t.uuid,
    ensures
        uuids_distinct(s.update(i, t)),
        things_map(s.update(i, t)) == things_map(s).insert(t.uuid, t@),
{
    let s2 = s.update(i, t);
    assert forall|a: int, b: int|
        0 <= a < s2.len() && 0 <= b < s2.len() && a != b implies s2[a].uuid != s2[b].uuid by {
        assert(s2[a].uuid == s[a].uuid);
        assert(s2[b].uuid == s[b].uuid);
    }
    assert forall|k: u128| #[trigger] things_map(s2).contains_key(k) implies things_map(
        s,
    ).insert(t.uuid, t@).contains_key(k) by {
        let j = choose|j: int| 0 <= j < s2.len() && s2[j].uuid == k;
        assert(s[j].uuid == k);
    }
    assert forall|k: u128| #[trigger] things_map(s).insert(t.uuid, t@).contains_key(k) implies things_map(
        s2,
    ).contains_key(k) && things_map(s2)[k] == things_map(s).insert(t.uuid, t@)[k] by {
        if k == t.uuid {
            lemma_things_lookup(s2, i);
        } else {
            let j = choose|j: int| 0 <= j < s.len() && s[j].uuid == k;
            assert(s2[j] == s[j]);
            lemma_things_lookup(s2, j);
            lemma_things_lookup(s, j);
        }
    }
    assert(things_map(s2) =~= things_map(s).insert(t.uuid, t@));
}

/// Removing a thing removes its UUID from the map.
pub proof fn lemma_things_remove(s: Seq<Thing>, i: int)
    requires
        uuids_distinct(s),
        0 <= i < s.len(),
    ensures
        uuids_distinct(s.remove(i)),
        things_map(s.remove(i)) == things_map(s).remove(s[i].uuid),
{
    let s2 = s.remove(i);
    let u = s[i].uuid;
    assert forall|a: int, b: int|
        0 <= a < s2.len() && 0 <= b < s2.len() && a != b implies s2[a].uuid != s2[b].uuid by {
        let a1 = if a < i { a } else { a + 1 };
        let b1 = if b < i { b } else { b + 1 };
        assert(s2[a] == s[a1]);
        assert(s2[b] == s[b1]);
    }
    assert forall|k: u128| #[trigger] things_map(s2).contains_key(k) implies things_map(
        s,
    ).remove(u).contains_key(k) by {
        let j = choose|j: int| 0 <= j < s2.len() && s2[j].uuid == k;
        let j1 = if j < i { j } else { j + 1 };
        assert(s2[j] == s[j1]);
    }
    assert forall|k: u128| #[trigger] things_map(s).remove(u).contains_key(k) implies things_map(
        s2,
    ).contains_key(k) && things_map(s2)[k] == things_map(s).remove(u)[k] by {
        let j = choose|j: int| 0 <= j < s.len() && s[j].uuid == k;
        let j2 = if j < i { j } else { j - 1 };
        assert(s2[j2] == s[j]);
        lemma_things_lookup(s2, j2);
        lemma_things_lookup(s, j);
    }
    assert(things_map(s2) =~= things_map(s).remove(u));
}

/// In a list without repeated keys, each pair is what the map gives for its key.
pub proof fn lemma_values_lookup(s: Seq<(String, String)>, i: int)
    requires
        keys_distinct(s),
        0 <= i < s.len(),
    ensures
        values_map(s).contains_key(s[i].0@),
        values_map(s)[s[i].0@] == s[i].1@,
{
    let j = choose|j: int| 0 <= j < s.len() && s[j].0@ == s[i].0@;
    assert(s[j].0@ == s[i].0@);
}

/// Adding a pair with a new key adds it to the map.
pub proof fn lemma_values_push(s: Seq<(String, String)>, p: (String, String))
    requires
        keys_distinct(s),
        !values_map(s).contains_key(p.0@),
    ensures
        keys_distinct(s.push(p)),
        values_map(s.push(p)) == values_map(s).insert(p.0@, p.1@),
{
    let s2 = s.push(p);
    assert forall|i: int, j: int|
        0 <= i < s2.len() && 0 <= j < s2.len() && i != j implies s2[i].0@ != s2[j].0@ by {
        if i < s.len() && j < s.len() {
        } else if i < s.len() {
            assert(s[i] == s2[i]);
        } else {
            assert(s[j] == s2[j]);
        }
    }
    assert forall|k: Seq<char>| #[trigger] values_map(s2).contains_key(k) implies values_map(
        s,
    ).insert(p.0@, p.1@).contains_key(k) by {
        let i = choose|i: int| 0 <= i < s2.len() && s2[i].0@ == k;
        if i < s.len() {
            assert(s[i] == s2[i]);
        }
    }
    assert forall|k: Seq<char>| #[trigger] values_map(s).insert(p.0@, p.1@).contains_key(k) implies values_map(
        s2,
    ).contains_key(k) && values_map(s2)[k] == values_map(s).insert(p.0@, p.1@)[k] by {
        if k == p.0@ {
            lemma_values_lookup(s2, s.len() as int);
        } else {
            let i = choose|i: int| 0 <= i < s.len() && s[i].0@ == k;
            assert(s2[i] == s[i]);
            lemma_values_lookup(s2, i);
            lemma_values_lookup(s, i);
        }
    }
    assert(values_map(s2) =~= values_map(s).insert(p.0@, p.1@));
}

/// Replacing the value of a pair replaces it in the map.
pub proof fn lemma_values_update(s: Seq<(String, String)>, i: int, p: (String, String))
    requires
        keys_distinct(s),
        0 <= i < s.len(),
        s[i].0@ == p.0@,
    ensures
        keys_distinct(s.update(i, p)),
        values_map(s.update(i, p)) == values_map(s).insert(p.0@, p.1@),
{
    let s2 = s.update(i, p);
    assert forall|a: int, b: int|
        0 <= a < s2.len() && 0 <= b < s2.len() && a != b implies s2[a].0@ != s2[b].0@ by {
        assert(s2[a].0@ == s[a].0@);
        assert(s2[b].0@ == s[b].0@);
    }
    assert forall|k: Seq<char>| #[trigger] values_map(s2).contains_key(k) implies values_map(
        s,
    ).insert(p.0@, p.1@).contains_key(k) by {
        let j = choose|j: int| 0 <= j < s2.len() && s2[j].0@ == k;
        assert(s[j].0@ == k);
    }
    assert forall|k: Seq<char>| #[trigger] values_map(s).insert(p.0@, p.1@).contains_key(k) implies values_map(
        s2,
    ).contains_key(k) && values_map(s2)[k] == values_map(s).insert(p.0@, p.1@)[k] by {
        if k == p.0@ {
            lemma_values_lookup(s2, i);
        } else {
            let j = choose|j: int| 0 <= j < s.len() && s[j].0@ == k;
            assert(s2[j] == s[j]);
            lemma_values_lookup(s2, j);
            lemma_values_lookup(s, j);
        }
    }
    assert(values_map(s2) =~= values_map(s).insert(p.0@, p.1@));
}

/// Removing a pair removes its key from the map.
pub proof fn lemma_values_remove(s: Seq<(String, String)>, i: int)
    requires
        keys_distinct(s),
        0 <= i < s.len(),
    ensures
        keys_distinct(s.remove(i)),
        values_map(s.remove(i)) == values_map(s).remove(s[i].0@),
{
    let s2 = s.remove(i);
    let u = s[i].0@;
    assert forall|a: int, b: int|
        0 <= a < s2.len() && 0 <= b < s2.len() && a != b implies s2[a].0@ != s2[b].0@ by {
        let a1 = if a < i { a } else { a + 1 };
        let b1 = if b < i { b } else { b + 1 };
        assert(s2[a] == s[a1]);
        assert(s2[b] == s[b1]);
    }
    assert forall|k: Seq<char>| #[trigger] values_map(s2).contains_key(k) implies values_map(
        s,
    ).remove(u).contains_key(k) by {
        let j = choose|j: int| 0 <= j < s2.len() && s2[j].0@ == k;
        let j1 = if j < i { j } else { j + 1 };
        assert(s2[j] == s[j1]);
    }
    assert forall|k: Seq<char>| #[trigger] values_map(s).remove(u).contains_key(k) implies values_map(
        s2,
    ).contains_key(k) && values_map(s2)[k] == values_map(s).remove(u)[k] by {
        let j = choose|j: int| 0 <= j < s.len() && s[j].0@ == k;
        let j2 = if j < i { j } else { j - 1 };
        assert(s2[j2] == s[j]);
        lemma_values_lookup(s2, j2);
        lemma_values_lookup(s, j);
    }
    assert(values_map(s2) =~= values_map(s).remove(u));
}


/// Every thing of `m` whose name begins with `name` is in `s`.
pub open spec fn lists_all_starting(m: Map<u128, ThingView>, s: Seq<Thing>, name: Seq<char>) -> bool {
    forall|k: u128|
        #[trigger] m.contains_key(k) && name_starts_with(m[k], name) ==> exists|j: int|
            0 <= j < s.len() && s[j].uuid == k
}

/// The views of some things.
pub open spec fn things_view(s: Seq<Thing>) -> Seq<ThingView> {
    s.map_values(|t: Thing| t@)
}

/// A store held in memory.
#[derive(Debug)]
pub struct MemoryDataStore {
    things: Vec<Thing>,
    key_values: Vec<(String, String)>,
}

impl MemoryDataStore {
    /// No two things share a UUID and no two values share a key.
    #[verifier::type_invariant]
    spec fn inv(self) -> bool {
        uuids_distinct(self.things@) && keys_distinct(self.key_values@)
    }

    /// An empty store.
    pub fn new() -> (r: MemoryDataStore)
        ensures
            r.things() == Map::<u128, ThingView>::empty(),
            r.key_values() == Map::<Seq<char>, Seq<char>>::empty(),
    {
        let r = MemoryDataStore { things: Vec::new(), key_values: Vec::new() };
        assert(things_map(r.things@) =~= Map::<u128, ThingView>::empty());
        assert(values_map(r.key_values@) =~= Map::<Seq<char>, Seq<char>>::empty());
        r
    }

    /// Copies of the things and of the key-value pairs in the store.
    pub fn snapshot(&self) -> (r: (Vec<Thing>, Vec<(String, String)>))
        ensures
            things_map(r.0@) == self.things(),
            uuids_distinct(r.0@),
            values_map(r.1@) == self.key_values(),
            keys_distinct(r.1@),
    {
        proof {
            use_type_invariant(self);
        }
        let mut things: Vec<Thing> = Vec::new();
        let mut i: usize = 0;
        while i < self.things.len()
            invariant
                i <= self.things@.len(),
                things_view(things@) == things_view(self.things@.take(i as int)),
                things@.len() == i,
                forall|j: int| 0 <= j < i ==> #[trigger] things@[j].uuid == self.things@[j].uuid,
            decreases self.things.len() - i,
        {
            let t = self.things[i].duplicate();
            let ghost before = things@;
            things.push(t);
            assert(things_view(things@) =~= things_view(before).push(self.things@[i as int]@));
            assert(things_view(self.things@.take(i + 1)) =~= things_view(
                self.things@.take(i as int),
            ).push(self.things@[i as int]@));
            i = i + 1;
        }
        assert(self.things@.take(self.things@.len() as int) =~= self.things@);
        proof {
            assert forall|j: int| 0 <= j < things@.len() implies #[trigger] things@[j]@
                == self.things@[j]@ by {
                assert(things_view(things@)[j] == things_view(self.things@)[j]);
            }
            let a = things@;
            let b = self.things@;
            assert(uuids_distinct(a));
            assert forall|key: u128| #[trigger] things_map(a).contains_key(key) implies things_map(
                b,
            ).contains_key(key) by {
                let j = choose|j: int| 0 <= j < a.len() && a[j].uuid == key;
                assert(b[j].uuid == key);
            }
            assert forall|key: u128| #[trigger] things_map(b).contains_key(key) implies things_map(
                a,
            ).contains_key(key) && things_map(a)[key] == things_map(b)[key] by {
                let j = choose|j: int| 0 <= j < b.len() && b[j].uuid == key;
                assert(a[j].uuid == key);
                lemma_things_lookup(a, j);
                lemma_things_lookup(b, j);
            }
            assert(things_map(a) =~= things_map(b));
        }
        let mut kvs: Vec<(String, String)> = Vec::new();
        let mut k: usize = 0;
        while k < self.key_values.len()
            invariant
                k <= self.key_values@.len(),
                kvs@.len() == k,
                forall|j: int|
                    0 <= j < k ==> #[trigger] kvs@[j].0@ == self.key_values@[j].0@ && kvs@[j].1@
                        == self.key_values@[j].1@,
            decreases self.key_values.len() - k,
        {
            let key = self.key_values[k].0.clone();
            let value = self.key_values[k].1.clone();
            kvs.push((key, value));
            k = k + 1;
        }
        proof {
            let a = kvs@;
            let b = self.key_values@;
            assert(keys_distinct(a));
            assert forall|key: Seq<char>| #[trigger] values_map(a).contains_key(key) implies values_map(
                b,
            ).contains_key(key) by {
                let j = choose|j: int| 0 <= j < a.len() && a[j].0@ == key;
                assert(b[j].0@ == key);
            }
            assert forall|key: Seq<char>| #[trigger] values_map(b).contains_key(key) implies values_map(
                a,
            ).contains_key(key) && values_map(a)[key] == values_map(b)[key] by {
                let j = choose|j: int| 0 <= j < b.len() && b[j].0@ == key;
                assert(a[j].0@ == key);
                lemma_values_lookup(a, j);
                lemma_values_lookup(b, j);
            }
            assert(values_map(a) =~= values_map(b));
        }
        (things, kvs)
    }

    /// The position of the thing with `uuid`, if any.
    fn find_uuid(&self, uuid: u128) -> (r: Option<usize>)
        ensures
            match r {
                Some(i) => i < self.things@.len() && self.things@[i as int].uuid == uuid,
                None => !things_map(self.things@).contains_key(uuid),
            },
    {
        let mut i: usize = 0;
        while i < self.things.len()
            invariant
                i <= self.things@.len(),
                forall|j: int| 0 <= j < i ==> self.things@[j].uuid != uuid,
            decreases self.things.len() - i,
        {
            if self.things[i].uuid == uuid {
                return Some(i);
            }
            i = i + 1;
        }
        None
    }

    /// The position of the pair with `key`, if any.
    fn find_key(&self, key: &str) -> (r: Option<usize>)
        ensures
            match r {
                Some(i) => i < self.key_values@.len() && self.key_values@[i as int].0@ == key@,
                None => !values_map(self.key_values@).contains_key(key@),
            },
    {
        let k = chars_of(key);
        let mut i: usize = 0;
        while i < self.key_values.len()
            invariant
                i <= self.key_values@.len(),
                k@ == key@,
                forall|j: int| 0 <= j < i ==> self.key_values@[j].0@ != key@,
            decreases self.key_values.len() - i,
        {
            if eq_chars(&chars_of(self.key_values[i].0.as_str()), &k) {
                return Some(i);
            }
            i = i + 1;
        }
        None
    }
}

impl Default for MemoryDataStore {
    fn default() -> (r: MemoryDataStore)
        ensures
            r.things() == Map::<u128, ThingView>::empty(),
            r.key_values() == Map::<Seq<char>, Seq<char>>::empty(),
    {
        MemoryDataStore::new()
    }
}

impl DataStore for MemoryDataStore {
    closed spec fn things(&self) -> Map<u128, ThingView> {
        things_map(self.things@)
    }

    closed spec fn key_values(&self) -> Map<Seq<char>, Seq<char>> {
        values_map(self.key_values@)
    }

    open spec fn answers(&self) -> bool {
        true
    }

    fn health_check(&self) -> (r: Result<(), ()>)
        ensures
            r is Ok,
    {
        Ok(())
    }

    fn delete_thing_by_uuid(&mut self, uuid: &u128) -> (r: Result<(), ()>)
        ensures
            r is Ok <==> old(self).things().contains_key(*uuid),
    {
        proof {
            use_type_invariant(&*self);
        }
        match self.find_uuid(*uuid) {
            Some(i) => {
                proof {
                    lemma_things_remove(self.things@, i as int);
                    lemma_things_lookup(self.things@, i as int);
                }
                let mut things: Vec<Thing> = Vec::new();
                std::mem::swap(&mut things, &mut self.things);
                things.remove(i);
                self.things = things;
                Ok(())
            },
            None => Err(()),
        }
    }

    fn edit_thing(&mut self, thing: &Thing) -> (r: Result<(), ()>)
        ensures
            r is Ok,
    {
        proof {
            use_type_invariant(&*self);
        }
        let t = thing.duplicate();
        match self.find_uuid(thing.uuid) {
            Some(i) => {
                proof {
                    lemma_things_update(self.things@, i as int, t);
                }
                let mut things: Vec<Thing> = Vec::new();
                std::mem::swap(&mut things, &mut self.things);
                things.set(i, t);
                self.things = things;
            },
            None => {
                proof {
                    lemma_things_push(self.things@, t);
                }
                let mut things: Vec<Thing> = Vec::new();
                std::mem::swap(&mut things, &mut self.things);
                things.push(t);
                self.things = things;
            },
        }
        Ok(())
    }

    fn get_all_the_things(&self) -> (r: Result<Vec<Thing>, ()>)
        ensures
            r is Ok,
            uuids_distinct(r->Ok_0@),
    {
        proof {
            use_type_invariant(self);
        }
        let (things, _) = self.snapshot();
        proof {
            assert forall|i: int| 0 <= i < things@.len() implies self.things().contains_key(
                #[trigger] things@[i].uuid,
            ) && self.things()[things@[i].uuid] == things@[i]@ by {
                lemma_things_lookup(things@, i);
            }
        }
        Ok(things)
    }

    fn get_thing_by_uuid(&self, uuid: &u128) -> (r: Result<Option<Thing>, ()>)
        ensures
            r is Ok,
    {
        proof {
            use_type_invariant(self);
        }
        match self.find_uuid(*uuid) {
            Some(i) => {
                proof {
                    lemma_things_lookup(self.things@, i as int);
                }
                Ok(Some(self.things[i].duplicate()))
            },
            None => Ok(None),
        }
    }

    fn get_thing_by_name(&self, name: &str) -> (r: Result<Option<Thing>, ()>)
        ensures
            r is Ok,
    {
        proof {
            use_type_invariant(self);
        }
        let mut i: usize = 0;
        while i < self.things.len()
            invariant
                i <= self.things@.len(),
                uuids_distinct(self.things@),
                forall|j: int| 0 <= j < i ==> !has_name(#[trigger] self.things@[j]@, name@),
            decreases self.things.len() - i,
        {
            if self.things[i].has_name(name) {
                proof {
                    lemma_things_lookup(self.things@, i as int);
                }
                return Ok(Some(self.things[i].duplicate()));
            }
            i = i + 1;
        }
        proof {
            assert forall|k: u128| #[trigger] self.things().contains_key(k) implies !has_name(
                self.things()[k],
                name@,
            ) by {
                let j = choose|j: int| 0 <= j < self.things@.len() && self.things@[j].uuid == k;
                lemma_things_lookup(self.things@, j);
            }
        }
        Ok(None)
    }

    fn get_things_by_name_start(&self, name: &str, limit: Option<usize>) -> (r: Result<
        Vec<Thing>,
        (),
    >)
        ensures
            r is Ok,
            uuids_distinct(r->Ok_0@),
            (limit matches Some(n) && r->Ok_0@.len() == n) || lists_all_starting(
                self.things(),
                r->Ok_0@,
                name@,
            ),
    {
        proof {
            use_type_invariant(self);
        }
        let mut found: Vec<Thing> = Vec::new();
        let mut i: usize = 0;
        while i < self.things.len()
            invariant
                i <= self.things@.len(),
                uuids_distinct(self.things@),
                uuids_distinct(found@),
                limit matches Some(n) ==> found@.len() <= n,
                forall|j: int|
                    0 <= j < found@.len() ==> self.things().contains_key(#[trigger] found@[j].uuid)
                        && self.things()[found@[j].uuid] == found@[j]@ && name_starts_with(
                        found@[j]@,
                        name@,
                    ),
                forall|j: int|
                    0 <= j < found@.len() ==> exists|a: int|
                        0 <= a < i && #[trigger] found@[j].uuid == self.things@[a].uuid,
                forall|a: int|
                    0 <= a < i && name_starts_with(#[trigger] self.things@[a]@, name@)
                        ==> exists|j: int| 0 <= j < found@.len() && found@[j].uuid == self.things@[a].uuid,
            ensures
                i == self.things@.len() || (limit matches Some(n) && found@.len() == n),
            decreases self.things.len() - i,
        {
            let full = match limit {
                Some(n) => found.len() >= n,
                None => false,
            };
            if full {
                break;
            }
            if self.things[i].name_starts_with(name) {
                proof {
                    lemma_things_lookup(self.things@, i as int);
                }
                let ghost before = found@;
                found.push(self.things[i].duplicate());
                proof {
                    assert(found@[before.len() as int].uuid == self.things@[i as int].uuid);
                    assert forall|a: int, b: int|
                        0 <= a < found@.len() && 0 <= b < found@.len() && a != b implies found@[a].uuid
                        != found@[b].uuid by {
                        if a < before.len() && b < before.len() {
                            assert(found@[a] == before[a]);
                            assert(found@[b] == before[b]);
                        } else if a < before.len() {
                            assert(found@[a] == before[a]);
                            let x = choose|x: int| 0 <= x < i && before[a].uuid == self.things@[x].uuid;
                        } else {
                            assert(found@[b] == before[b]);
                            let x = choose|x: int| 0 <= x < i && before[b].uuid == self.things@[x].uuid;
                        }
                    }
                    assert forall|j: int| 0 <= j < found@.len() implies exists|a: int|
                        0 <= a < i + 1 && #[trigger] found@[j].uuid == self.things@[a].uuid by {
                        if j < before.len() {
                            assert(found@[j] == before[j]);
                        }
                    }
                    assert forall|a: int|
                        0 <= a < i + 1 && name_starts_with(#[trigger] self.things@[a]@, name@)
                        implies exists|j: int| 0 <= j < found@.len() && found@[j].uuid == self.things@[a].uuid by {
                        if a < i {
                            let j = choose|j: int| 0 <= j < before.len() && before[j].uuid == self.things@[a].uuid;
                            assert(found@[j] == before[j]);
                        }
                    }
                }
            } else {
                proof {
                    assert forall|a: int|
                        0 <= a < i + 1 && name_starts_with(#[trigger] self.things@[a]@, name@)
                        implies exists|j: int| 0 <= j < found@.len() && found@[j].uuid == self.things@[a].uuid by {
                    }
                }
            }
            i = i + 1;
        }
        proof {
            if i == self.things@.len() {
                assert forall|k: u128|
                    #[trigger] self.things().contains_key(k) && name_starts_with(self.things()[k], name@)
                    implies exists|j: int| 0 <= j < found@.len() && found@[j].uuid == k by {
                    let a = choose|a: int| 0 <= a < self.things@.len() && self.things@[a].uuid == k;
                    lemma_things_lookup(self.things@, a);
                    assert(name_starts_with(self.things@[a]@, name@));
                }
            }
        }
        Ok(found)
    }

    fn save_thing(&mut self, thing: &Thing) -> (r: Result<(), ()>)
        ensures
            r is Ok <==> !old(self).things().contains_key(thing.uuid),
    {
        proof {
            use_type_invariant(&*self);
        }
        match self.find_uuid(thing.uuid) {
            Some(i) => {
                proof {
                    lemma_things_lookup(self.things@, i as int);
                }
                Err(())
            },
            None => {
                let t = thing.duplicate();
                proof {
                    lemma_things_push(self.things@, t);
                }
                let mut things: Vec<Thing> = Vec::new();
                std::mem::swap(&mut things, &mut self.things);
                things.push(t);
                self.things = things;
                Ok(())
            },
        }
    }

    fn set_value(&mut self, key: &str, value: &str) -> (r: Result<(), ()>)
        ensures
            r is Ok,
    {
        proof {
            use_type_invariant(&*self);
        }
        let pair = (key.to_owned(), value.to_owned());
        match self.find_key(key) {
            Some(i) => {
                proof {
                    lemma_values_update(self.key_values@, i as int, pair);
                }
                let mut kvs: Vec<(String, String)> = Vec::new();
                std::mem::swap(&mut kvs, &mut self.key_values);
                kvs.set(i, pair);
                self.key_values = kvs;
            },
            None => {
                proof {
                    lemma_values_push(self.key_values@, pair);
                }
                let mut kvs: Vec<(String, String)> = Vec::new();
                std::mem::swap(&mut kvs, &mut self.key_values);
                kvs.push(pair);
                self.key_values = kvs;
            },
        }
        Ok(())
    }

    fn get_value(&self, key: &str) -> (r: Result<Option<String>, ()>)
        ensures
            r is Ok,
    {
        proof {
            use_type_invariant(self);
        }
        match self.find_key(key) {
            Some(i) => {
                proof {
                    lemma_values_lookup(self.key_values@, i as int);
                }
                Ok(Some(self.key_values[i].1.clone()))
            },
            None => Ok(None),
        }
    }

    fn delete_value(&mut self, key: &str) -> (r: Result<(), ()>)
        ensures
            r is Ok,
    {
        proof {
            use_type_invariant(&*self);
        }
        match self.find_key(key) {
            Some(i) => {
                proof {
                    lemma_values_remove(self.key_values@, i as int);
                    lemma_values_lookup(self.key_values@, i as int);
                }
                let mut kvs: Vec<(String, String)> = Vec::new();
                std::mem::swap(&mut kvs, &mut self.key_values);
                kvs.remove(i);
                self.key_values = kvs;
            },
            None => {
                assert(values_map(self.key_values@).remove(key@) =~= values_map(self.key_values@));
            },
        }
        Ok(())
    }
}

} // verus!
