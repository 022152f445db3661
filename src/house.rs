//! A house: a name and its rooms, keyed by name.

use vstd::prelude::*;
use vstd::string::*;

use crate::interface::{Nameable, SmartHouse};
use crate::keyed::{keys_unique, lemma_without_key_unique, lemma_with_entry_at,
    lemma_with_entry_unique, has_key, with_entry, without_key};
use crate::rooms::SmartRoomImpl;

verus! {

/// A room entry as characters: (key, room name).
pub type RoomEntry = (Seq<char>, Seq<char>);

pub open spec fn room_entries_of(v: Seq<(String, SmartRoomImpl)>) -> Seq<RoomEntry> {
    v.map_values(|e: (String, SmartRoomImpl)| (e.0@, e.1@))
}

/// A house. Each key names at most one room.
pub struct SmartHouseImp {
    name: String,
    rooms: Vec<(String, SmartRoomImpl)>,
}

impl SmartHouseImp {
    /// The rooms as (key, room name), in the house's order.
    pub closed spec fn room_entries(&self) -> Seq<RoomEntry> {
        room_entries_of(self.rooms@)
    }

    /// The name, as characters.
    pub closed spec fn name_view(&self) -> Seq<char> {
        self.name@
    }

    #[verifier::type_invariant]
    spec fn inv(&self) -> bool {
        keys_unique(self.room_entries())
    }

    pub fn new(name: &str) -> (r: Self)
        ensures
            r.name_view() == name@,
            r.room_entries() == Seq::<RoomEntry>::empty(),
    {
        let r = SmartHouseImp { name: String::from_str(name), rooms: Vec::new() };
        assert(r.room_entries() =~= Seq::<RoomEntry>::empty());
        r
    }

    /// Puts `room` under the key `name`, replacing the room that was there.
    pub fn add_room(&mut self, name: &str, room: SmartRoomImpl)
        ensures
            final(self).name_view() == old(self).name_view(),
            final(self).room_entries() == with_entry(old(self).room_entries(), name@, room@),
    {
        proof {
            use_type_invariant(&*self);
        }
        let key = String::from_str(name);
        let ghost es = self.room_entries();
        let mut rooms: Vec<(String, SmartRoomImpl)> = Vec::new();
        std::mem::swap(&mut rooms, &mut self.rooms);
        let mut i: usize = 0;
        let mut found = false;
        while i < rooms.len()
            invariant
                0 <= i <= rooms.len(),
                room_entries_of(rooms@) == es,
                key@ == name@,
                forall|j: int| 0 <= j < i ==> es[j].0 != name@,
                found ==> i < rooms.len() && es[i as int].0 == name@,
            ensures
                found ==> i < rooms.len() && es[i as int].0 == name@,
                !found ==> i == rooms.len(),
            decreases rooms.len() - i,
        {
            assert(es[i as int] == (rooms@[i as int].0@, rooms@[i as int].1@));
            if rooms[i].0 == key {
                found = true;
                break;
            }
            i += 1;
        }
        proof {
            lemma_with_entry_unique(es, name@, room@);
        }
        if found {
            proof {
                lemma_with_entry_at(es, name@, room@, i as int);
            }
            rooms.set(i, (key, room));
            assert(room_entries_of(rooms@) =~= with_entry(es, name@, room@));
        } else {
            assert(!has_key(es, name@));
            rooms.push((key, room));
            assert(room_entries_of(rooms@) =~= with_entry(es, name@, room@));
        }
        self.rooms = rooms;
    }

    /// Removes the room under the key `name`. The registry is not touched: the
    /// devices of that room stay there until they are removed from it.
    pub fn remove_room(&mut self, name: &str)
        ensures
            final(self).name_view() == old(self).name_view(),
            final(self).room_entries() == without_key(old(self).room_entries(), name@),
    {
        proof {
            use_type_invariant(&*self);
        }
        let ghost es = self.room_entries();
        let ghost k = name@;
        let mut rest: Vec<(String, SmartRoomImpl)> = Vec::new();
        std::mem::swap(&mut rest, &mut self.rooms);
        let key = String::from_str(name);
        let mut kept: Vec<(String, SmartRoomImpl)> = Vec::new();
        let ghost mut done: int = 0;
        assert(room_entries_of(rest@) =~= es.subrange(0, es.len() as int));
        assert(room_entries_of(kept@) =~= without_key(es.subrange(0, 0), k));
        while rest.len() > 0
            invariant
                0 <= done <= es.len(),
                k == name@,
                key@ == k,
                done + rest@.len() == es.len(),
                room_entries_of(rest@) == es.subrange(done, es.len() as int),
                room_entries_of(kept@) == without_key(es.subrange(0, done), k),
            decreases rest.len(),
        {
            let ghost before = rest@;
            assert(room_entries_of(before)[0] == (before[0].0@, before[0].1@));
            let entry = rest.remove(0);
            assert(es[done] == (entry.0@, entry.1@));
            assert forall|j: int| 0 <= j < rest@.len() implies room_entries_of(rest@)[j] == es[done
                + 1 + j] by {
                assert(rest@[j] == before[j + 1]);
                assert(room_entries_of(before)[j + 1] == es.subrange(done, es.len() as int)[j + 1]);
            }
            assert(es.subrange(0, done + 1).drop_last() =~= es.subrange(0, done));
            let ghost prior = kept@;
            let ghost s1 = es.subrange(0, done + 1);
            assert(s1.last() == es[done]);
            assert(without_key(s1, k) == if es[done].0 != k {
                without_key(es.subrange(0, done), k).push(es[done])
            } else {
                without_key(es.subrange(0, done), k)
            });
            if entry.0 != key {
                kept.push(entry);
                assert(room_entries_of(kept@) =~= room_entries_of(prior).push(es[done]));
            }
            proof {
                done = done + 1;
            }
            assert(room_entries_of(rest@) =~= es.subrange(done, es.len() as int));
            assert(room_entries_of(kept@) =~= without_key(es.subrange(0, done), k));
        }
        assert(es.subrange(0, done) =~= es);
        proof {
            lemma_without_key_unique(es, k);
        }
        self.rooms = kept;
    }
}

impl Nameable for SmartHouseImp {
    open spec fn name_spec(&self) -> Seq<char> {
        self.name_view()
    }

    fn name(&self) -> (r: String) {
        self.name.clone()
    }
}

impl SmartHouse for SmartHouseImp {
    open spec fn rooms_spec(&self) -> Seq<Seq<char>> {
        self.room_entries().map_values(|e: RoomEntry| e.1)
    }

    fn rooms(&self) -> (r: Vec<&SmartRoomImpl>) {
        let mut r: Vec<&SmartRoomImpl> = Vec::new();
        let mut i: usize = 0;
        while i < self.rooms.len()
            invariant
                0 <= i <= self.rooms.len(),
                r@.len() == i,
                forall|j: int| 0 <= j < i ==> #[trigger] r@[j]@ == self.rooms_spec()[j],
            decreases self.rooms.len() - i,
        {
            let entry = &self.rooms[i];
            assert(self.rooms_spec()[i as int] == entry.1@);
            r.push(&entry.1);
            i += 1;
        }
        r
    }
}

} // verus!
