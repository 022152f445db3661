//! The device registry: devices keyed by (house, room, name), with queries in
//! which any field may be the wildcard `*`.

use vstd::prelude::*;
use vstd::string::*;

use crate::devices::DeviceType;
use crate::interface::Nameable;
use crate::keyed::{has_key, keys_unique, lemma_retained_all, lemma_retained_unique, lemma_with_entry_at,
    lemma_with_entry_unique, retained, with_entry};

verus! {

/// A position as characters: (house, room, device name).
pub type PositionView = (Seq<char>, Seq<char>, Seq<char>);

/// A registry entry as characters and device.
pub type StoredDevice = (PositionView, DeviceType);

/// Where a device stands: its house, its room and its name.
pub struct DevicePosition {
    pub house: String,
    pub room: String,
    pub name: String,
}

impl View for DevicePosition {
    type V = PositionView;

    open spec fn view(&self) -> PositionView {
        (self.house@, self.room@, self.name@)
    }
}

impl DevicePosition {
    pub fn same_position(&self, other: &DevicePosition) -> (r: bool)
        ensures
            r == (self@ == other@),
    {
        self.house == other.house && self.room == other.room && self.name == other.name
    }
}

/// A pattern over positions: each field is either a value or the wildcard `*`.
pub struct DevicePositionQuery {
    pub house: String,
    pub room: String,
    pub name: String,
}

impl View for DevicePositionQuery {
    type V = PositionView;

    open spec fn view(&self) -> PositionView {
        (self.house@, self.room@, self.name@)
    }
}

/// The wildcard field `*`.
pub open spec fn wildcard() -> Seq<char> {
    seq!['*']
}

/// A query field matches a value when it is the wildcard or equal to it.
pub open spec fn slot_matches(q: Seq<char>, v: Seq<char>) -> bool {
    q == wildcard() || q == v
}

pub open spec fn query_matches(q: PositionView, p: PositionView) -> bool {
    slot_matches(q.0, p.0) && slot_matches(q.1, p.1) && slot_matches(q.2, p.2)
}

/// The query that selects every device of the room `room`, in any house.
pub open spec fn room_query(room: Seq<char>) -> PositionView {
    (wildcard(), room, wildcard())
}

/// The devices of `es` whose position `pred` accepts, in registry order.
pub open spec fn devices_where(es: Seq<StoredDevice>, pred: spec_fn(PositionView) -> bool) -> Seq<
    DeviceType,
>
    decreases es.len(),
{
    if es.len() == 0 {
        Seq::empty()
    } else if pred(es.last().0) {
        devices_where(es.drop_last(), pred).push(es.last().1)
    } else {
        devices_where(es.drop_last(), pred)
    }
}

/// The devices of `es` that the query `q` matches, in registry order.
pub open spec fn matching_devices(es: Seq<StoredDevice>, q: PositionView) -> Seq<DeviceType> {
    devices_where(es, |p: PositionView| query_matches(q, p))
}

/// The entries of `es` that the query `q` does not match, in registry order.
pub open spec fn unmatched_entries(es: Seq<StoredDevice>, q: PositionView) -> Seq<StoredDevice> {
    retained(es, |p: PositionView| !query_matches(q, p))
}

/// The names of the devices, in order.
pub open spec fn device_names(ds: Seq<DeviceType>) -> Seq<Seq<char>> {
    ds.map_values(|d: DeviceType| d.name_spec())
}

/// The names of the devices that a room named `room` holds, in registry order.
pub open spec fn room_device_names(es: Seq<StoredDevice>, room: Seq<char>) -> Seq<Seq<char>> {
    device_names(matching_devices(es, room_query(room)))
}

/// `r` refers, in order, to the devices `ds`.
pub open spec fn refers_to(r: Seq<&DeviceType>, ds: Seq<DeviceType>) -> bool {
    r.len() == ds.len() && forall|i: int| 0 <= i < r.len() ==> *r[i] == ds[i]
}

pub open spec fn entries_of(v: Seq<(DevicePosition, DeviceType)>) -> Seq<StoredDevice> {
    v.map_values(|e: (DevicePosition, DeviceType)| (e.0@, e.1))
}

fn is_wildcard(s: &String) -> (r: bool)
    ensures
        r == (s@ == wildcard()),
{
    let text = s.as_str();
    if text.unicode_len() == 1 && text.get_char(0) == '*' {
        assert(s@ =~= wildcard());
        true
    } else {
        false
    }
}

fn wildcard_text() -> (r: String)
    ensures
        r@ == wildcard(),
{
    proof {
        reveal_strlit("*");
    }
    let r = String::from_str("*");
    assert(r@ =~= wildcard());
    r
}

/// Two acceptance tests that agree on every position select the same devices.
pub proof fn lemma_devices_where_agree(
    es: Seq<StoredDevice>,
    f: spec_fn(PositionView) -> bool,
    g: spec_fn(PositionView) -> bool,
)
    requires
        forall|p: PositionView| #[trigger] f(p) == g(p),
    ensures
        devices_where(es, f) == devices_where(es, g),
    decreases es.len(),
{
    if es.len() > 0 {
        lemma_devices_where_agree(es.drop_last(), f, g);
    }
}

/// A query with wildcards for house and name selects exactly the devices
/// whose room is the queried one, whatever their house or name.
pub proof fn lemma_room_query(es: Seq<StoredDevice>, room: Seq<char>)
    requires
        room != wildcard(),
    ensures
        forall|p: PositionView| #[trigger] query_matches(room_query(room), p) <==> p.1 == room,
        matching_devices(es, room_query(room)) == devices_where(es, |p: PositionView| p.1 == room),
{
    let q = room_query(room);
    lemma_devices_where_agree(es, |p: PositionView| query_matches(q, p), |p: PositionView| p.1 == room);
}

/// Removing with a query that matches no entry leaves the entries unchanged.
pub proof fn lemma_remove_unmatched(es: Seq<StoredDevice>, q: PositionView)
    requires
        forall|i: int| 0 <= i < es.len() ==> !query_matches(q, #[trigger] es[i].0),
    ensures
        unmatched_entries(es, q) == es,
{
    lemma_retained_all(es, |p: PositionView| !query_matches(q, p));
}

/// A query without wildcards matches only its own position.
pub open spec fn exact(k: PositionView) -> bool {
    k.0 != wildcard() && k.1 != wildcard() && k.2 != wildcard()
}

proof fn lemma_exact_absent(es: Seq<StoredDevice>, k: PositionView)
    requires
        exact(k),
        forall|j: int| 0 <= j < es.len() ==> #[trigger] es[j].0 != k,
    ensures
        matching_devices(es, k) == Seq::<DeviceType>::empty(),
    decreases es.len(),
{
    if es.len() > 0 {
        lemma_exact_absent(es.drop_last(), k);
    }
}

proof fn lemma_exact_present(es: Seq<StoredDevice>, k: PositionView, i: int)
    requires
        exact(k),
        keys_unique(es),
        0 <= i < es.len(),
        es[i].0 == k,
    ensures
        matching_devices(es, k) == seq![es[i].1],
    decreases es.len(),
{
    let d = es.drop_last();
    if i == es.len() - 1 {
        assert forall|j: int| 0 <= j < d.len() implies #[trigger] d[j].0 != k by {
            assert(es[j].0 != es[i].0);
        }
        lemma_exact_absent(d, k);
        assert(matching_devices(es, k) =~= seq![es[i].1]);
    } else {
        assert(es.last().0 != es[i].0);
        lemma_exact_present(d, k, i);
    }
}

/// Adding a device and then querying its exact position yields that device alone.
pub proof fn lemma_add_then_query(es: Seq<StoredDevice>, k: PositionView, d: DeviceType)
    requires
        keys_unique(es),
        exact(k),
    ensures
        matching_devices(with_entry(es, k, d), k) == seq![d],
{
    lemma_with_entry_unique(es, k, d);
    let r = with_entry(es, k, d);
    let i = choose|i: int| 0 <= i < r.len() && #[trigger] r[i] == (k, d);
    lemma_exact_present(r, k, i);
}

impl DevicePositionQuery {
    /// Whether the query matches the position.
    pub fn matches(&self, position: &DevicePosition) -> (r: bool)
        ensures
            r == query_matches(self@, position@),
    {
        let house = is_wildcard(&self.house) || self.house == position.house;
        let room = is_wildcard(&self.room) || self.room == position.room;
        let name = is_wildcard(&self.name) || self.name == position.name;
        house && room && name
    }
}

/// The registry of devices. At most one device stands at each position.
pub struct DeviceStorageImpl {
    devices: Vec<(DevicePosition, DeviceType)>,
}

impl DeviceStorageImpl {
    /// The entries in registry order.
    pub closed spec fn entries(&self) -> Seq<StoredDevice> {
        entries_of(self.devices@)
    }

    #[verifier::type_invariant]
    spec fn inv(&self) -> bool {
        keys_unique(self.entries())
    }

    pub fn new() -> (r: Self)
        ensures
            r.entries() == Seq::<StoredDevice>::empty(),
    {
        let r = DeviceStorageImpl { devices: Vec::new() };
        assert(r.entries() =~= Seq::<StoredDevice>::empty());
        r
    }

    /// Puts `device` at the position (house, room, name), replacing the device
    /// that stood there.
    pub fn add_device(&mut self, house: &str, room: &str, name: &str, device: DeviceType)
        ensures
            final(self).entries() == with_entry(
                old(self).entries(),
                (house@, room@, name@),
                device,
            ),
    {
        proof {
            use_type_invariant(&*self);
        }
        let position = DevicePosition {
            house: String::from_str(house),
            room: String::from_str(room),
            name: String::from_str(name),
        };
        let ghost key = position@;
        let ghost es = self.entries();
        let mut devices: Vec<(DevicePosition, DeviceType)> = Vec::new();
        std::mem::swap(&mut devices, &mut self.devices);
        assert(entries_of(devices@) == es);
        let mut i: usize = 0;
        let mut found = false;
        while i < devices.len()
            invariant
                0 <= i <= devices.len(),
                entries_of(devices@) == es,
                key == position@,
                forall|j: int| 0 <= j < i ==> es[j].0 != key,
                found ==> i < devices.len() && es[i as int].0 == key,
            ensures
                found ==> i < devices.len() && es[i as int].0 == key,
                !found ==> i == devices.len(),
            decreases devices.len() - i,
        {
            assert(es[i as int] == (devices@[i as int].0@, devices@[i as int].1));
            let current = &devices[i];
            if current.0.same_position(&position) {
                found = true;
                break;
            }
            i += 1;
        }
        proof {
            lemma_with_entry_unique(es, key, device);
        }
        if found {
            proof {
                lemma_with_entry_at(es, key, device, i as int);
            }
            devices.set(i, (position, device));
            assert(entries_of(devices@) =~= with_entry(es, key, device));
        } else {
            assert(!has_key(es, key));
            devices.push((position, device));
            assert(entries_of(devices@) =~= with_entry(es, key, device));
        }
        self.devices = devices;
    }

    /// Removes every device whose position the query matches.
    pub fn remove_deivices(&mut self, query: &DevicePositionQuery)
        ensures
            final(self).entries() == unmatched_entries(old(self).entries(), query@),
    {
        proof {
            use_type_invariant(&*self);
        }
        let ghost es = self.entries();
        let ghost q = query@;
        let mut rest: Vec<(DevicePosition, DeviceType)> = Vec::new();
        std::mem::swap(&mut rest, &mut self.devices);
        let mut kept: Vec<(DevicePosition, DeviceType)> = Vec::new();
        let ghost mut done: int = 0;
        assert(entries_of(rest@) =~= es.subrange(0, es.len() as int));
        assert(entries_of(kept@) =~= unmatched_entries(es.subrange(0, 0), q));
        while rest.len() > 0
            invariant
                0 <= done <= es.len(),
                q == query@,
                done + rest@.len() == es.len(),
                entries_of(rest@) == es.subrange(done, es.len() as int),
                entries_of(kept@) == unmatched_entries(es.subrange(0, done), q),
            decreases rest.len(),
        {
            let ghost before = rest@;
            assert(entries_of(before)[0] == (before[0].0@, before[0].1));
            let entry = rest.remove(0);
            assert(es[done] == (entry.0@, entry.1));
            assert forall|k: int| 0 <= k < rest@.len() implies entries_of(rest@)[k] == es[done + 1
                + k] by {
                assert(rest@[k] == before[k + 1]);
                assert(entries_of(before)[k + 1] == es.subrange(done, es.len() as int)[k + 1]);
            }
            assert(es.subrange(0, done + 1).drop_last() =~= es.subrange(0, done));
            let ghost prior = kept@;
            let ghost s1 = es.subrange(0, done + 1);
            assert(s1.last() == es[done]);
            assert(unmatched_entries(s1, q) == if !query_matches(q, es[done].0) {
                unmatched_entries(es.subrange(0, done), q).push(es[done])
            } else {
                unmatched_entries(es.subrange(0, done), q)
            });
            if !query.matches(&entry.0) {
                kept.push(entry);
                assert(entries_of(kept@) =~= entries_of(prior).push(es[done]));
            }
            proof {
                done = done + 1;
            }
            assert(entries_of(rest@) =~= es.subrange(done, es.len() as int));
            assert(entries_of(kept@) =~= unmatched_entries(es.subrange(0, done), q));
        }
        assert(es.subrange(0, done) =~= es);
        proof {
            lemma_retained_unique(es, |p: PositionView| !query_matches(q, p));
        }
        self.devices = kept;
    }

    /// The devices whose position the query matches, in registry order.
    pub fn query_devices(&self, query: &DevicePositionQuery) -> (r: Vec<&DeviceType>)
        ensures
            refers_to(r@, matching_devices(self.entries(), query@)),
    {
        let ghost es = self.entries();
        let ghost q = query@;
        let mut r: Vec<&DeviceType> = Vec::new();
        let mut i: usize = 0;
        while i < self.devices.len()
            invariant
                0 <= i <= self.devices.len(),
                es == entries_of(self.devices@),
                q == query@,
                refers_to(r@, matching_devices(es.subrange(0, i as int), q)),
            decreases self.devices.len() - i,
        {
            let entry = &self.devices[i];
            assert(es[i as int] == (entry.0@, entry.1));
            assert(es.subrange(0, i + 1).drop_last() =~= es.subrange(0, i as int));
            let ghost prior = r@;
            let ghost s1 = es.subrange(0, i + 1);
            assert(s1.last() == es[i as int]);
            assert(matching_devices(s1, q) == if query_matches(q, es[i as int].0) {
                matching_devices(es.subrange(0, i as int), q).push(es[i as int].1)
            } else {
                matching_devices(es.subrange(0, i as int), q)
            });
            if query.matches(&entry.0) {
                r.push(&entry.1);
                assert(refers_to(r@, matching_devices(es.subrange(0, i as int), q).push(es[i as int].1))) by {
                    assert(r@ == prior.push(&entry.1));
                }
            }
            i += 1;
        }
        assert(es.subrange(0, i as int) =~= es);
        r
    }

    /// The devices of the room `name`, in any house.
    pub fn devices_in_room(&self, name: &str) -> (r: Vec<&DeviceType>)
        ensures
            refers_to(r@, matching_devices(self.entries(), room_query(name@))),
    {
        let query = DevicePositionQuery {
            house: wildcard_text(),
            room: String::from_str(name),
            name: wildcard_text(),
        };
        self.query_devices(&query)
    }
}

} // verus!
