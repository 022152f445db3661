//! Rooms, whose devices are looked up in the shared registry by room name.

use vstd::prelude::*;
use vstd::string::*;

use crate::device_storage::{
    device_names, matching_devices, refers_to, room_query, DeviceStorageImpl,
};
use crate::interface::{Nameable, SmartRoom};
use crate::text::string_views;

verus! {

/// A room. It owns no devices: the registry says which devices stand in it.
pub struct SmartRoomImpl {
    name: String,
}

impl View for SmartRoomImpl {
    type V = Seq<char>;

    closed spec fn view(&self) -> Seq<char> {
        self.name@
    }
}

impl SmartRoomImpl {
    pub fn new(name: &str) -> (r: Self)
        ensures
            r@ == name@,
    {
        SmartRoomImpl { name: String::from_str(name) }
    }
}

impl Nameable for SmartRoomImpl {
    open spec fn name_spec(&self) -> Seq<char> {
        self@
    }

    fn name(&self) -> (r: String) {
        self.name.clone()
    }
}

impl SmartRoom for SmartRoomImpl {
    fn devices(&self, storage: &DeviceStorageImpl) -> (r: Vec<String>) {
        let found = storage.devices_in_room(self.name.as_str());
        let ghost ds = matching_devices(storage.entries(), room_query(self@));
        let mut names: Vec<String> = Vec::new();
        let mut i: usize = 0;
        while i < found.len()
            invariant
                0 <= i <= found.len(),
                refers_to(found@, ds),
                names@.len() == i,
                string_views(names@) == device_names(ds.subrange(0, i as int)),
            decreases found.len() - i,
        {
            let ghost prior = names@;
            let name = found[i].name();
            names.push(name);
            assert(string_views(names@) =~= device_names(ds.subrange(0, i + 1))) by {
                assert(names@ == prior.push(name));
                assert(string_views(names@)[i as int] == name@);
                assert(*found@[i as int] == ds[i as int]);
                assert forall|j: int| 0 <= j <= i implies string_views(names@)[j] == device_names(
                    ds.subrange(0, i + 1),
                )[j] by {
                    if j < i {
                        assert(string_views(prior)[j] == device_names(ds.subrange(0, i as int))[j]);
                    }
                }
            }
            i += 1;
        }
        assert(ds.subrange(0, i as int) =~= ds);
        names
    }
}

} // verus!
