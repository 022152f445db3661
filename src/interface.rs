//! The capabilities shared by devices, rooms and houses.

use vstd::prelude::*;

use crate::device_storage::{room_device_names, DeviceStorageImpl};
use crate::rooms::SmartRoomImpl;
use crate::text::string_views;

verus! {

/// Something that carries a name.
pub trait Nameable {
    /// The name, as characters.
    spec fn name_spec(&self) -> Seq<char>;

    fn name(&self) -> (r: String)
        ensures
            r@ == self.name_spec(),
    ;
}

/// A device that can describe its current state in one line of text.
pub trait SmartDevice: Nameable {
    /// The state report, as characters.
    spec fn report_spec(&self) -> Seq<char>;

    fn state_report(&self) -> (r: String)
        ensures
            r@ == self.report_spec(),
    ;
}

/// A room: the devices in it are those the registry holds under its name.
pub trait SmartRoom: Nameable {
    fn devices(&self, storage: &DeviceStorageImpl) -> (r: Vec<String>)
        ensures
            string_views(r@) == room_device_names(storage.entries(), self.name_spec()),
    ;
}

/// A house: a named collection of rooms.
pub trait SmartHouse: Nameable {
    /// The names of the rooms, in the order in which the house lists them.
    spec fn rooms_spec(&self) -> Seq<Seq<char>>;

    fn rooms(&self) -> (r: Vec<&SmartRoomImpl>)
        ensures
            r@.len() == self.rooms_spec().len(),
            forall|i: int| 0 <= i < r@.len() ==> #[trigger] r@[i]@ == self.rooms_spec()[i],
    ;
}

} // verus!
