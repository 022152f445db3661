//! Reports over a house and the registry: a revision of all rooms and their
//! devices, and the report that locates one device.

use vstd::prelude::*;
use vstd::string::*;

use crate::device_storage::{room_device_names, DeviceStorageImpl, StoredDevice};
use crate::interface::{Nameable, SmartDevice, SmartHouse, SmartRoom};
use crate::text::string_views;

verus! {

/// Each name followed by a comma: `{name1},{name2},`.
pub open spec fn device_list_text(names: Seq<Seq<char>>) -> Seq<char>
    decreases names.len(),
{
    if names.len() == 0 {
        Seq::empty()
    } else {
        device_list_text(names.drop_last()) + names.last() + seq![',']
    }
}

/// `\n\troom: {room} devices: {device list}`.
pub open spec fn room_line(es: Seq<StoredDevice>, room: Seq<char>) -> Seq<char> {
    "\n\troom: "@ + room + " devices: "@ + device_list_text(room_device_names(es, room))
}

/// The lines of the rooms, in order.
pub open spec fn rooms_text(es: Seq<StoredDevice>, rooms: Seq<Seq<char>>) -> Seq<char>
    decreases rooms.len(),
{
    if rooms.len() == 0 {
        Seq::empty()
    } else {
        rooms_text(es, rooms.drop_last()) + room_line(es, rooms.last())
    }
}

/// `House name: {house} ` followed by the line of each room.
pub open spec fn revision_text(house: Seq<char>, rooms: Seq<Seq<char>>, es: Seq<StoredDevice>) -> Seq<
    char,
> {
    "House name: "@ + house + " "@ + rooms_text(es, rooms)
}

/// The room `room` holds a device named `target`.
pub open spec fn room_holds(es: Seq<StoredDevice>, room: Seq<char>, target: Seq<char>) -> bool {
    room_device_names(es, room).contains(target)
}

/// `Device {name} placed in room {room}, device state is\n\t{report}`.
pub open spec fn device_text(target: Seq<char>, room: Seq<char>, report: Seq<char>) -> Seq<char> {
    "Device "@ + target + " placed in room "@ + room + ", device state is\n\t"@ + report
}

/// The revision of the house: every room with the names of its devices.
pub fn house_revision_report<H: SmartHouse>(house: &H, storage: &DeviceStorageImpl) -> (r: Result<
    String,
    String,
>)
    ensures
        r is Ok,
        r->Ok_0@ == revision_text(house.name_spec(), house.rooms_spec(), storage.entries()),
{
    let ghost es = storage.entries();
    let ghost names = house.rooms_spec();
    let mut out = String::from_str("House name: ");
    let house_name = house.name();
    out.append(house_name.as_str());
    out.append(" ");
    let ghost head = out@;
    let rooms = house.rooms();
    let mut i: usize = 0;
    assert(out@ =~= head + rooms_text(es, names.subrange(0, 0)));
    while i < rooms.len()
        invariant
            0 <= i <= rooms.len(),
            es == storage.entries(),
            rooms@.len() == names.len(),
            forall|j: int| 0 <= j < rooms@.len() ==> #[trigger] rooms@[j]@ == names[j],
            out@ == head + rooms_text(es, names.subrange(0, i as int)),
        decreases rooms.len() - i,
    {
        let room = rooms[i];
        let ghost before = out@;
        out.append("\n\troom: ");
        let room_name = room.name();
        out.append(room_name.as_str());
        out.append(" devices: ");
        let devices = room.devices(storage);
        let ghost dn = room_device_names(es, names[i as int]);
        assert(room.name_spec() == names[i as int]);
        let ghost mid = out@;
        let mut j: usize = 0;
        assert(out@ =~= mid + device_list_text(dn.subrange(0, 0)));
        while j < devices.len()
            invariant
                0 <= j <= devices.len(),
                string_views(devices@) == dn,
                out@ == mid + device_list_text(dn.subrange(0, j as int)),
            decreases devices.len() - j,
        {
            assert(dn[j as int] == devices@[j as int]@);
            out.append(devices[j].as_str());
            out.append(",");
            proof {
                reveal_strlit(",");
            }
            assert(dn.subrange(0, j + 1).drop_last() =~= dn.subrange(0, j as int));
            assert(out@ =~= mid + device_list_text(dn.subrange(0, j + 1)));
            j += 1;
        }
        assert(dn.subrange(0, j as int) =~= dn);
        assert(names.subrange(0, i + 1).drop_last() =~= names.subrange(0, i as int));
        assert(out@ =~= head + rooms_text(es, names.subrange(0, i + 1)));
        i += 1;
    }
    assert(names.subrange(0, i as int) =~= names);
    assert(out@ =~= revision_text(house.name_spec(), names, es));
    Ok(out)
}

/// Locates `report_device` by name in the first room that holds a device of
/// that name, and reports it with its state.
pub fn device_report<H: SmartHouse, D: SmartDevice>(
    house: &H,
    storage: &DeviceStorageImpl,
    report_device: &D,
) -> (r: Result<String, &'static str>)
    ensures
        r is Err <==> forall|i: int|
            0 <= i < house.rooms_spec().len() ==> !room_holds(
                storage.entries(),
                #[trigger] house.rooms_spec()[i],
                report_device.name_spec(),
            ),
        r is Err ==> r->Err_0@ == "device not found!"@,
        r is Ok ==> exists|i: int|
            0 <= i < house.rooms_spec().len() && room_holds(
                storage.entries(),
                #[trigger] house.rooms_spec()[i],
                report_device.name_spec(),
            ) && (forall|j: int|
                0 <= j < i ==> !room_holds(
                    storage.entries(),
                    #[trigger] house.rooms_spec()[j],
                    report_device.name_spec(),
                )) && r->Ok_0@ == device_text(
                report_device.name_spec(),
                house.rooms_spec()[i],
                report_device.report_spec(),
            ),
{
    let ghost es = storage.entries();
    let ghost names = house.rooms_spec();
    let target = report_device.name();
    let ghost t = target@;
    let rooms = house.rooms();
    let mut i: usize = 0;
    while i < rooms.len()
        invariant
            0 <= i <= rooms.len(),
            es == storage.entries(),
            names == house.rooms_spec(),
            t == report_device.name_spec(),
            target@ == t,
            rooms@.len() == names.len(),
            forall|j: int| 0 <= j < rooms@.len() ==> #[trigger] rooms@[j]@ == names[j],
            forall|j: int| 0 <= j < i ==> !room_holds(es, #[trigger] names[j], t),
        decreases rooms.len() - i,
    {
        let room = rooms[i];
        assert(room.name_spec() == names[i as int]);
        let devices = room.devices(storage);
        let ghost dn = room_device_names(es, names[i as int]);
        let mut k: usize = 0;
        while k < devices.len()
            invariant
                0 <= k <= devices.len(),
                string_views(devices@) == dn,
                i < rooms@.len() == names.len(),
                dn == room_device_names(es, names[i as int]),
                es == storage.entries(),
                names == house.rooms_spec(),
                forall|j: int| 0 <= j < i ==> !room_holds(es, #[trigger] names[j], t),
                room.name_spec() == names[i as int],
                t == report_device.name_spec(),
                target@ == t,
                forall|m: int| 0 <= m < k ==> #[trigger] dn[m] != t,
            decreases devices.len() - k,
        {
            assert(dn[k as int] == devices@[k as int]@);
            if devices[k] == target {
                let mut out = String::from_str("Device ");
                out.append(devices[k].as_str());
                out.append(" placed in room ");
                let room_name = room.name();
                out.append(room_name.as_str());
                out.append(", device state is\n\t");
                let state = report_device.state_report();
                out.append(state.as_str());
                assert(dn[k as int] == t);
                assert(room_holds(es, names[i as int], t));
                assert(out@ =~= device_text(t, names[i as int], report_device.report_spec()));
                return Ok(out);
            }
            k += 1;
        }
        assert(!dn.contains(t));
        i += 1;
    }
    proof {
        reveal_strlit("device not found!");
    }
    Err("device not found!")
}

} // verus!
