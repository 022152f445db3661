use smart_home::device_storage::{DevicePositionQuery, DeviceStorageImpl};
use smart_home::devices::{DeviceType, Socket, Thermometr};
use smart_home::house::SmartHouseImp;
use smart_home::interface::{Nameable, SmartHouse, SmartRoom};
use smart_home::reports::{device_report, house_revision_report};
use smart_home::rooms::SmartRoomImpl;

fn lamp(description: &str) -> DeviceType {
    DeviceType::Socket(Socket {
        name: "lamp socket".to_string(),
        description: description.to_string(),
        is_on: true,
        current_power: 12,
        is_accessible: true,
        is_online: true,
    })
}

fn thermometr(name: &str, value: i64) -> DeviceType {
    DeviceType::Thermometr(Thermometr {
        name: name.to_string(),
        description: name.to_string(),
        value,
        is_online: true,
    })
}

fn room_query(house: &str, room: &str) -> DevicePositionQuery {
    DevicePositionQuery {
        house: house.to_string(),
        room: room.to_string(),
        name: "*".to_string(),
    }
}

#[test]
fn room_lists_its_devices() {
    let mut storage = DeviceStorageImpl::new();
    storage.add_device("h", "kitchen", "lamp socket", lamp("lamp"));
    storage.add_device("h", "hall", "t1", thermometr("t1", 20));
    storage.add_device("h", "kitchen", "t2", thermometr("t2", 22));
    let room = SmartRoomImpl::new("kitchen");
    assert_eq!(room.name(), "kitchen");
    assert_eq!(room.devices(&storage), vec!["lamp socket".to_string(), "t2".to_string()]);
    assert!(SmartRoomImpl::new("cellar").devices(&storage).is_empty());
}

#[test]
fn revision_report_format() {
    let mut storage = DeviceStorageImpl::new();
    storage.add_device("my_house", "0_room", "lamp socket", lamp("lamp"));
    storage.add_device("my_house", "0_room", "thermometr", thermometr("thermometr", 34));
    let mut house = SmartHouseImp::new("my_house");
    assert_eq!(house.name(), "my_house");
    house.add_room("0_room", SmartRoomImpl::new("0_room"));
    house.add_room("empty", SmartRoomImpl::new("empty"));
    assert_eq!(
        house_revision_report(&house, &storage).unwrap(),
        "House name: my_house \n\troom: 0_room devices: lamp socket,thermometr,\n\troom: empty devices: "
    );
}

#[test]
fn revision_report_of_empty_house() {
    let storage = DeviceStorageImpl::new();
    let house = SmartHouseImp::new("bare");
    assert_eq!(house_revision_report(&house, &storage).unwrap(), "House name: bare ");
}

#[test]
fn add_room_replaces_same_key() {
    let mut house = SmartHouseImp::new("h");
    house.add_room("a", SmartRoomImpl::new("first"));
    house.add_room("b", SmartRoomImpl::new("second"));
    house.add_room("a", SmartRoomImpl::new("third"));
    let names: Vec<String> = house.rooms().iter().map(|r| r.name()).collect();
    assert_eq!(names, vec!["third".to_string(), "second".to_string()]);
}

#[test]
fn device_report_locates_device() {
    let mut storage = DeviceStorageImpl::new();
    storage.add_device("h", "1_room", "lamp socket", lamp("Socket in 1 room"));
    storage.add_device("h", "2_room", "t", thermometr("t", 30));
    let mut house = SmartHouseImp::new("h");
    house.add_room("1_room", SmartRoomImpl::new("1_room"));
    house.add_room("2_room", SmartRoomImpl::new("2_room"));
    let target = storage.query_devices(&DevicePositionQuery {
        house: "h".to_string(),
        room: "1_room".to_string(),
        name: "lamp socket".to_string(),
    });
    assert_eq!(
        device_report(&house, &storage, target[0]).unwrap(),
        "Device lamp socket placed in room 1_room, device state is\n\tdescription: Socket in 1 room, current power: 12, state: is on now"
    );
}

#[test]
fn device_report_not_found() {
    let mut storage = DeviceStorageImpl::new();
    storage.add_device("h", "elsewhere", "t", thermometr("t", 30));
    let mut house = SmartHouseImp::new("h");
    house.add_room("1_room", SmartRoomImpl::new("1_room"));
    let stray = thermometr("t", 30);
    assert_eq!(device_report(&house, &storage, &stray), Err("device not found!"));
}

#[test]
fn removing_room_keeps_devices_until_removed() {
    let mut storage = DeviceStorageImpl::new();
    storage.add_device("my_house", "1_room", "lamp socket", lamp("lamp"));
    storage.add_device("my_house", "2_room", "t", thermometr("t", 10));
    let mut house = SmartHouseImp::new("my_house");
    house.add_room("1_room", SmartRoomImpl::new("1_room"));
    house.add_room("2_room", SmartRoomImpl::new("2_room"));

    house.remove_room("1_room");
    assert_eq!(house.rooms().len(), 1);
    assert_eq!(storage.query_devices(&room_query("my_house", "1_room")).len(), 1);
    assert_eq!(
        house_revision_report(&house, &storage).unwrap(),
        "House name: my_house \n\troom: 2_room devices: t,"
    );

    storage.remove_deivices(&room_query("my_house", "1_room"));
    assert_eq!(storage.query_devices(&room_query("my_house", "1_room")).len(), 0);
    assert_eq!(storage.query_devices(&room_query("*", "*")).len(), 1);
}
