use smart_home::device_storage::{DevicePosition, DevicePositionQuery, DeviceStorageImpl};
use smart_home::devices::{DeviceType, Socket, Thermometr};
use smart_home::interface::Nameable;

fn socket(name: &str) -> DeviceType {
    DeviceType::Socket(Socket {
        name: name.to_string(),
        description: name.to_string(),
        is_on: false,
        current_power: 12,
        is_online: true,
        is_accessible: true,
    })
}

fn thermometr(name: &str, value: i64) -> DeviceType {
    DeviceType::Thermometr(Thermometr {
        name: name.to_string(),
        description: name.to_string(),
        value,
        is_online: true,
    })
}

fn query(house: &str, room: &str, name: &str) -> DevicePositionQuery {
    DevicePositionQuery {
        house: house.to_string(),
        room: room.to_string(),
        name: name.to_string(),
    }
}

fn names(devices: &[&DeviceType]) -> Vec<String> {
    devices.iter().map(|d| d.name()).collect()
}

#[test]
fn add_device() {
    let mut storage = DeviceStorageImpl::new();
    storage.add_device("0", "1", "socket", socket("socket"));
    storage.add_device("0", "1", "socket2", socket("socket2"));

    let dev = storage.query_devices(&query("0", "1", "socket"));
    assert_eq!(dev.len(), 1);
    match dev.first().unwrap() {
        DeviceType::Socket(s) => assert_eq!(s.name(), "socket"),
        _ => panic!("wrong device"),
    }

    let dev = storage.query_devices(&query("1", "1", "socket"));
    assert_eq!(dev.len(), 0);
}

#[test]
fn remove_deivice() {
    let mut storage = DeviceStorageImpl::new();
    storage.add_device("0", "1", "socket", socket("socket"));

    let q = query("0", "1", "socket");
    let dev = storage.query_devices(&q);
    assert_eq!(dev.len(), 1);

    storage.remove_deivices(&q);

    let dev = storage.query_devices(&q);
    assert_eq!(dev.len(), 0);
}

#[test]
fn wildcard_room_query() {
    let mut storage = DeviceStorageImpl::new();
    storage.add_device("a", "1", "x", socket("x"));
    storage.add_device("b", "1", "y", socket("y"));
    storage.add_device("a", "2", "z", socket("z"));
    storage.add_device("b", "12", "w", socket("w"));

    let found = storage.query_devices(&query("*", "1", "*"));
    assert_eq!(names(&found), vec!["x".to_string(), "y".to_string()]);
    let found = storage.devices_in_room("2");
    assert_eq!(names(&found), vec!["z".to_string()]);
    let all = storage.query_devices(&query("*", "*", "*"));
    assert_eq!(all.len(), 4);
    let by_name = storage.query_devices(&query("*", "*", "w"));
    assert_eq!(names(&by_name), vec!["w".to_string()]);
}

#[test]
fn remove_unmatched_changes_nothing() {
    let mut storage = DeviceStorageImpl::new();
    storage.add_device("h", "r", "a", socket("a"));
    storage.add_device("h", "r", "b", thermometr("b", 3));
    storage.remove_deivices(&query("h", "other", "*"));
    let all = storage.query_devices(&query("*", "*", "*"));
    assert_eq!(names(&all), vec!["a".to_string(), "b".to_string()]);
}

#[test]
fn add_then_query_exact_position() {
    let mut storage = DeviceStorageImpl::new();
    storage.add_device("h", "r", "other", socket("other"));
    storage.add_device("h", "r", "t", thermometr("t", 19));
    let found = storage.query_devices(&query("h", "r", "t"));
    assert_eq!(found.len(), 1);
    match found[0] {
        DeviceType::Thermometr(t) => assert_eq!(t.value, 19),
        _ => panic!("wrong device"),
    }
}

#[test]
fn add_overwrites_same_position() {
    let mut storage = DeviceStorageImpl::new();
    storage.add_device("h", "r", "t", thermometr("t", 1));
    storage.add_device("h", "r", "u", thermometr("u", 2));
    storage.add_device("h", "r", "t", thermometr("t", 3));
    let all = storage.query_devices(&query("*", "*", "*"));
    assert_eq!(names(&all), vec!["t".to_string(), "u".to_string()]);
    match all[0] {
        DeviceType::Thermometr(t) => assert_eq!(t.value, 3),
        _ => panic!("wrong device"),
    }
}

#[test]
fn remove_all_with_wildcards() {
    let mut storage = DeviceStorageImpl::new();
    storage.add_device("h", "r", "a", socket("a"));
    storage.add_device("g", "s", "b", socket("b"));
    storage.add_device("h", "s", "c", socket("c"));
    storage.remove_deivices(&query("h", "*", "*"));
    let all = storage.query_devices(&query("*", "*", "*"));
    assert_eq!(names(&all), vec!["b".to_string()]);
    storage.remove_deivices(&query("*", "*", "*"));
    assert!(storage.query_devices(&query("*", "*", "*")).is_empty());
}

#[test]
fn empty_registry_queries() {
    let storage = DeviceStorageImpl::new();
    assert!(storage.query_devices(&query("*", "*", "*")).is_empty());
    assert!(storage.devices_in_room("kitchen").is_empty());
}

#[test]
fn query_matches_positions() {
    let p = DevicePosition {
        house: "h".to_string(),
        room: "r".to_string(),
        name: "n".to_string(),
    };
    let same = DevicePosition {
        house: "h".to_string(),
        room: "r".to_string(),
        name: "n".to_string(),
    };
    assert!(p.same_position(&same));
    assert!(query("h", "r", "n").matches(&p));
    assert!(query("*", "r", "*").matches(&p));
    assert!(!query("h", "x", "*").matches(&p));
    assert!(!query("**", "r", "n").matches(&p));
}
