use smart_home_api::device::{Kettle, SmartDevice, Socket, Thermometer};
use smart_home_api::home::{Home, SmartHomeError};

fn setup() -> Home {
    let mut home = Home::new(String::from("MyHome"));
    for room in ["Kitchen", "Dining", "Living"] {
        if let Err(e) = home.add_room(String::from(room), Vec::new()) {
            println!("{}", e.to_text());
        }
    }
    home
}

#[test]
fn home_test_get_rooms() {
    let home = setup();
    assert_ne!(home.get_rooms().len(), 0);
}

#[test]
fn home_test_get_devices() {
    let home = setup();
    let rooms = home.get_rooms();

    for room in &rooms {
        assert_eq!(home.get_devices(room).ok().unwrap().len() == 0usize, true);
    }
}

#[test]
fn home_test_get_report() {
    let home = setup();
    let rooms = home.get_rooms();
    let report = home.create_report();

    for room in rooms {
        assert!(report.contains(room.as_str()));
    }
}

#[test]
fn home_test_add_room_with_same_name_return_error() {
    let mut home = setup();
    let room: String = "Kitchen".into();

    let res = home.add_room(room.clone(), Vec::new());

    assert!(res.is_err());
    assert!(res.err().unwrap().to_text().contains("same name"));

    // once the room is gone, it can be added again
    assert!(home.del_room(&room).is_ok());
    assert!(!home.get_rooms().contains(&room));

    let res = home.add_room(room, Vec::new());
    assert!(res.is_ok());
}

#[test]
fn home_test_del_existing_room_is_ok() {
    let mut home = setup();
    let room: String = "Kitchen".into();

    let rooms_before = home.get_rooms().len();
    let res = home.del_room(&room);
    assert!(res.is_ok());
    assert_eq!(home.get_rooms().len(), rooms_before - 1);
}

#[test]
fn home_test_del_non_existing_room_is_err() {
    let mut home = setup();
    let room: String = "Bathroom".into();

    let rooms_before = home.get_rooms().len();
    let res = home.del_room(&room);
    assert!(res.is_err());
    assert!(res.err().unwrap().to_text().contains("not exist"));

    assert_eq!(home.get_rooms().len(), rooms_before);
}

#[test]
fn home_test_add_device() {
    let mut home = setup();
    let room: String = "Kitchen".into();

    let socket1 = Socket::new("1");
    let socket1clone = Socket::new("1");

    let device_before = home.get_devices(&room).ok().unwrap().len();
    let add_device = home.add_device(&room, SmartDevice::Socket(socket1));
    let device_after = home.get_devices(&room).ok().unwrap().len();
    assert!(add_device.is_ok());
    assert_eq!(device_before, device_after - 1);

    // a second device of the same name is refused
    let device_before = home.get_devices(&room).ok().unwrap().len();
    let twice_device = home.add_device(&room, SmartDevice::Socket(socket1clone));
    assert!(twice_device.is_err());
    assert!(twice_device.err().unwrap().to_text().contains("same name"));

    let device_after = home.get_devices(&room).ok().unwrap().len();
    assert_eq!(device_before, device_after);
}

#[test]
fn home_test_del_device() {
    let mut home = setup();
    let room: String = "Kitchen".into();
    let another_room: String = "Dining".into();

    let socket1 = Socket::new("1");
    let socket2 = Socket::new("2");

    let _ = home.add_device(&room, SmartDevice::Socket(socket1));

    let device_before = home.get_devices(&room).ok().unwrap().len();

    let del_device = home.del_device(&room, "Smart Socket 1");
    let device_after = home.get_devices(&room).ok().unwrap().len();

    assert!(del_device.is_ok());
    assert_eq!(device_before, device_after + 1);

    // a device that is not in the room cannot be removed
    assert_eq!(home.get_devices(&room).ok().unwrap().len(), 0);
    let _ = home.add_device(&room, SmartDevice::Socket(socket2));
    assert_eq!(home.get_devices(&room).ok().unwrap().len(), 1);

    let del_device = home.del_device(&room, "Smart Socket 1");
    assert!(del_device.is_err());
    assert!(del_device.err().unwrap().to_text().contains("not exist"));

    // nor from another room
    let del_device = home.del_device(&another_room, "Smart Socket 2");
    assert!(del_device.is_err());
    assert!(del_device.err().unwrap().to_text().contains("not exist"));

    assert_eq!(home.get_devices(&room).ok().unwrap().len(), 1);
    let _ = home.del_device(&room, "Smart Socket 2");
    assert_eq!(home.get_devices(&room).ok().unwrap().len(), 0);
}

#[test]
fn add_room_keeps_order_and_last_of_same_name() {
    let mut home = Home::new("H".to_string());
    let mut broken = Socket::new("1");
    broken.set_broken();
    let devices = vec![
        SmartDevice::Socket(Socket::new("1")),
        SmartDevice::Kettle(Kettle::new("1")),
        SmartDevice::Socket(broken),
    ];
    assert!(home.add_room("A".to_string(), devices).is_ok());
    assert!(home.add_room("B".to_string(), Vec::new()).is_ok());
    assert_eq!(home.get_rooms(), vec!["A".to_string(), "B".to_string()]);
    assert_eq!(
        home.get_devices("A").ok().unwrap(),
        vec!["Smart Socket 1".to_string(), "Smart Kettle 1".to_string()]
    );
    let info = home.get_device("A", "Smart Socket 1").ok().unwrap().report();
    assert!(info.contains("Не исправен"));
}

#[test]
fn missing_room_and_device_errors() {
    let mut home = setup();
    let e = home.add_device("Attic", SmartDevice::Thermometer(Thermometer::new("1"))).err().unwrap();
    assert!(matches!(e, SmartHomeError::RoomNonExist(_)));
    assert_eq!(e.to_text(), "room: Attic not exist");
    let e = home.get_device("Kitchen", "Lamp").err().unwrap();
    assert_eq!(e.to_text(), "device: \"Lamp\" not exist in room: \"Kitchen\"");
    let e = home.add_room("Kitchen".to_string(), Vec::new()).err().unwrap();
    assert_eq!(e.to_text(), "room with same name exist in home: MyHome");
    let _ = home.add_device("Kitchen", SmartDevice::Kettle(Kettle::new("7")));
    let e = home.add_device("Kitchen", SmartDevice::Kettle(Kettle::new("7"))).err().unwrap();
    assert_eq!(e.to_text(), "device with same name exist in room: Kitchen");
}

#[test]
fn device_texts() {
    let s = SmartDevice::Socket(Socket::new("3"));
    assert_eq!(s.get_name(), "Smart Socket 3");
    assert_eq!(s.get_description(), "Very Powerful Smart Device");
    assert_eq!(s.get_current_info(), "Текущая мощность: 15.20 Вт");
    let k = SmartDevice::Kettle(Kettle::new("2"));
    assert_eq!(k.get_description(), "No information provided");
    assert_eq!(k.get_current_info(), "В чайнике: 1.10 л воды, Текущая температура: 0.00 °C");
    let t = SmartDevice::Thermometer(Thermometer::new("1"));
    assert_eq!(t.get_current_info(), "Текущая температура: 0.00 °C");
    assert_eq!(
        t.report(),
        "Устройство: Thermometer 1\n    Описание: No information provided\n    Состояние: \x1b[32mВключен\x1b[0m\n    Текущие параметры: Текущая температура: 0.00 °C"
    );
}

#[test]
fn switch_rules() {
    let mut d = SmartDevice::Socket(Socket::new("1"));
    assert_eq!(d.switch("on"), "ok, state was set");
    assert_eq!(d.switch("sideways"), "No information provided");
    assert_eq!(d.switch("broken"), "ok, state was set");
    assert_eq!(d.switch("off"), "failed, can't change state, device is broken!");
    assert!(d.report().contains("Не исправен"));
}

#[test]
fn decimal_text() {
    let mut s = String::new();
    smart_home_api::device::push_centi(&mut s, 120034);
    assert_eq!(s, "1200.34");
    let mut z = String::new();
    smart_home_api::device::push_decimal(&mut z, 0);
    assert_eq!(z, "0");
}
