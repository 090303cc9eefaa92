use smarthome::device::{Device, SmartSocket, SmartThermometer};
use smarthome::home::{BorrowingDeviceInfoProvider, OwningDeviceInfoProvider, SmartHome};
use smarthome::room::Room;

#[test]
fn create_device() {
    let device = SmartSocket::new(String::from("My Socket"));
    assert_eq!(device.name, "My Socket");
}

#[test]
fn get_temperature_in_thermo() {
    // 23.4 degrees, held in tenths of a degree.
    let thermo = SmartThermometer::new(String::from("My Thermometer"), 234);

    assert_eq!(thermo.name, "My Thermometer");
}

#[test]
fn socket_state_on() {
    let mut socket = SmartSocket::new(String::from("My Socket"));
    socket.switch(true);

    assert_eq!(socket.state, true);
}

#[test]
fn create_smarthome() {
    let house = SmartHome::new(String::from("My Dom"));

    assert_eq!(house.name, "My Dom");
}

#[test]
fn add_room_in_smarthome() {
    let room = Room::new(String::from("My Room"));

    let mut house = SmartHome::new(String::from("My Dom"));
    house.add_room(room);

    assert_eq!(house.rooms.len(), 1);
}

#[test]
fn smarthome_get_rooms() {
    let room = Room::new(String::from("My Room"));

    let mut house = SmartHome::new(String::from("My Dom"));
    house.add_room(room);

    assert_eq!(house.get_rooms().len(), 1);
}

#[test]
fn smarthome_room_get_devices() {
    let socket = SmartSocket::new(String::from("Socket"));
    let mut room = Room::new(String::from("My Room"));

    room.add_device(Device::Socket(socket));

    let mut house = SmartHome::new(String::from("My Dom"));
    house.add_room(room.clone());

    let devices = house.devices(room.id).unwrap();

    assert_eq!(devices.len(), 1);
}

#[test]
fn smarthome_create_report_owning() {
    let socket = SmartSocket::new(String::from("My Socket"));
    let mut room = Room::new(String::from("My Room"));

    room.add_device(Device::Socket(socket.clone()));

    let mut house = SmartHome::new(String::from("My Dom"));
    house.add_room(room.clone());

    let info_provider = OwningDeviceInfoProvider { socket };

    let report = house.create_report(&info_provider);

    assert!(report.len() > 0)
}

#[test]
fn smarthome_create_report_borrowing() {
    let socket = SmartSocket::new(String::from("My Socket"));
    // 12.9 degrees, held in tenths of a degree.
    let thermo = SmartThermometer::new(String::from("My Thermometer"), 129);

    let mut room = Room::new(String::from("My Room"));

    room.add_device(Device::Socket(socket.clone()));
    room.add_device(Device::Thermometer(thermo.clone()));

    let mut house = SmartHome::new(String::from("My Dom"));
    house.add_room(room.clone());

    let info_provider = BorrowingDeviceInfoProvider {
        socket: &socket,
        thermo: &thermo,
    };

    let report = house.create_report(&info_provider);

    assert!(report.len() > 0)
}

#[test]
fn create_room() {
    let room = Room::new(String::from("My Room"));

    assert_eq!(room.name, "My Room");
}

#[test]
fn add_devicein_room() {
    let socket = SmartSocket::new(String::from("My Socket"));

    let mut room = Room::new(String::from("My Room"));
    room.add_device(Device::Socket(socket));

    assert_eq!(room.devices.len(), 1);
}
