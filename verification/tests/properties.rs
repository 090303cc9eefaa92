use smarthome::device::{Device, SmartSocket, SmartThermometer};
use smarthome::home::{
    BorrowingDeviceInfoProvider, DeviceInfoProvider, OwningDeviceInfoProvider, SmartHome,
};
use smarthome::ids::id_text;
use smarthome::room::Room;

#[test]
fn device_ids_stable_and_distinct() {
    let socket = SmartSocket::new(String::from("a"));
    let device = Device::Socket(socket);
    let first = device.get_id();
    let second = device.get_id();
    assert!(first.is_some());
    assert_eq!(first, second);

    let mut seen: Vec<u128> = Vec::new();
    for _ in 0..8 {
        seen.push(SmartSocket::new(String::from("x")).id);
    }
    for _ in 0..8 {
        seen.push(SmartThermometer::new(String::from("y"), 0).id);
    }
    for i in 0..seen.len() {
        for j in (i + 1)..seen.len() {
            assert_ne!(seen[i], seen[j]);
        }
    }
}

#[test]
fn add_device_replaces_same_id() {
    let first = SmartSocket::new(String::from("first"));
    let mut second = SmartSocket::new(String::from("second"));
    second.id = first.id;

    let mut room = Room::new(String::from("R"));
    room.add_device(Device::Socket(first));
    let count_after_first = room.devices.len();
    room.add_device(Device::Socket(second.clone()));

    assert_eq!(room.devices.len(), count_after_first);
    match &room.devices[0] {
        Device::Socket(stored) => {
            assert_eq!(stored.id, second.id);
            assert_eq!(stored.name, "second");
        }
        _ => panic!("expected a socket"),
    }
}

#[test]
fn list_rooms_counts_and_absent_lookup() {
    let mut house = SmartHome::new(String::from("H"));
    let rooms = [
        Room::new(String::from("one")),
        Room::new(String::from("two")),
        Room::new(String::from("three")),
    ];
    for i in 0..rooms.len() {
        for j in (i + 1)..rooms.len() {
            assert_ne!(rooms[i].id, rooms[j].id);
        }
    }
    for room in rooms {
        house.add_room(room);
    }
    assert_eq!(house.get_rooms().len(), 3);

    let mut absent: u128 = 0;
    while house.rooms.iter().any(|r| r.id == absent) {
        absent += 1;
    }
    assert!(house.devices(absent).is_none());
}

#[test]
fn socket_power_range_and_reset() {
    let mut socket = SmartSocket::new(String::from("S"));
    assert_eq!(socket.power, 0);
    assert_eq!(socket.state, false);
    for _ in 0..20 {
        // Power is held in hundredths, so `0..=10000` is exactly the
        // two-decimal readings of [0.00, 100.00].
        socket.switch(true);
        assert!(socket.power <= 10000);
    }
    // Re-switching an already-on socket re-samples; still in range.
    socket.switch(true);
    assert!(socket.power <= 10000);
    socket.switch(false);
    assert_eq!(socket.power, 0);
}

#[test]
fn report_total_for_unknowing_provider() {
    let mut with_device = Room::new(String::from("With"));
    with_device.add_device(Device::Socket(SmartSocket::new(String::from("S"))));
    let empty_room = Room::new(String::from("Without"));

    let mut house = SmartHome::new(String::from("H"));
    house.add_room(with_device);
    house.add_room(empty_room);

    // This provider's socket is not in the house, so it recognizes nothing.
    let provider = OwningDeviceInfoProvider {
        socket: SmartSocket::new(String::from("elsewhere")),
    };
    let report = house.create_report(&provider);
    assert!(!report.is_empty());
}

#[test]
fn report_borrowing_scenario() {
    let mut tv_socket = SmartSocket::new(String::from("TV-socket"));
    tv_socket.switch(true);
    // 18.8 degrees, held in tenths of a degree.
    let thermo = SmartThermometer::new(String::from("Thermometer 1"), 188);
    let fridge_socket = SmartSocket::new(String::from("Fridge-socket"));

    let mut living_room = Room::new(String::from("Living Room"));
    living_room.add_device(Device::Socket(tv_socket.clone()));

    let mut kitchen = Room::new(String::from("Kitchen"));
    kitchen.add_device(Device::Thermometer(thermo.clone()));
    kitchen.add_device(Device::Socket(fridge_socket.clone()));

    let mut house = SmartHome::new(String::from("My Dom"));
    house.add_room(living_room);
    house.add_room(kitchen);

    let provider = BorrowingDeviceInfoProvider {
        socket: &tv_socket,
        thermo: &thermo,
    };
    let report = house.create_report(&provider);

    let house_line = format!("id: {}\nHome: My Dom\n", id_text(house.id));
    assert!(report.starts_with(&house_line));
    assert!(report.contains("Room: Living Room"));
    assert!(report.contains("Room: Kitchen"));
    assert!(report.contains("SmartSocket: TV-socket, State: On, Power: "));
    assert!(report.contains("SmartThermometer: Thermometer 1, temperature: 18.8\u{b0}C"));
    assert!(report.contains("SmartSocket: Fridge-socket, State: Off, Power: 0\n"));
    assert!(report.ends_with("\n\n"));

    // The line structure is deterministic; only the sampled power digits of
    // the "on" socket vary. House line: 2 lines; each device entry: 4 lines
    // and a blank; each room block ends with a blank line.
    let newlines = report.chars().filter(|&c| c == '\n').count();
    assert_eq!(newlines, 2 + (5 + 1) + (5 + 5 + 1));
}

#[test]
fn report_empty_house() {
    let house = SmartHome::new(String::from("Empty"));
    let provider = OwningDeviceInfoProvider {
        socket: SmartSocket::new(String::from("S")),
    };
    let report = house.create_report(&provider);
    assert_eq!(report, format!("{}\n", house.describe()));
}

#[test]
fn report_room_without_devices() {
    let mut house = SmartHome::new(String::from("H"));
    house.add_room(Room::new(String::from("Bare")));
    let provider = OwningDeviceInfoProvider {
        socket: SmartSocket::new(String::from("S")),
    };
    let report = house.create_report(&provider);
    assert_eq!(
        report,
        format!("{}\nNo devices in this room\n\n", house.describe())
    );
    assert!(!report.contains("SmartSocket"));
}

#[test]
fn power_rendering_two_decimals() {
    let mut socket = SmartSocket::new(String::from("S"));
    socket.state = true;
    socket.power = 4205;
    assert!(socket.describe().ends_with("State: On, Power: 42.05"));
    socket.power = 4210;
    assert!(socket.describe().ends_with("Power: 42.1"));
    socket.power = 4200;
    assert!(socket.describe().ends_with("Power: 42"));
    socket.power = 10000;
    assert!(socket.describe().ends_with("Power: 100"));
    socket.state = false;
    socket.power = 0;
    assert!(socket.describe().ends_with("State: Off, Power: 0"));
}

#[test]
fn temperature_rendering_tenths() {
    let mut thermo = SmartThermometer::new(String::from("T"), 188);
    assert!(thermo.describe().ends_with("temperature: 18.8\u{b0}C"));
    thermo.temperature = -53;
    assert!(thermo.describe().ends_with("temperature: -5.3\u{b0}C"));
    thermo.temperature = 230;
    assert!(thermo.describe().ends_with("temperature: 23\u{b0}C"));
    thermo.temperature = 0;
    assert!(thermo.describe().ends_with("temperature: 0\u{b0}C"));
}

#[test]
fn id_text_matches_canonical_form() {
    assert_eq!(id_text(0), "00000000-0000-0000-0000-000000000000");
    assert_eq!(
        id_text(0xa1a2a3a4b1b2c1c2d1d2d3d4d5d6d7d8),
        "a1a2a3a4-b1b2-c1c2-d1d2-d3d4d5d6d7d8"
    );
    let socket = SmartSocket::new(String::from("S"));
    assert_eq!(
        id_text(socket.id),
        uuid::Uuid::from_u128(socket.id).to_string()
    );
}

#[test]
fn provider_reads_are_pure() {
    let socket = SmartSocket::new(String::from("S"));
    let room = Room::new(String::from("R"));
    let device = Device::Socket(socket.clone());
    let provider = OwningDeviceInfoProvider { socket };
    let first = provider.get_device_info(&room, &device);
    let second = provider.get_device_info(&room, &device);
    assert_eq!(first, second);
    assert!(!first.is_empty());
}

#[test]
fn unknown_device_falls_back_to_description() {
    let owned = SmartSocket::new(String::from("owned"));
    let other = SmartSocket::new(String::from("other"));
    let provider = OwningDeviceInfoProvider { socket: owned };
    let room = Room::new(String::from("R"));
    let info = provider.get_device_info(&room, &Device::Socket(other.clone()));
    assert_eq!(info, format!("{}\n{}\n", room.describe(), other.describe()));
}

#[test]
fn provider_reports_live_copy() {
    let mut live = SmartSocket::new(String::from("S"));
    let mut room = Room::new(String::from("R"));
    // The registry entry is a copy taken while the socket was off.
    room.add_device(Device::Socket(live.clone()));
    live.switch(true);

    let thermo = SmartThermometer::new(String::from("T"), 0);
    let provider = BorrowingDeviceInfoProvider {
        socket: &live,
        thermo: &thermo,
    };
    let info = provider.get_device_info(&room, &room.devices[0]);
    // The provider simulates the live device, not the registry entry.
    assert!(info.contains("State: On"));
    assert!(!info.contains("State: Off"));
}
