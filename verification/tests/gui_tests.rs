use smart_house::gui::{GuiAction, SmartDevice, SmartDeviceMessage, SmartDeviceState};
use smart_house::models::Device;

#[test]
fn text_state_captions() {
    assert_eq!(SmartDevice::text_state(true), "Turn Off");
    assert_eq!(SmartDevice::text_state(false), "Turn on");
}

#[test]
fn default_starts_idle_at_local_server() {
    let s = SmartDevice::default();
    assert_eq!(s.input_url, "http://127.0.0.1:8080");
    assert!(!s.connected);
    assert!(matches!(s.state, SmartDeviceState::Idle));
    assert!(matches!(SmartDeviceState::default(), SmartDeviceState::Idle));
}

#[test]
fn connect_asks_for_the_first_device() {
    let mut s = SmartDevice::default();
    let a = s.update(SmartDeviceMessage::Connect);
    assert!(matches!(a, GuiAction::FetchFirstDevice));
    assert!(matches!(s.state, SmartDeviceState::Idle));
}

#[test]
fn fetched_device_moves_to_connected_screen() {
    let mut s = SmartDevice::default();
    let d = Device {
        id: "d1".to_string(),
        name: "Lamp".to_string(),
        type_: "Socket".to_string(),
        address: None,
        state: false,
        variable: 3,
        room: "r1".to_string(),
    };
    s.apply_fetched_device(d);
    assert!(s.connected);
    assert!(matches!(s.state, SmartDeviceState::Connected));
    assert_eq!(s.device.name, "Lamp");
    assert_eq!(s.device.variable, 3);
}

#[test]
fn refetch_after_toggle_changes_only_the_shown_device() {
    let mut s = SmartDevice::default();
    let d = Device {
        id: "d1".to_string(),
        name: "Lamp".to_string(),
        type_: "Socket".to_string(),
        address: None,
        state: false,
        variable: 0,
        room: "r1".to_string(),
    };
    s.apply_fetched_device(d);
    let toggled = Device {
        id: "d1".to_string(),
        name: "Lamp".to_string(),
        type_: "Socket".to_string(),
        address: None,
        state: true,
        variable: 0,
        room: "r1".to_string(),
    };
    s.apply_refetched_device(toggled);
    assert!(s.device.state);
    assert!(s.connected);
    assert!(matches!(s.state, SmartDeviceState::Connected));

    let mut idle = SmartDevice::default();
    let other = Device {
        id: "d2".to_string(),
        name: "Socket".to_string(),
        type_: "Socket".to_string(),
        address: None,
        state: true,
        variable: 0,
        room: "r1".to_string(),
    };
    idle.apply_refetched_device(other);
    assert!(!idle.connected);
    assert!(matches!(idle.state, SmartDeviceState::Idle));
    assert_eq!(idle.device.id, "d2");
}

#[test]
fn turn_lamp_asks_to_toggle_the_shown_device() {
    let mut s = SmartDevice::default();
    let d = Device {
        id: "d1".to_string(),
        name: "Lamp".to_string(),
        type_: "Socket".to_string(),
        address: None,
        state: true,
        variable: 0,
        room: "r1".to_string(),
    };
    s.apply_fetched_device(d);
    let a = s.update(SmartDeviceMessage::TurnLamp);
    match a {
        GuiAction::ToggleAndRefetch(id) => assert_eq!(id, "d1"),
        _ => panic!("expected a toggle request"),
    }
}

#[test]
fn input_change_edits_the_url_only() {
    let mut s = SmartDevice::default();
    let a = s.update(SmartDeviceMessage::InputChanged("http://10.0.0.1:8080".to_string()));
    assert!(matches!(a, GuiAction::NoAction));
    assert_eq!(s.input_url, "http://10.0.0.1:8080");
    assert!(!s.connected);
    let a = s.update(SmartDeviceMessage::Connected(true));
    assert!(matches!(a, GuiAction::NoAction));
    assert!(s.connected);
    let a = s.update(SmartDeviceMessage::Delete);
    assert!(matches!(a, GuiAction::NoAction));
}
