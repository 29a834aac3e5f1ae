use smart_house::models::{Device, House, Room};
use smart_house::report_generator::{
    generate_list_id, generate_name_id, generate_report, generate_report_id, DoubleError,
};

fn device(id: &str, name: &str) -> Device {
    Device {
        id: id.to_string(),
        name: name.to_string(),
        type_: "Socket".to_string(),
        address: Some("192.168.0.1".to_string()),
        state: false,
        variable: 0,
        room: "r1".to_string(),
    }
}

#[test]
fn it_works() {
    let result = 2 + 2;
    assert_eq!(result, 4);
}

#[test]
fn empty_input_fails_full_report() {
    let r = generate_report(Vec::<Device>::new());
    assert!(matches!(r, Err(DoubleError::EmptyVec)));
}

#[test]
fn empty_input_fails_id_report() {
    let r = generate_report_id(Vec::<Room>::new());
    assert!(matches!(r, Err(DoubleError::EmptyVec)));
}

#[test]
fn empty_input_fails_id_list() {
    let r = generate_list_id(Vec::<House>::new());
    assert!(matches!(r, Err(DoubleError::EmptyVec)));
}

#[test]
fn empty_input_fails_name_id() {
    let r = generate_name_id(Vec::<Device>::new());
    assert!(matches!(r, Err(DoubleError::EmptyVec)));
}

#[test]
fn full_report_exact_text() {
    let data = vec![device("d1", "Lamp"), device("d2", "Heater")];
    let r = generate_report(data).unwrap();
    assert_eq!(
        r,
        "Отчет для устройств Device: Имя Lamp, id d1 Имя Heater, id d2"
    );
}

#[test]
fn full_report_labels_rooms() {
    let data = vec![Room {
        id: "r1".to_string(),
        name: "Kitchen".to_string(),
        house: "h1".to_string(),
    }];
    let r = generate_report(data).unwrap();
    assert_eq!(r, "Отчет для устройств Room: Имя Kitchen, id r1");
}

#[test]
fn id_report_exact_text() {
    let data = vec![device("d1", "Lamp"), device("d2", "Heater")];
    let r = generate_report_id(data).unwrap();
    assert_eq!(r, "Список id для устройств Device: id d1 id d2");
}

#[test]
fn id_list_keeps_trailing_space() {
    let data = vec![device("d1", "Lamp"), device("d2", "Heater")];
    let r = generate_list_id(data).unwrap();
    assert_eq!(r, vec!["d1 ".to_string(), "d2 ".to_string()]);
}

#[test]
fn name_id_last_write_wins() {
    let data = vec![device("d1", "Lamp"), device("d2", "Heater"), device("d3", "Lamp")];
    let r = generate_name_id(data).unwrap();
    assert_eq!(r.len(), 2);
    let lamp = r.iter().find(|p| p.0 == "Lamp").unwrap();
    assert_eq!(lamp.1, "d3");
    let heater = r.iter().find(|p| p.0 == "Heater").unwrap();
    assert_eq!(heater.1, "d2");
}

#[test]
fn double_error_text() {
    assert_eq!(DoubleError::EmptyVec.text(), "Error EmptyValue");
    assert_eq!(DoubleError::Parse.text(), "parse error");
}
