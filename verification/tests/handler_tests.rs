use smart_house::handlers::{
    add_device, add_house, add_room, change_state_device, get_device, get_device_var,
    get_devices_list, get_devices_report, get_list_devices, get_list_houses, get_list_rooms,
    get_room, get_rooms_list, post_device, rem_device, rem_house, rem_room, HttpReply, ReplyBody,
};
use smart_house::models::{House, NewDevice, NewHouse, NewRoom, Room};
use smart_house::store::Store;

fn text_of(r: HttpReply) -> String {
    match r.body {
        ReplyBody::TextBody(t) => t,
        _ => panic!("expected a plain-text body"),
    }
}

fn house_of(r: HttpReply) -> House {
    match r.body {
        ReplyBody::HouseJson(h) => h,
        _ => panic!("expected a house body"),
    }
}

fn room_of(r: HttpReply) -> Room {
    match r.body {
        ReplyBody::RoomJson(rm) => rm,
        _ => panic!("expected a room body"),
    }
}

fn populated() -> (Store, String, String, String) {
    let mut store = Store::new();
    let r = add_house(&mut store, &NewHouse::new("Home"));
    assert_eq!(r.status, 201);
    let house = house_of(r);
    let r = add_room(&mut store, &NewRoom::new("Kitchen", &house.id));
    assert_eq!(r.status, 201);
    let room = room_of(r);
    let r = add_device(
        &mut store,
        &NewDevice::new("Lamp", "Socket", "192.168.0.1", &room.id),
    );
    assert_eq!(r.status, 201);
    let device_id = match r.body {
        ReplyBody::DeviceJson(d) => d.id,
        _ => panic!("expected a device body"),
    };
    (store, house.id, room.id, device_id)
}

#[test]
fn device_unknown_uuid_is_404_naming_the_uid() {
    let store = Store::new();
    let uid = "5b2384a9-6c9d-4b3f-8a1e-2f0c6d3e4a5b";
    let r = get_device(&store, uid);
    assert_eq!(r.status, 404);
    let body = text_of(r);
    assert!(body.starts_with("No device found"));
    assert!(body.contains(uid));
    assert_eq!(body, format!("No device found with UID: {}", uid));
}

#[test]
fn device_malformed_uuid_is_404_parse_failure() {
    let store = Store::new();
    let r = get_device(&store, "not-a-uuid");
    assert_eq!(r.status, 404);
    let body = text_of(r);
    assert!(body.starts_with("UUID parsing failed"), "unexpected body: {body:?}");
}

#[test]
fn device_uuid_is_canonicalized_before_lookup() {
    let store = Store::new();
    let r = get_device(&store, "936DA01F9ABD4D9D80C702AF85C822A8");
    assert_eq!(r.status, 404);
    assert_eq!(
        text_of(r),
        "No device found with UID: 936da01f-9abd-4d9d-80c7-02af85c822a8"
    );
}

#[test]
fn device_round_trip_through_handlers() {
    let (store, _house_id, room_id, device_id) = populated();
    let r = get_device(&store, &device_id);
    assert_eq!(r.status, 200);
    match r.body {
        ReplyBody::DeviceJson(d) => {
            assert_eq!(d.name, "Lamp");
            assert_eq!(d.type_, "Socket");
            assert_eq!(d.address.as_deref(), Some("192.168.0.1"));
            assert_eq!(d.room, room_id);
        },
        _ => panic!("expected a device body"),
    }
    let r = post_device(&store, &device_id);
    assert_eq!(r.status, 200);
}

#[test]
fn device_var_starts_at_zero() {
    let (store, _house_id, _room_id, device_id) = populated();
    let r = get_device_var(&store, &device_id);
    assert_eq!(r.status, 200);
    assert!(matches!(r.body, ReplyBody::VarJson(0)));
}

#[test]
fn report_scenario_names_house_and_device() {
    let (store, house_id, _room_id, _device_id) = populated();
    let r = get_devices_report(&store, &house_id);
    assert_eq!(r.status, 200);
    match r.body {
        ReplyBody::StringJson(rep) => {
            assert!(rep.contains("Home"));
            assert!(rep.contains("Lamp"));
        },
        _ => panic!("expected a report string"),
    }
}

#[test]
fn report_unknown_house_is_404() {
    let store = Store::new();
    let uid = "5b2384a9-6c9d-4b3f-8a1e-2f0c6d3e4a5b";
    let r = get_devices_report(&store, uid);
    assert_eq!(r.status, 404);
    let body = text_of(r);
    assert_eq!(
        body,
        format!(
            "No report found for house with UID: {} and error Record not found",
            uid
        )
    );
}

#[test]
fn toggle_handler_flips_state() {
    let (mut store, _house_id, _room_id, device_id) = populated();
    let r = change_state_device(&mut store, &device_id);
    assert_eq!(r.status, 200);
    match r.body {
        ReplyBody::DeviceJson(d) => assert_eq!(d.state, true),
        _ => panic!("expected a device body"),
    }
    let r = change_state_device(&mut store, &device_id);
    assert_eq!(r.status, 200);
    match r.body {
        ReplyBody::DeviceJson(d) => assert_eq!(d.state, false),
        _ => panic!("expected a device body"),
    }
}

#[test]
fn toggle_handler_missing_device_is_500() {
    let mut store = Store::new();
    let r = change_state_device(&mut store, "5b2384a9-6c9d-4b3f-8a1e-2f0c6d3e4a5b");
    assert_eq!(r.status, 500);
    assert_eq!(text_of(r), "Record not found");
}

#[test]
fn remove_handlers_answer_with_prior_value() {
    let (mut store, house_id, room_id, device_id) = populated();
    let r = rem_device(&mut store, &device_id);
    assert_eq!(r.status, 200);
    let r = rem_room(&mut store, &room_id);
    assert_eq!(r.status, 200);
    assert_eq!(room_of(r).name, "Kitchen");
    let r = rem_house(&mut store, &house_id);
    assert_eq!(r.status, 200);
    assert_eq!(house_of(r).name, "Home");
}

#[test]
fn remove_referenced_house_is_500() {
    let (mut store, house_id, _room_id, _device_id) = populated();
    let r = rem_house(&mut store, &house_id);
    assert_eq!(r.status, 500);
    assert_eq!(text_of(r), "FOREIGN KEY constraint failed");
}

#[test]
fn remove_absent_device_is_500() {
    let mut store = Store::new();
    let r = rem_device(&mut store, "5b2384a9-6c9d-4b3f-8a1e-2f0c6d3e4a5b");
    assert_eq!(r.status, 500);
    assert_eq!(text_of(r), "Error finding device for remove");
}

#[test]
fn add_device_missing_room_is_500() {
    let mut store = Store::new();
    let r = add_device(
        &mut store,
        &NewDevice::new("Lamp", "Socket", "192.168.0.1", "5b2384a9-6c9d-4b3f-8a1e-2f0c6d3e4a5b"),
    );
    assert_eq!(r.status, 500);
    assert_eq!(text_of(r), "FOREIGN KEY constraint failed");
}

#[test]
fn list_handlers_cover_both_outcomes() {
    let (store, house_id, room_id, device_id) = populated();
    let r = get_list_devices(&store, &room_id);
    assert_eq!(r.status, 200);
    match r.body {
        ReplyBody::IdListJson(ids) => assert_eq!(ids, vec![format!("{} ", device_id)]),
        _ => panic!("expected an id list"),
    }
    let r = get_list_rooms(&store, &house_id);
    assert_eq!(r.status, 200);
    match r.body {
        ReplyBody::NameIdJson(pairs) => {
            assert_eq!(pairs, vec![("Kitchen".to_string(), room_id.clone())])
        },
        _ => panic!("expected a name-id mapping"),
    }
    let r = get_list_houses(&store);
    assert_eq!(r.status, 200);
    match r.body {
        ReplyBody::IdListJson(ids) => assert_eq!(ids, vec![format!("{} ", house_id)]),
        _ => panic!("expected an id list"),
    }
    let r = get_devices_list(&store);
    assert_eq!(r.status, 200);
    let r = get_rooms_list(&store);
    assert_eq!(r.status, 200);
    match r.body {
        ReplyBody::StringJson(rep) => {
            assert_eq!(rep, format!("Список id для устройств Room: id {}", room_id))
        },
        _ => panic!("expected a report string"),
    }
}

#[test]
fn list_handlers_fail_on_empty_input() {
    let store = Store::new();
    let r = get_list_houses(&store);
    assert_eq!(r.status, 400);
    match r.body {
        ReplyBody::StringJson(t) => assert_eq!(t, "Error EmptyValue"),
        _ => panic!("expected a string body"),
    }
    let r = get_devices_list(&store);
    assert_eq!(r.status, 400);
    let r = get_rooms_list(&store);
    assert_eq!(r.status, 400);
    let r = get_list_devices(&store, "5b2384a9-6c9d-4b3f-8a1e-2f0c6d3e4a5b");
    assert_eq!(r.status, 400);
    let r = get_list_rooms(&store, "5b2384a9-6c9d-4b3f-8a1e-2f0c6d3e4a5b");
    assert_eq!(r.status, 400);
}

#[test]
fn room_handler_copy_paste_message_is_kept() {
    let store = Store::new();
    let uid = "5b2384a9-6c9d-4b3f-8a1e-2f0c6d3e4a5b";
    let r = get_room(&store, uid);
    assert_eq!(r.status, 404);
    assert_eq!(text_of(r), format!("No device found with UID: {}", uid));
}
