use smart_house::store::{EntityKind, Store, StoreError};

fn store_with_room() -> (Store, String, String) {
    let mut store = Store::new();
    let house = store.insert_new_house("Home").unwrap();
    let room = store.insert_new_room("Kitchen", &house.id).unwrap();
    (store, house.id.clone(), room.id.clone())
}

#[test]
fn insert_device_missing_room_is_foreign_key_violation() {
    let mut store = Store::new();
    let missing = "5b2384a9-6c9d-4b3f-8a1e-2f0c6d3e4a5b".to_string();
    let r = store.insert_new_device("Lamp", "Socket", "192.168.0.1", &missing);
    assert!(matches!(r, Err(StoreError::ForeignKeyViolation)));
    assert!(store.get_devices_list().is_empty());
}

#[test]
fn insert_room_missing_house_is_foreign_key_violation() {
    let mut store = Store::new();
    let missing = "5b2384a9-6c9d-4b3f-8a1e-2f0c6d3e4a5b".to_string();
    let r = store.insert_new_room("Kitchen", &missing);
    assert!(matches!(r, Err(StoreError::ForeignKeyViolation)));
}

#[test]
fn find_after_insert_house_round_trip() {
    let mut store = Store::new();
    let h = store.insert_new_house("Home").unwrap();
    let found = store.find_house_by_id(&h.id).unwrap();
    assert_eq!(found.id, h.id);
    assert_eq!(found.name, "Home");
}

#[test]
fn find_after_insert_room_round_trip() {
    let (store, house_id, room_id) = store_with_room();
    let found = store.find_room_by_id(&room_id).unwrap();
    assert_eq!(found.id, room_id);
    assert_eq!(found.name, "Kitchen");
    assert_eq!(found.house, house_id);
}

#[test]
fn find_after_insert_device_round_trip() {
    let (mut store, _house_id, room_id) = store_with_room();
    let d = store
        .insert_new_device("Lamp", "Socket", "192.168.0.1", &room_id)
        .unwrap();
    let found = store.find_device_by_id(&d.id).unwrap();
    assert_eq!(found.id, d.id);
    assert_eq!(found.name, "Lamp");
    assert_eq!(found.type_, "Socket");
    assert_eq!(found.address.as_deref(), Some("192.168.0.1"));
    assert_eq!(found.state, false);
    assert_eq!(found.variable, 0);
    assert_eq!(found.room, room_id);
}

#[test]
fn delete_then_find_house_is_gone() {
    let mut store = Store::new();
    let h = store.insert_new_house("Home").unwrap();
    let removed = store.remove_house_by_id(&h.id).unwrap().unwrap();
    assert_eq!(removed.id, h.id);
    assert!(store.find_house_by_id(&h.id).is_none());
}

#[test]
fn delete_then_find_room_is_gone() {
    let (mut store, _house_id, room_id) = store_with_room();
    let removed = store.remove_room_by_id(&room_id).unwrap().unwrap();
    assert_eq!(removed.id, room_id);
    assert!(store.find_room_by_id(&room_id).is_none());
}

#[test]
fn delete_then_find_device_is_gone() {
    let (mut store, _house_id, room_id) = store_with_room();
    let d = store
        .insert_new_device("Lamp", "Socket", "192.168.0.1", &room_id)
        .unwrap();
    let removed = store.remove_device_by_id(&d.id).unwrap().unwrap();
    assert_eq!(removed.id, d.id);
    assert!(store.find_device_by_id(&d.id).is_none());
}

#[test]
fn delete_absent_device_is_verification_error() {
    let mut store = Store::new();
    let missing = "5b2384a9-6c9d-4b3f-8a1e-2f0c6d3e4a5b".to_string();
    let r = store.remove_device_by_id(&missing);
    assert!(matches!(
        r,
        Err(StoreError::DeletionVerification(EntityKind::Device))
    ));
}

#[test]
fn delete_referenced_house_is_rejected() {
    let (mut store, house_id, _room_id) = store_with_room();
    let r = store.remove_house_by_id(&house_id);
    assert!(matches!(r, Err(StoreError::ForeignKeyViolation)));
    assert!(store.find_house_by_id(&house_id).is_some());
}

#[test]
fn toggle_flips_and_toggling_twice_restores() {
    let (mut store, _house_id, room_id) = store_with_room();
    let d = store
        .insert_new_device("Lamp", "Socket", "192.168.0.1", &room_id)
        .unwrap();
    assert_eq!(d.state, false);
    let once = store.update_state_device(&d.id).unwrap().unwrap();
    assert_eq!(once.state, true);
    let twice = store.update_state_device(&d.id).unwrap().unwrap();
    assert_eq!(twice.state, false);
    let stored = store.find_device_by_id(&d.id).unwrap();
    assert_eq!(stored.state, d.state);
}

#[test]
fn toggle_absent_device_is_not_found() {
    let mut store = Store::new();
    let missing = "5b2384a9-6c9d-4b3f-8a1e-2f0c6d3e4a5b".to_string();
    let r = store.update_state_device(&missing);
    assert!(matches!(r, Err(StoreError::NotFound)));
}

#[test]
fn insert_duplicate_id_is_rejected() {
    let mut store = Store::new();
    let h = store.insert_new_house("Home").unwrap();
    let r = store.insert_house_with_id(h.id.clone(), "Other");
    assert!(matches!(r, Err(StoreError::DuplicateId)));
}

#[test]
fn insert_duplicate_room_and_device_ids_are_rejected() {
    let (mut store, house_id, room_id) = store_with_room();
    let r = store.insert_room_with_id(room_id.clone(), "Hall", &house_id);
    assert!(matches!(r, Err(StoreError::DuplicateId)));
    let d = store
        .insert_new_device("Lamp", "Socket", "192.168.0.1", &room_id)
        .unwrap();
    let r = store.insert_device_with_id(d.id.clone(), "Heater", "Socket", "192.168.0.2", &room_id);
    assert!(matches!(r, Err(StoreError::DuplicateId)));
}

#[test]
fn generated_ids_are_hyphenated_uuids() {
    let mut store = Store::new();
    let h = store.insert_new_house("Home").unwrap();
    assert_eq!(h.id.len(), 36);
    assert_eq!(h.id.matches('-').count(), 4);
}

#[test]
fn house_report_exact_text() {
    let (mut store, house_id, room_id) = store_with_room();
    let d = store
        .insert_new_device("Lamp", "Socket", "192.168.0.1", &room_id)
        .unwrap();
    let report = store.get_house_report(&house_id).unwrap();
    let expected = format!(
        "В доме Home установлены следующие приборы: \nОтчет для устройств Device: Имя Lamp, id {}",
        d.id
    );
    assert_eq!(report, expected);
    assert!(report.contains("Home"));
    assert!(report.contains("Lamp"));
}

#[test]
fn house_report_missing_house_is_not_found() {
    let store = Store::new();
    let missing = "5b2384a9-6c9d-4b3f-8a1e-2f0c6d3e4a5b".to_string();
    let r = store.get_house_report(&missing);
    assert!(matches!(r, Err(StoreError::NotFound)));
}

#[test]
fn house_report_empty_room_is_empty_input() {
    let (store, house_id, _room_id) = store_with_room();
    let r = store.get_house_report(&house_id);
    assert!(matches!(r, Err(StoreError::EmptyInput)));
}

#[test]
fn list_by_parent_filters() {
    let (mut store, house_id, room_id) = store_with_room();
    let other_house = store.insert_new_house("Dacha").unwrap();
    let other_room = store.insert_new_room("Cellar", &other_house.id).unwrap();
    store
        .insert_new_device("Lamp", "Socket", "192.168.0.1", &room_id)
        .unwrap();
    store
        .insert_new_device("Heater", "Socket", "192.168.0.2", &other_room.id)
        .unwrap();
    let rooms = store.list_room_by_id(&house_id);
    assert_eq!(rooms.len(), 1);
    assert_eq!(rooms[0].name, "Kitchen");
    let devices = store.list_device_in_room(&other_room.id);
    assert_eq!(devices.len(), 1);
    assert_eq!(devices[0].name, "Heater");
    assert_eq!(store.list_houses().len(), 2);
    assert_eq!(store.get_rooms_list().len(), 2);
    assert_eq!(store.get_devices_list().len(), 2);
}

#[test]
fn store_error_texts() {
    assert_eq!(StoreError::NotFound.text(), "Record not found");
    assert_eq!(
        StoreError::ForeignKeyViolation.text(),
        "FOREIGN KEY constraint failed"
    );
    assert_eq!(StoreError::DuplicateId.text(), "UNIQUE constraint failed");
    assert_eq!(
        StoreError::DeletionVerification(EntityKind::House).text(),
        "Error finding house for remove"
    );
    assert_eq!(StoreError::StateChangeVerification.text(), "Error");
    assert_eq!(StoreError::EmptyInput.text(), "Error EmptyValue");
}
