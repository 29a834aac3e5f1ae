//! The request/response rules of the HTTP surface: each handler takes the
//! store and the raw path or body parameters, and returns the status code
//! and body that the original endpoints answer with. Path ids are parsed
//! as UUIDs first; a malformed id answers 404 with a parsing-failure text.

use vstd::prelude::*;

use crate::ids::{parse_uuid, uuid_parse, uuid_parse_err_text};
use crate::models::{Device, House, Item, NewDevice, NewHouse, NewRoom, Room};
use crate::report_generator::{
    generate_list_id, generate_name_id, generate_report_id, id_report_spec, ids_of, name_id_map,
    name_id_of, pairs_match,
};
use crate::store::{
    device_views, group_store_views, house_report_spec, house_views, room_views, some_room_empty,
    toggled, Store,
};

verus! {

/// The body of an HTTP answer, before serialization.
pub enum ReplyBody {
    /// 200/201 with a JSON-encoded device.
    DeviceJson(Device),
    /// 200/201 with a JSON-encoded room.
    RoomJson(Room),
    /// 200/201 with a JSON-encoded house.
    HouseJson(House),
    /// 200 with a JSON-encoded integer.
    VarJson(i32),
    /// An error answered as plain text.
    TextBody(String),
    /// 200/400 with a JSON-encoded string.
    StringJson(String),
    /// 200 with a JSON-encoded list of id strings.
    IdListJson(Vec<String>),
    /// 200 with a JSON-encoded name-to-id mapping.
    NameIdJson(Vec<(String, String)>),
}

/// Status code and body of an HTTP answer.
pub struct HttpReply {
    pub status: u16,
    pub body: ReplyBody,
}

/// The text answered when a path id is not a UUID.
pub open spec fn parse_fail_body(s: Seq<char>) -> Seq<char> {
    "UUID parsing failed: "@ + uuid_parse_err_text(s)
}

/// The text answered when no row carries the requested id.
pub open spec fn not_found_body(u: Seq<char>) -> Seq<char> {
    "No device found with UID: "@ + u
}

/// The name and id of each room, in order.
pub open spec fn room_pairs(rs: Seq<crate::models::RoomView>) -> Seq<(Seq<char>, Seq<char>)> {
    rs.map_values(|r: crate::models::RoomView| (r.name, r.id))
}

/// The id of each room, in order.
pub open spec fn room_ids(rs: Seq<crate::models::RoomView>) -> Seq<Seq<char>> {
    rs.map_values(|r: crate::models::RoomView| r.id)
}

fn parse_fail_reply(e: String) -> (r: HttpReply)
    ensures
        r.status == 404,
        (r.body matches ReplyBody::TextBody(t) && t@ == "UUID parsing failed: "@ + e@),
{
    let mut t = String::from_str("UUID parsing failed: ");
    t.append(e.as_str());
    HttpReply { status: 404, body: ReplyBody::TextBody(t) }
}

fn not_found_reply(uid: &String) -> (r: HttpReply)
    ensures
        r.status == 404,
        (r.body matches ReplyBody::TextBody(t) && t@ == not_found_body(uid@)),
{
    let mut t = String::from_str("No device found with UID: ");
    t.append(uid.as_str());
    HttpReply { status: 404, body: ReplyBody::TextBody(t) }
}

/// GET `/device/{id}`: the device itself, or 404.
pub fn get_device(store: &Store, raw_uid: &str) -> (r: HttpReply)
    requires
        store@.wf(),
    ensures
        match uuid_parse(raw_uid@) {
            Option::None => r.status == 404 && (r.body matches ReplyBody::TextBody(t) && t@
                == parse_fail_body(raw_uid@)),
            Option::Some(u) => match store@.find_device(u) {
                Option::Some(dv) => r.status == 200 && (r.body matches ReplyBody::DeviceJson(d)
                    && d@ == dv),
                Option::None => r.status == 404 && (r.body matches ReplyBody::TextBody(t) && t@
                    == not_found_body(u)),
            },
        },
{
    let uid = match parse_uuid(raw_uid) {
        Ok(u) => u,
        Err(e) => {
            return parse_fail_reply(e);
        },
    };
    match store.find_device_by_id(&uid) {
        Some(d) => HttpReply { status: 200, body: ReplyBody::DeviceJson(d) },
        None => not_found_reply(&uid),
    }
}

/// POST `/device/{id}`: answers exactly as a fetch of the device.
pub fn post_device(store: &Store, raw_uid: &str) -> (r: HttpReply)
    requires
        store@.wf(),
    ensures
        match uuid_parse(raw_uid@) {
            Option::None => r.status == 404 && (r.body matches ReplyBody::TextBody(t) && t@
                == parse_fail_body(raw_uid@)),
            Option::Some(u) => match store@.find_device(u) {
                Option::Some(dv) => r.status == 200 && (r.body matches ReplyBody::DeviceJson(d)
                    && d@ == dv),
                Option::None => r.status == 404 && (r.body matches ReplyBody::TextBody(t) && t@
                    == not_found_body(u)),
            },
        },
{
    get_device(store, raw_uid)
}

/// GET `/device/{id}/var`: the device's integer variable, or 404.
pub fn get_device_var(store: &Store, raw_uid: &str) -> (r: HttpReply)
    requires
        store@.wf(),
    ensures
        match uuid_parse(raw_uid@) {
            Option::None => r.status == 404 && (r.body matches ReplyBody::TextBody(t) && t@
                == parse_fail_body(raw_uid@)),
            Option::Some(u) => match store@.find_device(u) {
                Option::Some(dv) => r.status == 200 && (r.body matches ReplyBody::VarJson(v) && v
                    == dv.variable),
                Option::None => r.status == 404 && (r.body matches ReplyBody::TextBody(t) && t@
                    == not_found_body(u)),
            },
        },
{
    let uid = match parse_uuid(raw_uid) {
        Ok(u) => u,
        Err(e) => {
            return parse_fail_reply(e);
        },
    };
    match store.find_device_by_id(&uid) {
        Some(d) => HttpReply { status: 200, body: ReplyBody::VarJson(d.variable) },
        None => not_found_reply(&uid),
    }
}

/// GET `/room/{id}`: the room itself, or 404.
pub fn get_room(store: &Store, raw_uid: &str) -> (r: HttpReply)
    requires
        store@.wf(),
    ensures
        match uuid_parse(raw_uid@) {
            Option::None => r.status == 404 && (r.body matches ReplyBody::TextBody(t) && t@
                == parse_fail_body(raw_uid@)),
            Option::Some(u) => match store@.find_room(u) {
                Option::Some(rv) => r.status == 200 && (r.body matches ReplyBody::RoomJson(rm)
                    && rm@ == rv),
                Option::None => r.status == 404 && (r.body matches ReplyBody::TextBody(t) && t@
                    == not_found_body(u)),
            },
        },
{
    let uid = match parse_uuid(raw_uid) {
        Ok(u) => u,
        Err(e) => {
            return parse_fail_reply(e);
        },
    };
    match store.find_room_by_id(&uid) {
        Some(rm) => HttpReply { status: 200, body: ReplyBody::RoomJson(rm) },
        None => not_found_reply(&uid),
    }
}

/// GET `/house/{id}`: the house itself, or 404.
pub fn get_house(store: &Store, raw_uid: &str) -> (r: HttpReply)
    requires
        store@.wf(),
    ensures
        match uuid_parse(raw_uid@) {
            Option::None => r.status == 404 && (r.body matches ReplyBody::TextBody(t) && t@
                == parse_fail_body(raw_uid@)),
            Option::Some(u) => match store@.find_house(u) {
                Option::Some(hv) => r.status == 200 && (r.body matches ReplyBody::HouseJson(h)
                    && h@ == hv),
                Option::None => r.status == 404 && (r.body matches ReplyBody::TextBody(t) && t@
                    == not_found_body(u)),
            },
        },
{
    let uid = match parse_uuid(raw_uid) {
        Ok(u) => u,
        Err(e) => {
            return parse_fail_reply(e);
        },
    };
    match store.find_house_by_id(&uid) {
        Some(h) => HttpReply { status: 200, body: ReplyBody::HouseJson(h) },
        None => not_found_reply(&uid),
    }
}

/// GET `/device/{id}/state`: flip the device's state and answer with the
/// updated device; an absent device surfaces as an internal error.
pub fn change_state_device(store: &mut Store, raw_uid: &str) -> (r: HttpReply)
    requires
        old(store)@.wf(),
    ensures
        final(store)@.wf(),
        match uuid_parse(raw_uid@) {
            Option::None => *final(store) == *old(store) && r.status == 404 && (
            r.body matches ReplyBody::TextBody(t) && t@ == parse_fail_body(raw_uid@)),
            Option::Some(u) => {
                if old(store)@.has_device(u) {
                    let ix = old(store)@.device_at(u);
                    &&& r.status == 200
                    &&& (r.body matches ReplyBody::DeviceJson(d) && d@ == toggled(
                        old(store)@.devices[ix],
                    ))
                    &&& final(store)@ == old(store)@.with_device_toggled(ix)
                } else {
                    &&& r.status == 500
                    &&& (r.body matches ReplyBody::TextBody(t) && t@ == "Record not found"@)
                    &&& *final(store) == *old(store)
                }
            },
        },
{
    let uid = match parse_uuid(raw_uid) {
        Ok(u) => u,
        Err(e) => {
            return parse_fail_reply(e);
        },
    };
    match store.update_state_device(&uid) {
        Ok(Some(d)) => HttpReply { status: 200, body: ReplyBody::DeviceJson(d) },
        Ok(None) => not_found_reply(&uid),
        Err(e) => HttpReply { status: 500, body: ReplyBody::TextBody(e.text()) },
    }
}

/// GET `/device/{id}/remove`: delete the device and answer with its prior
/// value; an absent device surfaces as an internal error.
pub fn rem_device(store: &mut Store, raw_uid: &str) -> (r: HttpReply)
    requires
        old(store)@.wf(),
    ensures
        final(store)@.wf(),
        match uuid_parse(raw_uid@) {
            Option::None => *final(store) == *old(store) && r.status == 404 && (
            r.body matches ReplyBody::TextBody(t) && t@ == parse_fail_body(raw_uid@)),
            Option::Some(u) => {
                if old(store)@.has_device(u) {
                    &&& r.status == 200
                    &&& (r.body matches ReplyBody::DeviceJson(d) && old(store)@.find_device(u)
                        == Some(d@))
                    &&& final(store)@ == old(store)@.without_device(old(store)@.device_at(u))
                } else {
                    &&& r.status == 500
                    &&& (r.body matches ReplyBody::TextBody(t) && t@
                        == "Error finding device for remove"@)
                    &&& *final(store) == *old(store)
                }
            },
        },
{
    let uid = match parse_uuid(raw_uid) {
        Ok(u) => u,
        Err(e) => {
            return parse_fail_reply(e);
        },
    };
    match store.remove_device_by_id(&uid) {
        Ok(Some(d)) => HttpReply { status: 200, body: ReplyBody::DeviceJson(d) },
        Ok(None) => not_found_reply(&uid),
        Err(e) => HttpReply { status: 500, body: ReplyBody::TextBody(e.text()) },
    }
}

/// GET `/room/{id}/remove`: delete the room and answer with its prior
/// value; an absent or still-occupied room surfaces as an internal error.
pub fn rem_room(store: &mut Store, raw_uid: &str) -> (r: HttpReply)
    requires
        old(store)@.wf(),
    ensures
        final(store)@.wf(),
        match uuid_parse(raw_uid@) {
            Option::None => *final(store) == *old(store) && r.status == 404 && (
            r.body matches ReplyBody::TextBody(t) && t@ == parse_fail_body(raw_uid@)),
            Option::Some(u) => {
                if old(store)@.has_room(u) && !old(store)@.room_referenced(u) {
                    &&& r.status == 200
                    &&& (r.body matches ReplyBody::RoomJson(rm) && old(store)@.find_room(u)
                        == Some(rm@))
                    &&& final(store)@ == old(store)@.without_room(old(store)@.room_at(u))
                } else {
                    &&& r.status == 500
                    &&& (r.body matches ReplyBody::TextBody(t) && (if old(store)@.has_room(u) {
                        t@ == "FOREIGN KEY constraint failed"@
                    } else {
                        t@ == "Error finding room for remove"@
                    }))
                    &&& *final(store) == *old(store)
                }
            },
        },
{
    let uid = match parse_uuid(raw_uid) {
        Ok(u) => u,
        Err(e) => {
            return parse_fail_reply(e);
        },
    };
    match store.remove_room_by_id(&uid) {
        Ok(Some(rm)) => HttpReply { status: 200, body: ReplyBody::RoomJson(rm) },
        Ok(None) => not_found_reply(&uid),
        Err(e) => HttpReply { status: 500, body: ReplyBody::TextBody(e.text()) },
    }
}

/// GET `/house/{id}/remove`: delete the house and answer with its prior
/// value; an absent or still-occupied house surfaces as an internal error.
pub fn rem_house(store: &mut Store, raw_uid: &str) -> (r: HttpReply)
    requires
        old(store)@.wf(),
    ensures
        final(store)@.wf(),
        match uuid_parse(raw_uid@) {
            Option::None => *final(store) == *old(store) && r.status == 404 && (
            r.body matches ReplyBody::TextBody(t) && t@ == parse_fail_body(raw_uid@)),
            Option::Some(u) => {
                if old(store)@.has_house(u) && !old(store)@.house_referenced(u) {
                    &&& r.status == 200
                    &&& (r.body matches ReplyBody::HouseJson(h) && old(store)@.find_house(u)
                        == Some(h@))
                    &&& final(store)@ == old(store)@.without_house(old(store)@.house_at(u))
                } else {
                    &&& r.status == 500
                    &&& (r.body matches ReplyBody::TextBody(t) && (if old(store)@.has_house(u) {
                        t@ == "FOREIGN KEY constraint failed"@
                    } else {
                        t@ == "Error finding house for remove"@
                    }))
                    &&& *final(store) == *old(store)
                }
            },
        },
{
    let uid = match parse_uuid(raw_uid) {
        Ok(u) => u,
        Err(e) => {
            return parse_fail_reply(e);
        },
    };
    match store.remove_house_by_id(&uid) {
        Ok(Some(h)) => HttpReply { status: 200, body: ReplyBody::HouseJson(h) },
        Ok(None) => not_found_reply(&uid),
        Err(e) => HttpReply { status: 500, body: ReplyBody::TextBody(e.text()) },
    }
}

/// POST `/device`: create a device from the form and answer 201 with it;
/// a missing parent room surfaces as an internal error. Only a collision
/// of the drawn id can otherwise fail, so on an empty table success is
/// certain.
pub fn add_device(store: &mut Store, form: &NewDevice) -> (r: HttpReply)
    requires
        old(store)@.wf(),
    ensures
        final(store)@.wf(),
        !old(store)@.has_room(form.room@) ==> r.status == 500,
        old(store)@.has_room(form.room@) && old(store)@.devices.len() == 0 ==> r.status == 201,
        r.status == 201 || r.status == 500,
        r.status == 201 ==> (r.body matches ReplyBody::DeviceJson(d) && old(store)@.has_room(
            form.room@,
        ) && d@.name == form.name@ && d@.type_ == form.typ@ && d@.address == Some(form.address@)
            && d@.state == false && d@.variable == 0 && d@.room == form.room@ && d@.id.len() == 36
            && uuid_parse(d@.id) == Some(d@.id) && !old(store)@.has_device(d@.id)
            && final(store)@ == old(store)@.with_device(d@)),
        r.status == 500 ==> *final(store) == *old(store) && (r.body matches ReplyBody::TextBody(t)
            && ((t@ == "FOREIGN KEY constraint failed"@ && !old(store)@.has_room(form.room@)) || (
        t@ == "UNIQUE constraint failed"@ && old(store)@.has_room(form.room@)))),
{
    match store.insert_new_device(
        form.name.as_str(),
        form.typ.as_str(),
        form.address.as_str(),
        &form.room,
    ) {
        Ok(d) => HttpReply { status: 201, body: ReplyBody::DeviceJson(d) },
        Err(e) => HttpReply { status: 500, body: ReplyBody::TextBody(e.text()) },
    }
}

/// POST `/room`: create a room from the form and answer 201 with it; a
/// missing parent house surfaces as an internal error. Only a collision
/// of the drawn id can otherwise fail, so on an empty table success is
/// certain.
pub fn add_room(store: &mut Store, form: &NewRoom) -> (r: HttpReply)
    requires
        old(store)@.wf(),
    ensures
        final(store)@.wf(),
        !old(store)@.has_house(form.house@) ==> r.status == 500,
        old(store)@.has_house(form.house@) && old(store)@.rooms.len() == 0 ==> r.status == 201,
        r.status == 201 || r.status == 500,
        r.status == 201 ==> (r.body matches ReplyBody::RoomJson(rm) && old(store)@.has_house(
            form.house@,
        ) && rm@.name == form.name@ && rm@.house == form.house@ && rm@.id.len() == 36
            && uuid_parse(rm@.id) == Some(rm@.id) && !old(store)@.has_room(rm@.id)
            && final(store)@ == old(store)@.with_room(rm@)),
        r.status == 500 ==> *final(store) == *old(store) && (r.body matches ReplyBody::TextBody(t)
            && ((t@ == "FOREIGN KEY constraint failed"@ && !old(store)@.has_house(form.house@))
            || (t@ == "UNIQUE constraint failed"@ && old(store)@.has_house(form.house@)))),
{
    match store.insert_new_room(form.name.as_str(), &form.house) {
        Ok(rm) => HttpReply { status: 201, body: ReplyBody::RoomJson(rm) },
        Err(e) => HttpReply { status: 500, body: ReplyBody::TextBody(e.text()) },
    }
}

/// POST `/house`: create a house from the form and answer 201 with it.
/// Only a collision of the drawn id can fail, so on an empty table
/// success is certain.
pub fn add_house(store: &mut Store, form: &NewHouse) -> (r: HttpReply)
    requires
        old(store)@.wf(),
    ensures
        final(store)@.wf(),
        old(store)@.houses.len() == 0 ==> r.status == 201,
        r.status == 201 || r.status == 500,
        r.status == 201 ==> (r.body matches ReplyBody::HouseJson(h) && h@.name == form.name@
            && h@.id.len() == 36 && uuid_parse(h@.id) == Some(h@.id) && !old(store)@.has_house(
            h@.id,
        ) && final(store)@ == old(store)@.with_house(h@)),
        r.status == 500 ==> *final(store) == *old(store) && (r.body matches ReplyBody::TextBody(t)
            && t@ == "UNIQUE constraint failed"@),
{
    match store.insert_new_house(form.name.as_str()) {
        Ok(h) => HttpReply { status: 201, body: ReplyBody::HouseJson(h) },
        Err(e) => HttpReply { status: 500, body: ReplyBody::TextBody(e.text()) },
    }
}

/// GET `/report/{id}`: the full text report of a house's devices grouped
/// by room, or 404 naming the house and the failure.
pub fn get_devices_report(store: &Store, raw_uid: &str) -> (r: HttpReply)
    requires
        store@.wf(),
    ensures
        match uuid_parse(raw_uid@) {
            Option::None => r.status == 404 && (r.body matches ReplyBody::TextBody(t) && t@
                == parse_fail_body(raw_uid@)),
            Option::Some(u) => {
                if store@.has_house(u) && !some_room_empty(store@, u) {
                    r.status == 200 && (r.body matches ReplyBody::StringJson(rep) && rep@
                        == house_report_spec(store@, store@.houses[store@.house_at(u)]))
                } else {
                    r.status == 404 && (r.body matches ReplyBody::TextBody(t) && t@
                        == "No report found for house with UID: "@ + u + " and error "@ + (
                    if store@.has_house(u) {
                        "Error EmptyValue"@
                    } else {
                        "Record not found"@
                    }))
                }
            },
        },
{
    let uid = match parse_uuid(raw_uid) {
        Ok(u) => u,
        Err(e) => {
            return parse_fail_reply(e);
        },
    };
    match store.get_house_report(&uid) {
        Ok(rep) => HttpReply { status: 200, body: ReplyBody::StringJson(rep) },
        Err(e) => {
            let mut t = String::from_str("No report found for house with UID: ");
            t.append(uid.as_str());
            t.append(" and error ");
            let et = e.text();
            t.append(et.as_str());
            HttpReply { status: 404, body: ReplyBody::TextBody(t) }
        },
    }
}

/// GET `/room/{id}/list`: the ids of the devices in the room, each with a
/// trailing space; an empty room answers 400.
pub fn get_list_devices(store: &Store, raw_uid: &str) -> (r: HttpReply)
    requires
        store@.wf(),
    ensures
        match uuid_parse(raw_uid@) {
            Option::None => r.status == 404 && (r.body matches ReplyBody::TextBody(t) && t@
                == parse_fail_body(raw_uid@)),
            Option::Some(u) => {
                let ds = store@.devices_in(u);
                if ds.len() == 0 {
                    r.status == 400 && (r.body matches ReplyBody::StringJson(t) && t@
                        == "Error EmptyValue"@)
                } else {
                    r.status == 200 && (r.body matches ReplyBody::IdListJson(ids) && ids@.len()
                        == ds.len() && (forall|k: int|
                        0 <= k < ds.len() ==> (#[trigger] ids@[k])@ == ds[k].id + " "@))
                }
            },
        },
{
    broadcast use group_store_views;

    let uid = match parse_uuid(raw_uid) {
        Ok(u) => u,
        Err(e) => {
            return parse_fail_reply(e);
        },
    };
    let devices = store.list_device_in_room(&uid);
    let ghost ds = store@.devices_in(uid@);
    proof {
        assert forall|k: int| 0 <= k < devices@.len() implies devices@[k].id_spec()
            == ds[k].id by {
            assert(device_views(devices@)[k] == devices@[k]@);
        }
    }
    match generate_list_id(devices) {
        Ok(ids) => HttpReply { status: 200, body: ReplyBody::IdListJson(ids) },
        Err(e) => HttpReply { status: 400, body: ReplyBody::StringJson(e.text()) },
    }
}

/// GET `/house/{id}/list`: the name-to-id mapping of the rooms of the
/// house; a house without rooms answers 400.
pub fn get_list_rooms(store: &Store, raw_uid: &str) -> (r: HttpReply)
    requires
        store@.wf(),
    ensures
        match uuid_parse(raw_uid@) {
            Option::None => r.status == 404 && (r.body matches ReplyBody::TextBody(t) && t@
                == parse_fail_body(raw_uid@)),
            Option::Some(u) => {
                let rs = store@.rooms_of(u);
                if rs.len() == 0 {
                    r.status == 400 && (r.body matches ReplyBody::StringJson(t) && t@
                        == "Error EmptyValue"@)
                } else {
                    r.status == 200 && (r.body matches ReplyBody::NameIdJson(pairs)
                        && pairs_match(pairs@, name_id_map(room_pairs(rs))))
                }
            },
        },
{
    broadcast use group_store_views;

    let uid = match parse_uuid(raw_uid) {
        Ok(u) => u,
        Err(e) => {
            return parse_fail_reply(e);
        },
    };
    let rooms = store.list_room_by_id(&uid);
    let ghost rs = store@.rooms_of(uid@);
    proof {
        assert(name_id_of(rooms@).len() == rooms@.len());
        assert forall|k: int| 0 <= k < rooms@.len() implies name_id_of(rooms@)[k] == room_pairs(
            rs,
        )[k] by {
            assert(name_id_of(rooms@)[k] == (rooms@[k].name_spec(), rooms@[k].id_spec()));
            assert(room_views(rooms@)[k] == rooms@[k]@);
            assert(room_pairs(rs)[k] == (rs[k].name, rs[k].id));
        }
        assert(room_pairs(rs).len() == rs.len());
        assert(name_id_of(rooms@) =~= room_pairs(rs));
    }
    match generate_name_id(rooms) {
        Ok(pairs) => HttpReply { status: 200, body: ReplyBody::NameIdJson(pairs) },
        Err(e) => HttpReply { status: 400, body: ReplyBody::StringJson(e.text()) },
    }
}

/// GET `/house-list`: the ids of every house, each with a trailing space;
/// an empty table answers 400.
pub fn get_list_houses(store: &Store) -> (r: HttpReply)
    requires
        store@.wf(),
    ensures
        ({
            let hs = store@.houses;
            if hs.len() == 0 {
                r.status == 400 && (r.body matches ReplyBody::StringJson(t) && t@
                    == "Error EmptyValue"@)
            } else {
                r.status == 200 && (r.body matches ReplyBody::IdListJson(ids) && ids@.len()
                    == hs.len() && (forall|k: int|
                    0 <= k < hs.len() ==> (#[trigger] ids@[k])@ == hs[k].id + " "@))
            }
        }),
{
    broadcast use group_store_views;

    let houses = store.list_houses();
    proof {
        assert forall|k: int| 0 <= k < houses@.len() implies houses@[k].id_spec()
            == store@.houses[k].id by {
            assert(house_views(houses@)[k] == houses@[k]@);
        }
    }
    match generate_list_id(houses) {
        Ok(ids) => HttpReply { status: 200, body: ReplyBody::IdListJson(ids) },
        Err(e) => HttpReply { status: 400, body: ReplyBody::StringJson(e.text()) },
    }
}

/// GET `/devices-list`: the ids of every device, each with a trailing
/// space; an empty table answers 400.
pub fn get_devices_list(store: &Store) -> (r: HttpReply)
    requires
        store@.wf(),
    ensures
        ({
            let ds = store@.devices;
            if ds.len() == 0 {
                r.status == 400 && (r.body matches ReplyBody::StringJson(t) && t@
                    == "Error EmptyValue"@)
            } else {
                r.status == 200 && (r.body matches ReplyBody::IdListJson(ids) && ids@.len()
                    == ds.len() && (forall|k: int|
                    0 <= k < ds.len() ==> (#[trigger] ids@[k])@ == ds[k].id + " "@))
            }
        }),
{
    broadcast use group_store_views;

    let devices = store.get_devices_list();
    proof {
        assert forall|k: int| 0 <= k < devices@.len() implies devices@[k].id_spec()
            == store@.devices[k].id by {
            assert(device_views(devices@)[k] == devices@[k]@);
        }
    }
    match generate_list_id(devices) {
        Ok(ids) => HttpReply { status: 200, body: ReplyBody::IdListJson(ids) },
        Err(e) => HttpReply { status: 400, body: ReplyBody::StringJson(e.text()) },
    }
}

/// GET `/rooms-list`: the id-only text report over every room; an empty
/// table answers 400.
pub fn get_rooms_list(store: &Store) -> (r: HttpReply)
    requires
        store@.wf(),
    ensures
        ({
            let rs = store@.rooms;
            if rs.len() == 0 {
                r.status == 400 && (r.body matches ReplyBody::StringJson(t) && t@
                    == "Error EmptyValue"@)
            } else {
                r.status == 200 && (r.body matches ReplyBody::StringJson(rep) && rep@
                    == id_report_spec(<Room as crate::models::Item>::label_spec(), room_ids(rs)))
            }
        }),
{
    broadcast use group_store_views;

    let rooms = store.get_rooms_list();
    proof {
        assert(ids_of(rooms@).len() == rooms@.len());
        assert forall|k: int| 0 <= k < rooms@.len() implies ids_of(rooms@)[k] == store@.rooms[
            k
        ].id by {
            assert(ids_of(rooms@)[k] == rooms@[k].id_spec());
            assert(room_views(rooms@)[k] == rooms@[k]@);
        }
        assert(room_ids(store@.rooms).len() == store@.rooms.len());
        assert forall|k: int| 0 <= k < store@.rooms.len() implies room_ids(store@.rooms)[k]
            == store@.rooms[k].id by {}
        assert(ids_of(rooms@) =~= room_ids(store@.rooms));
    }
    match generate_report_id(rooms) {
        Ok(rep) => HttpReply { status: 200, body: ReplyBody::StringJson(rep) },
        Err(e) => HttpReply { status: 400, body: ReplyBody::StringJson(e.text()) },
    }
}

} // verus!
