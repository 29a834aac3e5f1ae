//! The laws the store obeys, stated over its mathematical value: insert
//! followed by find returns the inserted row, delete followed by find
//! returns nothing, and the device state toggle is a strict involution.

use vstd::prelude::*;

use crate::models::{DeviceView, HouseView, RoomView};
use crate::store::{
    lemma_unique_device_ids, lemma_unique_house_ids, lemma_unique_room_ids, toggled, StoreView,
};

verus! {

/// Law: after inserting a house under a fresh id, finding that id returns
/// exactly the inserted value.
pub proof fn lemma_find_after_insert_house(s: StoreView, h: HouseView)
    requires
        !s.has_house(h.id),
    ensures
        s.with_house(h).find_house(h.id) == Some(h),
{
    let t = s.with_house(h);
    let n = s.houses.len() as int;
    assert(t.houses[n] == h);
    assert(t.has_house(h.id));
    let k = t.house_at(h.id);
    assert(0 <= k < t.houses.len() && t.houses[k].id == h.id);
    if k != n {
        assert(t.houses[k] == s.houses[k]);
        assert(s.has_house(h.id));
        assert(false);
    }
}

/// Law: after inserting a room under a fresh id, finding that id returns
/// exactly the inserted value.
pub proof fn lemma_find_after_insert_room(s: StoreView, r: RoomView)
    requires
        !s.has_room(r.id),
    ensures
        s.with_room(r).find_room(r.id) == Some(r),
{
    let t = s.with_room(r);
    let n = s.rooms.len() as int;
    assert(t.rooms[n] == r);
    assert(t.has_room(r.id));
    let k = t.room_at(r.id);
    assert(0 <= k < t.rooms.len() && t.rooms[k].id == r.id);
    if k != n {
        assert(t.rooms[k] == s.rooms[k]);
        assert(s.has_room(r.id));
        assert(false);
    }
}

/// Law: after inserting a device under a fresh id, finding that id
/// returns exactly the inserted value.
pub proof fn lemma_find_after_insert_device(s: StoreView, d: DeviceView)
    requires
        !s.has_device(d.id),
    ensures
        s.with_device(d).find_device(d.id) == Some(d),
{
    let t = s.with_device(d);
    let n = s.devices.len() as int;
    assert(t.devices[n] == d);
    assert(t.has_device(d.id));
    let k = t.device_at(d.id);
    assert(0 <= k < t.devices.len() && t.devices[k].id == d.id);
    if k != n {
        assert(t.devices[k] == s.devices[k]);
        assert(s.has_device(d.id));
        assert(false);
    }
}

/// Law: after deleting the house at `idx`, finding its id returns
/// nothing.
pub proof fn lemma_find_after_remove_house(s: StoreView, idx: int)
    requires
        s.wf(),
        0 <= idx < s.houses.len(),
    ensures
        s.without_house(idx).find_house(s.houses[idx].id) == None::<HouseView>,
{
    let t = s.without_house(idx);
    let id = s.houses[idx].id;
    if t.has_house(id) {
        let k = t.house_at(id);
        assert(0 <= k < t.houses.len() && t.houses[k].id == id);
        let k0 = if k < idx {
            k
        } else {
            k + 1
        };
        assert(t.houses[k] == s.houses[k0]);
        lemma_unique_house_ids(s, k0, idx);
        assert(false);
    }
}

/// Law: after deleting the room at `idx`, finding its id returns nothing.
pub proof fn lemma_find_after_remove_room(s: StoreView, idx: int)
    requires
        s.wf(),
        0 <= idx < s.rooms.len(),
    ensures
        s.without_room(idx).find_room(s.rooms[idx].id) == None::<RoomView>,
{
    let t = s.without_room(idx);
    let id = s.rooms[idx].id;
    if t.has_room(id) {
        let k = t.room_at(id);
        assert(0 <= k < t.rooms.len() && t.rooms[k].id == id);
        let k0 = if k < idx {
            k
        } else {
            k + 1
        };
        assert(t.rooms[k] == s.rooms[k0]);
        lemma_unique_room_ids(s, k0, idx);
        assert(false);
    }
}

/// Law: after deleting the device at `idx`, finding its id returns
/// nothing.
pub proof fn lemma_find_after_remove_device(s: StoreView, idx: int)
    requires
        s.wf(),
        0 <= idx < s.devices.len(),
    ensures
        s.without_device(idx).find_device(s.devices[idx].id) == None::<DeviceView>,
{
    let t = s.without_device(idx);
    let id = s.devices[idx].id;
    if t.has_device(id) {
        let k = t.device_at(id);
        assert(0 <= k < t.devices.len() && t.devices[k].id == id);
        let k0 = if k < idx {
            k
        } else {
            k + 1
        };
        assert(t.devices[k] == s.devices[k0]);
        lemma_unique_device_ids(s, k0, idx);
        assert(false);
    }
}

/// Law: a single toggle strictly flips the stored state of the device and
/// touches nothing else of it.
pub proof fn lemma_toggle_flips(s: StoreView, idx: int)
    requires
        0 <= idx < s.devices.len(),
    ensures
        s.with_device_toggled(idx).devices[idx].state == !s.devices[idx].state,
        s.with_device_toggled(idx).devices[idx].id == s.devices[idx].id,
{
}

/// Law: toggling the same device twice returns the store to its original
/// value.
pub proof fn lemma_toggle_twice(s: StoreView, idx: int)
    requires
        0 <= idx < s.devices.len(),
    ensures
        s.with_device_toggled(idx).with_device_toggled(idx) == s,
{
    let t = s.with_device_toggled(idx);
    let u = t.with_device_toggled(idx);
    assert(t.devices[idx] == toggled(s.devices[idx]));
    assert(toggled(toggled(s.devices[idx])) =~= s.devices[idx]);
    assert(u.devices =~= s.devices);
    assert(u =~= s);
}

} // verus!
