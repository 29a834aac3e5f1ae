//! The relational store of houses, rooms and devices, with foreign-key
//! integrity: every room belongs to an existing house and every device to
//! an existing room. Deletes of referenced parents are rejected, deletes
//! of absent rows surface as a verification error rather than a silent
//! no-op, and the device state toggle is checked to have actually changed
//! the stored value.

use vstd::prelude::*;

use crate::ids::{new_uuid, uuid_parse};
use crate::models::{Device, DeviceView, House, HouseView, Item, Room, RoomView};
use crate::report_generator::{full_report_spec, generate_report, name_id_of};

verus! {

/// Which of the three entity tables an error speaks of.
#[derive(Debug, Clone, Copy, PartialEq, Eq, Structural)]
pub enum EntityKind {
    House,
    Room,
    Device,
}

/// Failure of a store operation.
#[derive(Debug, Clone, Copy, PartialEq, Eq, Structural)]
pub enum StoreError {
    /// A lookup that the operation needed found no row.
    NotFound,
    /// The referenced parent row does not exist, or the row is still
    /// referenced by children.
    ForeignKeyViolation,
    /// The id to insert is already present in its table.
    DuplicateId,
    /// The delete did not shrink the table by exactly one row.
    DeletionVerification(EntityKind),
    /// The toggle did not change the stored state.
    StateChangeVerification,
    /// Report generation ran over an empty batch.
    EmptyInput,
}

impl StoreError {
    /// The text shown for this error.
    pub fn text(&self) -> (r: String)
        ensures
            *self == StoreError::NotFound ==> r@ == "Record not found"@,
            *self == StoreError::ForeignKeyViolation ==> r@ == "FOREIGN KEY constraint failed"@,
            *self == StoreError::DuplicateId ==> r@ == "UNIQUE constraint failed"@,
            *self == StoreError::DeletionVerification(EntityKind::House) ==> r@
                == "Error finding house for remove"@,
            *self == StoreError::DeletionVerification(EntityKind::Room) ==> r@
                == "Error finding room for remove"@,
            *self == StoreError::DeletionVerification(EntityKind::Device) ==> r@
                == "Error finding device for remove"@,
            *self == StoreError::StateChangeVerification ==> r@ == "Error"@,
            *self == StoreError::EmptyInput ==> r@ == "Error EmptyValue"@,
    {
        match self {
            StoreError::NotFound => String::from_str("Record not found"),
            StoreError::ForeignKeyViolation => String::from_str("FOREIGN KEY constraint failed"),
            StoreError::DuplicateId => String::from_str("UNIQUE constraint failed"),
            StoreError::DeletionVerification(EntityKind::House) => String::from_str(
                "Error finding house for remove",
            ),
            StoreError::DeletionVerification(EntityKind::Room) => String::from_str(
                "Error finding room for remove",
            ),
            StoreError::DeletionVerification(EntityKind::Device) => String::from_str(
                "Error finding device for remove",
            ),
            StoreError::StateChangeVerification => String::from_str("Error"),
            StoreError::EmptyInput => String::from_str("Error EmptyValue"),
        }
    }
}

/// The mathematical values of a table of houses.
pub open spec fn house_views(v: Seq<House>) -> Seq<HouseView> {
    v.map_values(|h: House| h@)
}

/// The mathematical values of a table of rooms.
pub open spec fn room_views(v: Seq<Room>) -> Seq<RoomView> {
    v.map_values(|r: Room| r@)
}

/// The mathematical values of a table of devices.
pub open spec fn device_views(v: Seq<Device>) -> Seq<DeviceView> {
    v.map_values(|d: Device| d@)
}

pub broadcast group group_store_views {
    house_views_len,
    house_views_index,
    room_views_len,
    room_views_index,
    device_views_len,
    device_views_index,
}

pub broadcast proof fn house_views_len(v: Seq<House>)
    ensures
        #[trigger] house_views(v).len() == v.len(),
{
}

pub broadcast proof fn house_views_index(v: Seq<House>, j: int)
    requires
        0 <= j < v.len(),
    ensures
        #[trigger] house_views(v)[j] == v[j]@,
{
}

pub broadcast proof fn room_views_len(v: Seq<Room>)
    ensures
        #[trigger] room_views(v).len() == v.len(),
{
}

pub broadcast proof fn room_views_index(v: Seq<Room>, j: int)
    requires
        0 <= j < v.len(),
    ensures
        #[trigger] room_views(v)[j] == v[j]@,
{
}

pub broadcast proof fn device_views_len(v: Seq<Device>)
    ensures
        #[trigger] device_views(v).len() == v.len(),
{
}

pub broadcast proof fn device_views_index(v: Seq<Device>, j: int)
    requires
        0 <= j < v.len(),
    ensures
        #[trigger] device_views(v)[j] == v[j]@,
{
}

pub proof fn lemma_unique_house_ids(s: StoreView, a: int, b: int)
    requires
        s.wf(),
        0 <= a < s.houses.len(),
        0 <= b < s.houses.len(),
        a != b,
    ensures
        s.houses[a].id != s.houses[b].id,
{
}

pub proof fn lemma_unique_room_ids(s: StoreView, a: int, b: int)
    requires
        s.wf(),
        0 <= a < s.rooms.len(),
        0 <= b < s.rooms.len(),
        a != b,
    ensures
        s.rooms[a].id != s.rooms[b].id,
{
}

pub proof fn lemma_unique_device_ids(s: StoreView, a: int, b: int)
    requires
        s.wf(),
        0 <= a < s.devices.len(),
        0 <= b < s.devices.len(),
        a != b,
    ensures
        s.devices[a].id != s.devices[b].id,
{
}

/// The rooms of `rooms` that belong to house `hid`, in order.
pub open spec fn rooms_matching(rooms: Seq<RoomView>, hid: Seq<char>) -> Seq<RoomView> {
    rooms.filter(|r: RoomView| r.house == hid)
}

/// The devices of `devices` that sit in room `rid`, in order.
pub open spec fn devices_matching(devices: Seq<DeviceView>, rid: Seq<char>) -> Seq<DeviceView> {
    devices.filter(|d: DeviceView| d.room == rid)
}

/// Mathematical value of the whole store.
#[verifier::ext_equal]
pub struct StoreView {
    pub houses: Seq<HouseView>,
    pub rooms: Seq<RoomView>,
    pub devices: Seq<DeviceView>,
}

impl StoreView {
    pub open spec fn has_house(self, id: Seq<char>) -> bool {
        exists|i: int| 0 <= i < self.houses.len() && (#[trigger] self.houses[i]).id == id
    }

    pub open spec fn house_at(self, id: Seq<char>) -> int {
        choose|i: int| 0 <= i < self.houses.len() && (#[trigger] self.houses[i]).id == id
    }

    pub open spec fn find_house(self, id: Seq<char>) -> Option<HouseView> {
        if self.has_house(id) {
            Some(self.houses[self.house_at(id)])
        } else {
            None
        }
    }

    pub open spec fn has_room(self, id: Seq<char>) -> bool {
        exists|i: int| 0 <= i < self.rooms.len() && (#[trigger] self.rooms[i]).id == id
    }

    pub open spec fn room_at(self, id: Seq<char>) -> int {
        choose|i: int| 0 <= i < self.rooms.len() && (#[trigger] self.rooms[i]).id == id
    }

    pub open spec fn find_room(self, id: Seq<char>) -> Option<RoomView> {
        if self.has_room(id) {
            Some(self.rooms[self.room_at(id)])
        } else {
            None
        }
    }

    pub open spec fn has_device(self, id: Seq<char>) -> bool {
        exists|i: int| 0 <= i < self.devices.len() && (#[trigger] self.devices[i]).id == id
    }

    pub open spec fn device_at(self, id: Seq<char>) -> int {
        choose|i: int| 0 <= i < self.devices.len() && (#[trigger] self.devices[i]).id == id
    }

    pub open spec fn find_device(self, id: Seq<char>) -> Option<DeviceView> {
        if self.has_device(id) {
            Some(self.devices[self.device_at(id)])
        } else {
            None
        }
    }

    /// Some room belongs to house `hid`.
    pub open spec fn house_referenced(self, hid: Seq<char>) -> bool {
        exists|i: int| 0 <= i < self.rooms.len() && (#[trigger] self.rooms[i]).house == hid
    }

    /// Some device sits in room `rid`.
    pub open spec fn room_referenced(self, rid: Seq<char>) -> bool {
        exists|i: int| 0 <= i < self.devices.len() && (#[trigger] self.devices[i]).room == rid
    }

    pub open spec fn rooms_of(self, hid: Seq<char>) -> Seq<RoomView> {
        rooms_matching(self.rooms, hid)
    }

    pub open spec fn devices_in(self, rid: Seq<char>) -> Seq<DeviceView> {
        devices_matching(self.devices, rid)
    }

    /// Well-formedness: ids are unique per table, every room references an
    /// existing house and every device an existing room.
    pub open spec fn wf(self) -> bool {
        &&& forall|i: int, j: int|
            0 <= i < j < self.houses.len() ==> (#[trigger] self.houses[i]).id
                != (#[trigger] self.houses[j]).id
        &&& forall|i: int, j: int|
            0 <= i < j < self.rooms.len() ==> (#[trigger] self.rooms[i]).id
                != (#[trigger] self.rooms[j]).id
        &&& forall|i: int, j: int|
            0 <= i < j < self.devices.len() ==> (#[trigger] self.devices[i]).id
                != (#[trigger] self.devices[j]).id
        &&& forall|i: int|
            0 <= i < self.rooms.len() ==> self.has_house((#[trigger] self.rooms[i]).house)
        &&& forall|i: int|
            0 <= i < self.devices.len() ==> self.has_room((#[trigger] self.devices[i]).room)
    }
}

/// The store itself: one table per entity, held in insertion order.
pub struct Store {
    pub houses: Vec<House>,
    pub rooms: Vec<Room>,
    pub devices: Vec<Device>,
}

impl View for Store {
    type V = StoreView;

    open spec fn view(&self) -> StoreView {
        StoreView {
            houses: house_views(self.houses@),
            rooms: room_views(self.rooms@),
            devices: device_views(self.devices@),
        }
    }
}

impl Store {
    /// An empty store.
    pub fn new() -> (r: Store)
        ensures
            r@.wf(),
            r@.houses.len() == 0,
            r@.rooms.len() == 0,
            r@.devices.len() == 0,
    {
        Store { houses: Vec::new(), rooms: Vec::new(), devices: Vec::new() }
    }

    /// The house with id `uid`, if present.
    pub fn find_house_by_id(&self, uid: &String) -> (r: Option<House>)
        requires
            self@.wf(),
        ensures
            match r {
                Some(h) => self@.find_house(uid@) == Some(h@),
                None => self@.find_house(uid@) is None,
            },
    {
        broadcast use group_store_views;

        let mut i: usize = 0;
        while i < self.houses.len()
            invariant
                self@.wf(),
                i <= self@.houses.len(),
                self@.houses.len() == self.houses@.len(),
                forall|j: int| 0 <= j < i ==> (#[trigger] self@.houses[j]).id != uid@,
            decreases self@.houses.len() - i,
        {
            if self.houses[i].id == *uid {
                let h = self.houses[i].clone();
                proof {
                    assert(self@.houses[i as int].id == uid@);
                    assert(self@.has_house(uid@));
                    let k = self@.house_at(uid@);
                    assert(0 <= k < self@.houses.len() && self@.houses[k].id == uid@);
                    if k != i as int {
                        lemma_unique_house_ids(self@, k, i as int);
                    }
                }
                return Some(h);
            }
            i = i + 1;
        }
        proof {
            if self@.has_house(uid@) {
                let k = self@.house_at(uid@);
                assert(self@.houses[k].id == uid@);
                assert(false);
            }
        }
        None
    }

    /// The room with id `uid`, if present.
    pub fn find_room_by_id(&self, uid: &String) -> (r: Option<Room>)
        requires
            self@.wf(),
        ensures
            match r {
                Some(rm) => self@.find_room(uid@) == Some(rm@),
                None => self@.find_room(uid@) is None,
            },
    {
        broadcast use group_store_views;

        let mut i: usize = 0;
        while i < self.rooms.len()
            invariant
                self@.wf(),
                i <= self@.rooms.len(),
                self@.rooms.len() == self.rooms@.len(),
                forall|j: int| 0 <= j < i ==> (#[trigger] self@.rooms[j]).id != uid@,
            decreases self@.rooms.len() - i,
        {
            if self.rooms[i].id == *uid {
                let rm = self.rooms[i].clone();
                proof {
                    assert(self@.rooms[i as int].id == uid@);
                    assert(self@.has_room(uid@));
                    let k = self@.room_at(uid@);
                    assert(0 <= k < self@.rooms.len() && self@.rooms[k].id == uid@);
                    if k != i as int {
                        lemma_unique_room_ids(self@, k, i as int);
                    }
                }
                return Some(rm);
            }
            i = i + 1;
        }
        proof {
            if self@.has_room(uid@) {
                let k = self@.room_at(uid@);
                assert(self@.rooms[k].id == uid@);
                assert(false);
            }
        }
        None
    }

    /// The device with id `uid`, if present.
    pub fn find_device_by_id(&self, uid: &String) -> (r: Option<Device>)
        requires
            self@.wf(),
        ensures
            match r {
                Some(d) => self@.find_device(uid@) == Some(d@),
                None => self@.find_device(uid@) is None,
            },
    {
        broadcast use group_store_views;

        let mut i: usize = 0;
        while i < self.devices.len()
            invariant
                self@.wf(),
                i <= self@.devices.len(),
                self@.devices.len() == self.devices@.len(),
                forall|j: int| 0 <= j < i ==> (#[trigger] self@.devices[j]).id != uid@,
            decreases self@.devices.len() - i,
        {
            if self.devices[i].id == *uid {
                let d = self.devices[i].clone();
                proof {
                    assert(self@.devices[i as int].id == uid@);
                    assert(self@.has_device(uid@));
                    let k = self@.device_at(uid@);
                    assert(0 <= k < self@.devices.len() && self@.devices[k].id == uid@);
                    if k != i as int {
                        lemma_unique_device_ids(self@, k, i as int);
                    }
                }
                return Some(d);
            }
            i = i + 1;
        }
        proof {
            if self@.has_device(uid@) {
                let k = self@.device_at(uid@);
                assert(self@.devices[k].id == uid@);
                assert(false);
            }
        }
        None
    }

    /// Every device, in insertion order.
    pub fn get_devices_list(&self) -> (r: Vec<Device>)
        ensures
            device_views(r@) == self@.devices,
    {
        broadcast use group_store_views;

        let mut out: Vec<Device> = Vec::new();
        let mut i: usize = 0;
        while i < self.devices.len()
            invariant
                i <= self.devices@.len(),
                device_views(out@) =~= self@.devices.take(i as int),
            decreases self.devices@.len() - i,
        {
            let ghost prev = device_views(out@);
            out.push(self.devices[i].clone());
            proof {
                assert(device_views(out@) =~= prev.push(self@.devices[i as int]));
                assert(self@.devices.take(i + 1) =~= prev.push(self@.devices[i as int]));
            }
            i = i + 1;
        }
        proof {
            assert(self@.devices.take(self.devices@.len() as int) =~= self@.devices);
        }
        out
    }

    /// Every room, in insertion order.
    pub fn get_rooms_list(&self) -> (r: Vec<Room>)
        ensures
            room_views(r@) == self@.rooms,
    {
        broadcast use group_store_views;

        let mut out: Vec<Room> = Vec::new();
        let mut i: usize = 0;
        while i < self.rooms.len()
            invariant
                i <= self.rooms@.len(),
                room_views(out@) =~= self@.rooms.take(i as int),
            decreases self.rooms@.len() - i,
        {
            let ghost prev = room_views(out@);
            out.push(self.rooms[i].clone());
            proof {
                assert(room_views(out@) =~= prev.push(self@.rooms[i as int]));
                assert(self@.rooms.take(i + 1) =~= prev.push(self@.rooms[i as int]));
            }
            i = i + 1;
        }
        proof {
            assert(self@.rooms.take(self.rooms@.len() as int) =~= self@.rooms);
        }
        out
    }

    /// Every house, in insertion order.
    pub fn list_houses(&self) -> (r: Vec<House>)
        ensures
            house_views(r@) == self@.houses,
    {
        broadcast use group_store_views;

        let mut out: Vec<House> = Vec::new();
        let mut i: usize = 0;
        while i < self.houses.len()
            invariant
                i <= self.houses@.len(),
                house_views(out@) =~= self@.houses.take(i as int),
            decreases self.houses@.len() - i,
        {
            let ghost prev = house_views(out@);
            out.push(self.houses[i].clone());
            proof {
                assert(house_views(out@) =~= prev.push(self@.houses[i as int]));
                assert(self@.houses.take(i + 1) =~= prev.push(self@.houses[i as int]));
            }
            i = i + 1;
        }
        proof {
            assert(self@.houses.take(self.houses@.len() as int) =~= self@.houses);
        }
        out
    }

    /// The rooms of house `uid`, in insertion order.
    pub fn list_room_by_id(&self, uid: &String) -> (r: Vec<Room>)
        ensures
            room_views(r@) == self@.rooms_of(uid@),
    {
        broadcast use group_store_views;

        let mut out: Vec<Room> = Vec::new();
        let mut i: usize = 0;
        proof {
            lemma_rooms_matching_take_zero(self@.rooms, uid@);
        }
        while i < self.rooms.len()
            invariant
                i <= self.rooms@.len(),
                self@.rooms.len() == self.rooms@.len(),
                room_views(out@) == rooms_matching(self@.rooms.take(i as int), uid@),
            decreases self.rooms@.len() - i,
        {
            let ghost prev = room_views(out@);
            proof {
                lemma_rooms_matching_step(self@.rooms, uid@, i as int);
            }
            if self.rooms[i].house == *uid {
                out.push(self.rooms[i].clone());
                proof {
                    assert(room_views(out@) =~= prev.push(self@.rooms[i as int]));
                }
            }
            i = i + 1;
        }
        proof {
            assert(self@.rooms.take(self.rooms@.len() as int) =~= self@.rooms);
        }
        out
    }

    /// The devices in room `uid`, in insertion order.
    pub fn list_device_in_room(&self, uid: &String) -> (r: Vec<Device>)
        ensures
            device_views(r@) == self@.devices_in(uid@),
    {
        broadcast use group_store_views;

        let mut out: Vec<Device> = Vec::new();
        let mut i: usize = 0;
        proof {
            lemma_devices_matching_take_zero(self@.devices, uid@);
        }
        while i < self.devices.len()
            invariant
                i <= self.devices@.len(),
                self@.devices.len() == self.devices@.len(),
                device_views(out@) == devices_matching(self@.devices.take(i as int), uid@),
            decreases self.devices@.len() - i,
        {
            let ghost prev = device_views(out@);
            proof {
                lemma_devices_matching_step(self@.devices, uid@, i as int);
            }
            if self.devices[i].room == *uid {
                out.push(self.devices[i].clone());
                proof {
                    assert(device_views(out@) =~= prev.push(self@.devices[i as int]));
                }
            }
            i = i + 1;
        }
        proof {
            assert(self@.devices.take(self.devices@.len() as int) =~= self@.devices);
        }
        out
    }

    /// Index of the house with id `uid`, if present.
    fn house_pos(&self, uid: &String) -> (r: Option<usize>)
        requires
            self@.wf(),
        ensures
            match r {
                Some(ix) => ix < self@.houses.len() && self@.has_house(uid@) && self@.house_at(
                    uid@,
                ) == ix as int,
                None => !self@.has_house(uid@),
            },
    {
        broadcast use group_store_views;

        let mut i: usize = 0;
        while i < self.houses.len()
            invariant
                self@.wf(),
                i <= self@.houses.len(),
                self@.houses.len() == self.houses@.len(),
                forall|j: int| 0 <= j < i ==> (#[trigger] self@.houses[j]).id != uid@,
            decreases self@.houses.len() - i,
        {
            if self.houses[i].id == *uid {
                proof {
                    assert(self@.houses[i as int].id == uid@);
                    assert(self@.has_house(uid@));
                    let k = self@.house_at(uid@);
                    assert(0 <= k < self@.houses.len() && self@.houses[k].id == uid@);
                    if k != i as int {
                        lemma_unique_house_ids(self@, k, i as int);
                    }
                }
                return Some(i);
            }
            i = i + 1;
        }
        proof {
            if self@.has_house(uid@) {
                let k = self@.house_at(uid@);
                assert(self@.houses[k].id == uid@);
                assert(false);
            }
        }
        None
    }

    /// Index of the room with id `uid`, if present.
    fn room_pos(&self, uid: &String) -> (r: Option<usize>)
        requires
            self@.wf(),
        ensures
            match r {
                Some(ix) => ix < self@.rooms.len() && self@.has_room(uid@) && self@.room_at(uid@)
                    == ix as int,
                None => !self@.has_room(uid@),
            },
    {
        broadcast use group_store_views;

        let mut i: usize = 0;
        while i < self.rooms.len()
            invariant
                self@.wf(),
                i <= self@.rooms.len(),
                self@.rooms.len() == self.rooms@.len(),
                forall|j: int| 0 <= j < i ==> (#[trigger] self@.rooms[j]).id != uid@,
            decreases self@.rooms.len() - i,
        {
            if self.rooms[i].id == *uid {
                proof {
                    assert(self@.rooms[i as int].id == uid@);
                    assert(self@.has_room(uid@));
                    let k = self@.room_at(uid@);
                    assert(0 <= k < self@.rooms.len() && self@.rooms[k].id == uid@);
                    if k != i as int {
                        lemma_unique_room_ids(self@, k, i as int);
                    }
                }
                return Some(i);
            }
            i = i + 1;
        }
        proof {
            if self@.has_room(uid@) {
                let k = self@.room_at(uid@);
                assert(self@.rooms[k].id == uid@);
                assert(false);
            }
        }
        None
    }

    /// Index of the device with id `uid`, if present.
    fn device_pos(&self, uid: &String) -> (r: Option<usize>)
        requires
            self@.wf(),
        ensures
            match r {
                Some(ix) => ix < self@.devices.len() && self@.has_device(uid@) && self@.device_at(
                    uid@,
                ) == ix as int,
                None => !self@.has_device(uid@),
            },
    {
        broadcast use group_store_views;

        let mut i: usize = 0;
        while i < self.devices.len()
            invariant
                self@.wf(),
                i <= self@.devices.len(),
                self@.devices.len() == self.devices@.len(),
                forall|j: int| 0 <= j < i ==> (#[trigger] self@.devices[j]).id != uid@,
            decreases self@.devices.len() - i,
        {
            if self.devices[i].id == *uid {
                proof {
                    assert(self@.devices[i as int].id == uid@);
                    assert(self@.has_device(uid@));
                    let k = self@.device_at(uid@);
                    assert(0 <= k < self@.devices.len() && self@.devices[k].id == uid@);
                    if k != i as int {
                        lemma_unique_device_ids(self@, k, i as int);
                    }
                }
                return Some(i);
            }
            i = i + 1;
        }
        proof {
            if self@.has_device(uid@) {
                let k = self@.device_at(uid@);
                assert(self@.devices[k].id == uid@);
                assert(false);
            }
        }
        None
    }

    /// Whether some room belongs to house `uid`.
    fn any_room_in_house(&self, uid: &String) -> (b: bool)
        ensures
            b == self@.house_referenced(uid@),
    {
        broadcast use group_store_views;

        let mut i: usize = 0;
        while i < self.rooms.len()
            invariant
                i <= self@.rooms.len(),
                self@.rooms.len() == self.rooms@.len(),
                forall|j: int| 0 <= j < i ==> (#[trigger] self@.rooms[j]).house != uid@,
            decreases self@.rooms.len() - i,
        {
            if self.rooms[i].house == *uid {
                proof {
                    assert(self@.rooms[i as int].house == uid@);
                }
                return true;
            }
            i = i + 1;
        }
        proof {
            if self@.house_referenced(uid@) {
                let k = choose|k: int|
                    0 <= k < self@.rooms.len() && (#[trigger] self@.rooms[k]).house == uid@;
                assert(self@.rooms[k].house == uid@);
                assert(false);
            }
        }
        false
    }

    /// Whether some device sits in room `uid`.
    fn any_device_in_room(&self, uid: &String) -> (b: bool)
        ensures
            b == self@.room_referenced(uid@),
    {
        broadcast use group_store_views;

        let mut i: usize = 0;
        while i < self.devices.len()
            invariant
                i <= self@.devices.len(),
                self@.devices.len() == self.devices@.len(),
                forall|j: int| 0 <= j < i ==> (#[trigger] self@.devices[j]).room != uid@,
            decreases self@.devices.len() - i,
        {
            if self.devices[i].room == *uid {
                proof {
                    assert(self@.devices[i as int].room == uid@);
                }
                return true;
            }
            i = i + 1;
        }
        proof {
            if self@.room_referenced(uid@) {
                let k = choose|k: int|
                    0 <= k < self@.devices.len() && (#[trigger] self@.devices[k]).room == uid@;
                assert(self@.devices[k].room == uid@);
                assert(false);
            }
        }
        false
    }

    /// Insert a house under a caller-chosen id; rejected when the id is
    /// already taken.
    pub fn insert_house_with_id(&mut self, id: String, nm: &str) -> (r: Result<House, StoreError>)
        requires
            old(self)@.wf(),
        ensures
            final(self)@.wf(),
            match r {
                Ok(h) => !old(self)@.has_house(id@) && h@ == (HouseView { id: id@, name: nm@ })
                    && final(self)@ == old(self)@.with_house(h@),
                Err(e) => e == StoreError::DuplicateId && old(self)@.has_house(id@) && *final(self)
                    == *old(self),
            },
    {
        broadcast use group_store_views;

        if self.house_pos(&id).is_some() {
            return Err(StoreError::DuplicateId);
        }
        let ghost s0 = self@;
        let ghost v0 = self.houses@;
        let h = House { id, name: String::from_str(nm) };
        let h2 = h.clone();
        self.houses.push(h);
        proof {
            lemma_house_views_push(v0, h2);
            assert(house_views(self.houses@) =~= s0.houses.push(h2@));
            lemma_wf_push_house(s0, h2@);
            assert(self@ =~= s0.with_house(h2@));
        }
        Ok(h2)
    }

    /// Insert a house under a fresh random id. Only a collision of the
    /// drawn id with an existing row can fail, so on an empty table
    /// success is certain.
    pub fn insert_new_house(&mut self, nm: &str) -> (r: Result<House, StoreError>)
        requires
            old(self)@.wf(),
        ensures
            final(self)@.wf(),
            old(self)@.houses.len() == 0 ==> r is Ok,
            match r {
                Ok(h) => h@.name == nm@ && h@.id.len() == 36 && uuid_parse(h@.id) == Some(
                    h@.id,
                ) && !old(self)@.has_house(h@.id) && final(self)@ == old(self)@.with_house(h@),
                Err(e) => e == StoreError::DuplicateId && old(self)@.houses.len() > 0
                    && *final(self) == *old(self),
            },
    {
        let id = new_uuid();
        self.insert_house_with_id(id, nm)
    }

    /// Insert a room under a caller-chosen id; rejected when the house does
    /// not exist or the id is already taken.
    pub fn insert_room_with_id(&mut self, id: String, nm: &str, hs: &String) -> (r: Result<
        Room,
        StoreError,
    >)
        requires
            old(self)@.wf(),
        ensures
            final(self)@.wf(),
            match r {
                Ok(rm) => old(self)@.has_house(hs@) && !old(self)@.has_room(id@) && rm@ == (
                RoomView { id: id@, name: nm@, house: hs@ }) && final(self)@ == old(
                    self,
                )@.with_room(rm@),
                Err(e) => *final(self) == *old(self) && ((e == StoreError::ForeignKeyViolation
                    && !old(self)@.has_house(hs@)) || (e == StoreError::DuplicateId && old(
                    self,
                )@.has_house(hs@) && old(self)@.has_room(id@))),
            },
    {
        broadcast use group_store_views;

        if self.house_pos(hs).is_none() {
            return Err(StoreError::ForeignKeyViolation);
        }
        if self.room_pos(&id).is_some() {
            return Err(StoreError::DuplicateId);
        }
        let ghost s0 = self@;
        let ghost v0 = self.rooms@;
        let rm = Room { id, name: String::from_str(nm), house: hs.clone() };
        let rm2 = rm.clone();
        self.rooms.push(rm);
        proof {
            lemma_room_views_push(v0, rm2);
            assert(room_views(self.rooms@) =~= s0.rooms.push(rm2@));
            lemma_wf_push_room(s0, rm2@);
            assert(self@ =~= s0.with_room(rm2@));
        }
        Ok(rm2)
    }

    /// Insert a room under a fresh random id; rejected when the house does
    /// not exist. Beyond that, only a collision of the drawn id with an
    /// existing row can fail, so on an empty table success is certain.
    pub fn insert_new_room(&mut self, nm: &str, hs: &String) -> (r: Result<Room, StoreError>)
        requires
            old(self)@.wf(),
        ensures
            final(self)@.wf(),
            old(self)@.has_house(hs@) && old(self)@.rooms.len() == 0 ==> r is Ok,
            match r {
                Ok(rm) => old(self)@.has_house(hs@) && rm@.name == nm@ && rm@.house == hs@
                    && rm@.id.len() == 36 && uuid_parse(rm@.id) == Some(rm@.id) && !old(
                    self,
                )@.has_room(rm@.id) && final(self)@ == old(self)@.with_room(rm@),
                Err(e) => *final(self) == *old(self) && ((e == StoreError::ForeignKeyViolation
                    && !old(self)@.has_house(hs@)) || (e == StoreError::DuplicateId && old(
                    self,
                )@.has_house(hs@) && old(self)@.rooms.len() > 0)),
            },
    {
        let id = new_uuid();
        self.insert_room_with_id(id, nm, hs)
    }

    /// Insert a device under a caller-chosen id; rejected when the room does
    /// not exist or the id is already taken. State starts false and the
    /// variable at zero.
    pub fn insert_device_with_id(
        &mut self,
        id: String,
        nm: &str,
        tp: &str,
        adrs: &str,
        rm: &String,
    ) -> (r: Result<Device, StoreError>)
        requires
            old(self)@.wf(),
        ensures
            final(self)@.wf(),
            match r {
                Ok(d) => old(self)@.has_room(rm@) && !old(self)@.has_device(id@) && d@ == (
                DeviceView {
                    id: id@,
                    name: nm@,
                    type_: tp@,
                    address: Some(adrs@),
                    state: false,
                    variable: 0,
                    room: rm@,
                }) && final(self)@ == old(self)@.with_device(d@),
                Err(e) => *final(self) == *old(self) && ((e == StoreError::ForeignKeyViolation
                    && !old(self)@.has_room(rm@)) || (e == StoreError::DuplicateId && old(
                    self,
                )@.has_room(rm@) && old(self)@.has_device(id@))),
            },
    {
        broadcast use group_store_views;

        if self.room_pos(rm).is_none() {
            return Err(StoreError::ForeignKeyViolation);
        }
        if self.device_pos(&id).is_some() {
            return Err(StoreError::DuplicateId);
        }
        let ghost s0 = self@;
        let ghost v0 = self.devices@;
        let d = Device {
            id,
            name: String::from_str(nm),
            type_: String::from_str(tp),
            address: Some(String::from_str(adrs)),
            state: false,
            variable: 0,
            room: rm.clone(),
        };
        let d2 = d.clone();
        self.devices.push(d);
        proof {
            lemma_device_views_push(v0, d2);
            assert(device_views(self.devices@) =~= s0.devices.push(d2@));
            lemma_wf_push_device(s0, d2@);
            assert(self@ =~= s0.with_device(d2@));
        }
        Ok(d2)
    }

    /// Insert a device under a fresh random id; rejected when the room does
    /// not exist. Beyond that, only a collision of the drawn id with an
    /// existing row can fail, so on an empty table success is certain.
    pub fn insert_new_device(&mut self, nm: &str, tp: &str, adrs: &str, rm: &String) -> (r: Result<
        Device,
        StoreError,
    >)
        requires
            old(self)@.wf(),
        ensures
            final(self)@.wf(),
            old(self)@.has_room(rm@) && old(self)@.devices.len() == 0 ==> r is Ok,
            match r {
                Ok(d) => old(self)@.has_room(rm@) && d@.name == nm@ && d@.type_ == tp@
                    && d@.address == Some(adrs@) && d@.state == false && d@.variable == 0
                    && d@.room == rm@ && d@.id.len() == 36 && uuid_parse(d@.id) == Some(d@.id)
                    && !old(self)@.has_device(d@.id) && final(self)@ == old(self)@.with_device(
                    d@,
                ),
                Err(e) => *final(self) == *old(self) && ((e == StoreError::ForeignKeyViolation
                    && !old(self)@.has_room(rm@)) || (e == StoreError::DuplicateId && old(
                    self,
                )@.has_room(rm@) && old(self)@.devices.len() > 0)),
            },
    {
        let id = new_uuid();
        self.insert_device_with_id(id, nm, tp, adrs, rm)
    }

    /// Delete the house `uid` and return its prior value. An absent id
    /// surfaces as a deletion-verification error; a house that still owns
    /// rooms cannot be deleted.
    pub fn remove_house_by_id(&mut self, uid: &String) -> (r: Result<Option<House>, StoreError>)
        requires
            old(self)@.wf(),
        ensures
            final(self)@.wf(),
            match r {
                Ok(found) => ({
                    &&& found is Some
                    &&& old(self)@.find_house(uid@) == Some(found->0@)
                    &&& !old(self)@.house_referenced(uid@)
                    &&& final(self)@ == old(self)@.without_house(old(self)@.house_at(uid@))
                }),
                Err(e) => *final(self) == *old(self) && ((e == StoreError::DeletionVerification(
                    EntityKind::House,
                ) && !old(self)@.has_house(uid@)) || (e == StoreError::ForeignKeyViolation && old(
                    self,
                )@.has_house(uid@) && old(self)@.house_referenced(uid@))),
            },
    {
        broadcast use group_store_views;

        let pos = match self.house_pos(uid) {
            Some(ix) => ix,
            None => {
                return Err(StoreError::DeletionVerification(EntityKind::House));
            },
        };
        if self.any_room_in_house(uid) {
            return Err(StoreError::ForeignKeyViolation);
        }
        let ghost s0 = self@;
        let ghost v0 = self.houses@;
        let old_count = self.houses.len();
        let h = self.houses.remove(pos);
        proof {
            lemma_house_views_remove(v0, pos as int);
            assert(house_views(self.houses@) =~= s0.houses.remove(pos as int));
            assert(s0.houses[pos as int].id == uid@);
            lemma_wf_remove_house(s0, pos as int);
            assert(self@ =~= s0.without_house(pos as int));
        }
        // The delete is re-checked against the row count; a delete that did
        // not shrink the table by exactly one would be reported, never
        // passed over. The proof shows this branch can no longer be taken.
        if self.houses.len() + 1 != old_count {
            return Err(StoreError::DeletionVerification(EntityKind::House));
        }
        Ok(Some(h))
    }

    /// Delete the room `uid` and return its prior value. An absent id
    /// surfaces as a deletion-verification error; a room that still holds
    /// devices cannot be deleted.
    pub fn remove_room_by_id(&mut self, uid: &String) -> (r: Result<Option<Room>, StoreError>)
        requires
            old(self)@.wf(),
        ensures
            final(self)@.wf(),
            match r {
                Ok(found) => ({
                    &&& found is Some
                    &&& old(self)@.find_room(uid@) == Some(found->0@)
                    &&& !old(self)@.room_referenced(uid@)
                    &&& final(self)@ == old(self)@.without_room(old(self)@.room_at(uid@))
                }),
                Err(e) => *final(self) == *old(self) && ((e == StoreError::DeletionVerification(
                    EntityKind::Room,
                ) && !old(self)@.has_room(uid@)) || (e == StoreError::ForeignKeyViolation && old(
                    self,
                )@.has_room(uid@) && old(self)@.room_referenced(uid@))),
            },
    {
        broadcast use group_store_views;

        let pos = match self.room_pos(uid) {
            Some(ix) => ix,
            None => {
                return Err(StoreError::DeletionVerification(EntityKind::Room));
            },
        };
        if self.any_device_in_room(uid) {
            return Err(StoreError::ForeignKeyViolation);
        }
        let ghost s0 = self@;
        let ghost v0 = self.rooms@;
        let old_count = self.rooms.len();
        let rm = self.rooms.remove(pos);
        proof {
            lemma_room_views_remove(v0, pos as int);
            assert(room_views(self.rooms@) =~= s0.rooms.remove(pos as int));
            assert(s0.rooms[pos as int].id == uid@);
            lemma_wf_remove_room(s0, pos as int);
            assert(self@ =~= s0.without_room(pos as int));
        }
        // Same defensive re-check as for houses; provably never taken.
        if self.rooms.len() + 1 != old_count {
            return Err(StoreError::DeletionVerification(EntityKind::Room));
        }
        Ok(Some(rm))
    }

    /// Delete the device `uid` and return its prior value. An absent id
    /// surfaces as a deletion-verification error.
    pub fn remove_device_by_id(&mut self, uid: &String) -> (r: Result<Option<Device>, StoreError>)
        requires
            old(self)@.wf(),
        ensures
            final(self)@.wf(),
            match r {
                Ok(found) => ({
                    &&& found is Some
                    &&& old(self)@.find_device(uid@) == Some(found->0@)
                    &&& final(self)@ == old(self)@.without_device(old(self)@.device_at(uid@))
                }),
                Err(e) => *final(self) == *old(self) && e == StoreError::DeletionVerification(
                    EntityKind::Device,
                ) && !old(self)@.has_device(uid@),
            },
    {
        broadcast use group_store_views;

        let pos = match self.device_pos(uid) {
            Some(ix) => ix,
            None => {
                return Err(StoreError::DeletionVerification(EntityKind::Device));
            },
        };
        let ghost s0 = self@;
        let ghost v0 = self.devices@;
        let old_count = self.devices.len();
        let d = self.devices.remove(pos);
        proof {
            lemma_device_views_remove(v0, pos as int);
            assert(device_views(self.devices@) =~= s0.devices.remove(pos as int));
            lemma_wf_remove_device(s0, pos as int);
            assert(self@ =~= s0.without_device(pos as int));
        }
        // Same defensive re-check as for houses; provably never taken.
        if self.devices.len() + 1 != old_count {
            return Err(StoreError::DeletionVerification(EntityKind::Device));
        }
        Ok(Some(d))
    }

    /// Flip the state of device `uid`, verify that the stored value
    /// changed, and return the updated device.
    pub fn update_state_device(&mut self, uid: &String) -> (r: Result<Option<Device>, StoreError>)
        requires
            old(self)@.wf(),
        ensures
            final(self)@.wf(),
            match r {
                Ok(found) => ({
                    let ix = old(self)@.device_at(uid@);
                    &&& old(self)@.has_device(uid@)
                    &&& found is Some
                    &&& found->0@ == toggled(old(self)@.devices[ix])
                    &&& final(self)@ == old(self)@.with_device_toggled(ix)
                }),
                Err(e) => *final(self) == *old(self) && e == StoreError::NotFound && !old(
                    self,
                )@.has_device(uid@),
            },
    {
        broadcast use group_store_views;

        let pos = match self.device_pos(uid) {
            Some(ix) => ix,
            None => {
                return Err(StoreError::NotFound);
            },
        };
        let ghost s0 = self@;
        let ghost v0 = self.devices@;
        let mut d = self.devices.remove(pos);
        let pre_state = d.state;
        d.state = !d.state;
        let d2 = d.clone();
        proof {
            assert(d@ == toggled(s0.devices[pos as int]));
        }
        self.devices.insert(pos, d);
        proof {
            lemma_remove_insert_is_update(v0, pos as int, d2);
            assert(self.devices@ =~= v0.update(pos as int, d2));
            lemma_device_views_update(v0, pos as int, d2);
            assert(device_views(self.devices@) =~= s0.devices.update(pos as int, d2@));
            lemma_wf_toggle(s0, pos as int);
            assert(self@ =~= s0.with_device_toggled(pos as int));
        }
        // The write is re-read and compared against the prior state; a
        // toggle that did not change the stored value would be reported,
        // never passed over. The proof shows this branch can no longer be
        // taken.
        if self.devices[pos].state == pre_state {
            return Err(StoreError::StateChangeVerification);
        }
        Ok(Some(d2))
    }

    /// The full text report of house `uid`: its header, then the device
    /// report of each of its rooms. An absent house surfaces as not found;
    /// a room without devices makes the report fail on empty input.
    pub fn get_house_report(&self, uid: &String) -> (r: Result<String, StoreError>)
        requires
            self@.wf(),
        ensures
            match r {
                Ok(rep) => self@.has_house(uid@) && !some_room_empty(self@, uid@) && rep@
                    == house_report_spec(self@, self@.houses[self@.house_at(uid@)]),
                Err(e) => (e == StoreError::NotFound && !self@.has_house(uid@)) || (e
                    == StoreError::EmptyInput && self@.has_house(uid@) && some_room_empty(
                    self@,
                    uid@,
                )),
            },
    {
        broadcast use group_store_views;

        let house = match self.find_house_by_id(uid) {
            Some(h) => h,
            None => {
                return Err(StoreError::NotFound);
            },
        };
        let mut report = String::new();
        report.append("В доме ");
        report.append(house.name.as_str());
        report.append(" установлены следующие приборы: \n");
        let rooms = self.list_room_by_id(uid);
        let ghost rms = rooms_matching(self@.rooms, uid@);
        proof {
            assert(rms.take(0) =~= Seq::<RoomView>::empty());
            assert(house_header(house@) + rooms_report(self@, rms.take(0)) =~= house_header(
                house@,
            ));
        }
        let mut i: usize = 0;
        while i < rooms.len()
            invariant
                self@.wf(),
                room_views(rooms@) == rms,
                rms == rooms_matching(self@.rooms, uid@),
                rooms@.len() == rms.len(),
                i <= rooms@.len(),
                self@.has_house(uid@),
                house@ == self@.houses[self@.house_at(uid@)],
                house@.id == uid@,
                forall|j: int|
                    0 <= j < i ==> devices_matching(
                        self@.devices,
                        (#[trigger] rms[j]).id,
                    ).len() > 0,
                report@ == house_header(house@) + rooms_report(self@, rms.take(i as int)),
            decreases rooms@.len() - i,
        {
            let devs = self.list_device_in_room(&rooms[i].id);
            proof {
                assert(rooms@[i as int]@ == rms[i as int]);
                assert(device_views(devs@) == devices_matching(self@.devices, rms[i as int].id));
            }
            match generate_report(devs) {
                Ok(txt) => {
                    report.append(txt.as_str());
                    proof {
                        let dd = devices_matching(self@.devices, rms[i as int].id);
                        assert(name_id_of(devs@).len() == devs@.len());
                        assert forall|k: int| 0 <= k < devs@.len() implies name_id_of(devs@)[k]
                            == device_pairs(dd)[k] by {
                            assert(name_id_of(devs@)[k] == (
                                devs@[k].name_spec(),
                                devs@[k].id_spec(),
                            ));
                            assert(device_views(devs@)[k] == devs@[k]@);
                            assert(device_pairs(dd)[k] == (dd[k].name, dd[k].id));
                        }
                        assert(device_pairs(dd).len() == dd.len());
                        assert(name_id_of(devs@) =~= device_pairs(dd));
                        lemma_rooms_report_step(self@, rms, i as int);
                        assert(report@ == house_header(house@) + rooms_report(
                            self@,
                            rms.take(i + 1),
                        ));
                    }
                },
                Err(_) => {
                    proof {
                        assert(devices_matching(self@.devices, rms[i as int].id).len() == 0);
                        assert(some_room_empty(self@, uid@));
                    }
                    return Err(StoreError::EmptyInput);
                },
            }
            i = i + 1;
        }
        proof {
            assert(rms.take(rms.len() as int) =~= rms);
            if some_room_empty(self@, uid@) {
                let k = choose|k: int|
                    0 <= k < rooms_matching(self@.rooms, uid@).len() && devices_matching(
                        self@.devices,
                        (#[trigger] rooms_matching(self@.rooms, uid@)[k]).id,
                    ).len() == 0;
                assert(devices_matching(self@.devices, rms[k].id).len() > 0);
                assert(false);
            }
        }
        Ok(report)
    }
}

proof fn lemma_rooms_matching_take_zero(rooms: Seq<RoomView>, hid: Seq<char>)
    ensures
        rooms_matching(rooms.take(0), hid) == Seq::<RoomView>::empty(),
{
    reveal(Seq::filter);
    assert(rooms.take(0) =~= Seq::<RoomView>::empty());
}

proof fn lemma_rooms_matching_step(rooms: Seq<RoomView>, hid: Seq<char>, i: int)
    requires
        0 <= i < rooms.len(),
    ensures
        rooms_matching(rooms.take(i + 1), hid) == if rooms[i].house == hid {
            rooms_matching(rooms.take(i), hid).push(rooms[i])
        } else {
            rooms_matching(rooms.take(i), hid)
        },
{
    reveal(Seq::filter);
    assert(rooms.take(i + 1).drop_last() =~= rooms.take(i));
    assert(rooms.take(i + 1).last() == rooms[i]);
}

proof fn lemma_devices_matching_take_zero(devices: Seq<DeviceView>, rid: Seq<char>)
    ensures
        devices_matching(devices.take(0), rid) == Seq::<DeviceView>::empty(),
{
    reveal(Seq::filter);
    assert(devices.take(0) =~= Seq::<DeviceView>::empty());
}

proof fn lemma_devices_matching_step(devices: Seq<DeviceView>, rid: Seq<char>, i: int)
    requires
        0 <= i < devices.len(),
    ensures
        devices_matching(devices.take(i + 1), rid) == if devices[i].room == rid {
            devices_matching(devices.take(i), rid).push(devices[i])
        } else {
            devices_matching(devices.take(i), rid)
        },
{
    reveal(Seq::filter);
    assert(devices.take(i + 1).drop_last() =~= devices.take(i));
    assert(devices.take(i + 1).last() == devices[i]);
}

impl StoreView {
    /// `self` with house `h` appended.
    pub open spec fn with_house(self, h: HouseView) -> StoreView {
        StoreView { houses: self.houses.push(h), rooms: self.rooms, devices: self.devices }
    }

    /// `self` with room `r` appended.
    pub open spec fn with_room(self, r: RoomView) -> StoreView {
        StoreView { houses: self.houses, rooms: self.rooms.push(r), devices: self.devices }
    }

    /// `self` with device `d` appended.
    pub open spec fn with_device(self, d: DeviceView) -> StoreView {
        StoreView { houses: self.houses, rooms: self.rooms, devices: self.devices.push(d) }
    }

    /// `self` with the house at `idx` removed.
    pub open spec fn without_house(self, idx: int) -> StoreView {
        StoreView { houses: self.houses.remove(idx), rooms: self.rooms, devices: self.devices }
    }

    /// `self` with the room at `idx` removed.
    pub open spec fn without_room(self, idx: int) -> StoreView {
        StoreView { houses: self.houses, rooms: self.rooms.remove(idx), devices: self.devices }
    }

    /// `self` with the device at `idx` removed.
    pub open spec fn without_device(self, idx: int) -> StoreView {
        StoreView { houses: self.houses, rooms: self.rooms, devices: self.devices.remove(idx) }
    }

    /// `self` with the state of the device at `idx` flipped.
    pub open spec fn with_device_toggled(self, idx: int) -> StoreView {
        StoreView {
            houses: self.houses,
            rooms: self.rooms,
            devices: self.devices.update(idx, toggled(self.devices[idx])),
        }
    }
}

/// `d` with its boolean state flipped and every other field kept.
pub open spec fn toggled(d: DeviceView) -> DeviceView {
    DeviceView {
        id: d.id,
        name: d.name,
        type_: d.type_,
        address: d.address,
        state: !d.state,
        variable: d.variable,
        room: d.room,
    }
}

proof fn lemma_house_views_push(v: Seq<House>, h: House)
    ensures
        house_views(v.push(h)) =~= house_views(v).push(h@),
{
    broadcast use group_store_views;

    assert forall|j: int| 0 <= j < v.len() + 1 implies house_views(v.push(h))[j] == house_views(
        v,
    ).push(h@)[j] by {
        if j < v.len() {
            assert(v.push(h)[j] == v[j]);
        } else {
            assert(v.push(h)[j] == h);
        }
    }
}

proof fn lemma_room_views_push(v: Seq<Room>, r: Room)
    ensures
        room_views(v.push(r)) =~= room_views(v).push(r@),
{
    broadcast use group_store_views;

    assert forall|j: int| 0 <= j < v.len() + 1 implies room_views(v.push(r))[j] == room_views(
        v,
    ).push(r@)[j] by {
        if j < v.len() {
            assert(v.push(r)[j] == v[j]);
        } else {
            assert(v.push(r)[j] == r);
        }
    }
}

proof fn lemma_device_views_push(v: Seq<Device>, d: Device)
    ensures
        device_views(v.push(d)) =~= device_views(v).push(d@),
{
    broadcast use group_store_views;

    assert forall|j: int| 0 <= j < v.len() + 1 implies device_views(v.push(d))[j] == device_views(
        v,
    ).push(d@)[j] by {
        if j < v.len() {
            assert(v.push(d)[j] == v[j]);
        } else {
            assert(v.push(d)[j] == d);
        }
    }
}

proof fn lemma_house_views_remove(v: Seq<House>, idx: int)
    requires
        0 <= idx < v.len(),
    ensures
        house_views(v.remove(idx)) =~= house_views(v).remove(idx),
{
    broadcast use group_store_views;

    assert forall|j: int| 0 <= j < v.len() - 1 implies house_views(v.remove(idx))[j]
        == house_views(v).remove(idx)[j] by {
        if j < idx {
            assert(v.remove(idx)[j] == v[j]);
            assert(house_views(v).remove(idx)[j] == house_views(v)[j]);
        } else {
            assert(v.remove(idx)[j] == v[j + 1]);
            assert(house_views(v).remove(idx)[j] == house_views(v)[j + 1]);
        }
    }
}

proof fn lemma_room_views_remove(v: Seq<Room>, idx: int)
    requires
        0 <= idx < v.len(),
    ensures
        room_views(v.remove(idx)) =~= room_views(v).remove(idx),
{
    broadcast use group_store_views;

    assert forall|j: int| 0 <= j < v.len() - 1 implies room_views(v.remove(idx))[j] == room_views(
        v,
    ).remove(idx)[j] by {
        if j < idx {
            assert(v.remove(idx)[j] == v[j]);
            assert(room_views(v).remove(idx)[j] == room_views(v)[j]);
        } else {
            assert(v.remove(idx)[j] == v[j + 1]);
            assert(room_views(v).remove(idx)[j] == room_views(v)[j + 1]);
        }
    }
}

proof fn lemma_device_views_remove(v: Seq<Device>, idx: int)
    requires
        0 <= idx < v.len(),
    ensures
        device_views(v.remove(idx)) =~= device_views(v).remove(idx),
{
    broadcast use group_store_views;

    assert forall|j: int| 0 <= j < v.len() - 1 implies device_views(v.remove(idx))[j]
        == device_views(v).remove(idx)[j] by {
        if j < idx {
            assert(v.remove(idx)[j] == v[j]);
            assert(device_views(v).remove(idx)[j] == device_views(v)[j]);
        } else {
            assert(v.remove(idx)[j] == v[j + 1]);
            assert(device_views(v).remove(idx)[j] == device_views(v)[j + 1]);
        }
    }
}

proof fn lemma_remove_insert_is_update(v: Seq<Device>, idx: int, d: Device)
    requires
        0 <= idx < v.len(),
    ensures
        v.remove(idx).insert(idx, d) =~= v.update(idx, d),
{
    assert forall|j: int| 0 <= j < v.len() implies v.remove(idx).insert(idx, d)[j] == v.update(
        idx,
        d,
    )[j] by {
        if j < idx {
            assert(v.remove(idx)[j] == v[j]);
        } else if j > idx {
            assert(v.remove(idx)[j - 1] == v[j]);
        }
    }
}

proof fn lemma_device_views_update(v: Seq<Device>, idx: int, d: Device)
    requires
        0 <= idx < v.len(),
    ensures
        device_views(v.update(idx, d)) =~= device_views(v).update(idx, d@),
{
    broadcast use group_store_views;

    assert forall|j: int| 0 <= j < v.len() implies device_views(v.update(idx, d))[j]
        == device_views(v).update(idx, d@)[j] by {
        if j != idx {
            assert(v.update(idx, d)[j] == v[j]);
        } else {
            assert(v.update(idx, d)[j] == d);
        }
    }
}

proof fn lemma_wf_push_house(s: StoreView, h: HouseView)
    requires
        s.wf(),
        !s.has_house(h.id),
    ensures
        s.with_house(h).wf(),
{
    let t = s.with_house(h);
    let n = s.houses.len() as int;
    assert forall|i: int, j: int| 0 <= i < j < t.houses.len() implies (#[trigger] t.houses[i]).id
        != (#[trigger] t.houses[j]).id by {
        if j < n {
            assert(t.houses[i] == s.houses[i]);
            assert(t.houses[j] == s.houses[j]);
        } else {
            assert(t.houses[i] == s.houses[i]);
            assert(t.houses[j] == h);
            if s.houses[i].id == h.id {
                assert(s.has_house(h.id));
            }
        }
    }
    assert forall|i: int| 0 <= i < t.rooms.len() implies t.has_house(
        (#[trigger] t.rooms[i]).house,
    ) by {
        assert(s.has_house(s.rooms[i].house));
        let k = choose|k: int| 0 <= k < s.houses.len() && (#[trigger] s.houses[k]).id
            == s.rooms[i].house;
        assert(t.houses[k] == s.houses[k]);
    }
    assert forall|i: int| 0 <= i < t.devices.len() implies t.has_room(
        (#[trigger] t.devices[i]).room,
    ) by {
        assert(s.has_room(s.devices[i].room));
        let k = choose|k: int| 0 <= k < s.rooms.len() && (#[trigger] s.rooms[k]).id
            == s.devices[i].room;
        assert(t.rooms[k] == s.rooms[k]);
    }
}

proof fn lemma_wf_push_room(s: StoreView, r: RoomView)
    requires
        s.wf(),
        !s.has_room(r.id),
        s.has_house(r.house),
    ensures
        s.with_room(r).wf(),
{
    let t = s.with_room(r);
    let n = s.rooms.len() as int;
    assert forall|i: int, j: int| 0 <= i < j < t.rooms.len() implies (#[trigger] t.rooms[i]).id
        != (#[trigger] t.rooms[j]).id by {
        if j < n {
            assert(t.rooms[i] == s.rooms[i]);
            assert(t.rooms[j] == s.rooms[j]);
        } else {
            assert(t.rooms[i] == s.rooms[i]);
            assert(t.rooms[j] == r);
            if s.rooms[i].id == r.id {
                assert(s.has_room(r.id));
            }
        }
    }
    assert forall|i: int| 0 <= i < t.rooms.len() implies t.has_house(
        (#[trigger] t.rooms[i]).house,
    ) by {
        if i < n {
            assert(t.rooms[i] == s.rooms[i]);
            assert(s.has_house(s.rooms[i].house));
            let k = choose|k: int| 0 <= k < s.houses.len() && (#[trigger] s.houses[k]).id
                == s.rooms[i].house;
            assert(t.houses[k] == s.houses[k]);
        } else {
            assert(t.rooms[i] == r);
            let k = choose|k: int| 0 <= k < s.houses.len() && (#[trigger] s.houses[k]).id
                == r.house;
            assert(t.houses[k] == s.houses[k]);
        }
    }
    assert forall|i: int| 0 <= i < t.devices.len() implies t.has_room(
        (#[trigger] t.devices[i]).room,
    ) by {
        assert(s.has_room(s.devices[i].room));
        let k = choose|k: int| 0 <= k < s.rooms.len() && (#[trigger] s.rooms[k]).id
            == s.devices[i].room;
        assert(t.rooms[k] == s.rooms[k]);
    }
}

proof fn lemma_wf_push_device(s: StoreView, d: DeviceView)
    requires
        s.wf(),
        !s.has_device(d.id),
        s.has_room(d.room),
    ensures
        s.with_device(d).wf(),
{
    let t = s.with_device(d);
    let n = s.devices.len() as int;
    assert forall|i: int, j: int| 0 <= i < j < t.devices.len() implies (#[trigger] t.devices[i]).id
        != (#[trigger] t.devices[j]).id by {
        if j < n {
            assert(t.devices[i] == s.devices[i]);
            assert(t.devices[j] == s.devices[j]);
        } else {
            assert(t.devices[i] == s.devices[i]);
            assert(t.devices[j] == d);
            if s.devices[i].id == d.id {
                assert(s.has_device(d.id));
            }
        }
    }
    assert forall|i: int| 0 <= i < t.rooms.len() implies t.has_house(
        (#[trigger] t.rooms[i]).house,
    ) by {
        assert(s.has_house(s.rooms[i].house));
        let k = choose|k: int| 0 <= k < s.houses.len() && (#[trigger] s.houses[k]).id
            == s.rooms[i].house;
        assert(t.houses[k] == s.houses[k]);
    }
    assert forall|i: int| 0 <= i < t.devices.len() implies t.has_room(
        (#[trigger] t.devices[i]).room,
    ) by {
        if i < n {
            assert(t.devices[i] == s.devices[i]);
            assert(s.has_room(s.devices[i].room));
            let k = choose|k: int| 0 <= k < s.rooms.len() && (#[trigger] s.rooms[k]).id
                == s.devices[i].room;
            assert(t.rooms[k] == s.rooms[k]);
        } else {
            assert(t.devices[i] == d);
            let k = choose|k: int| 0 <= k < s.rooms.len() && (#[trigger] s.rooms[k]).id == d.room;
            assert(t.rooms[k] == s.rooms[k]);
        }
    }
}

proof fn lemma_wf_remove_house(s: StoreView, idx: int)
    requires
        s.wf(),
        0 <= idx < s.houses.len(),
        !s.house_referenced(s.houses[idx].id),
    ensures
        s.without_house(idx).wf(),
{
    let t = s.without_house(idx);
    assert forall|i: int, j: int| 0 <= i < j < t.houses.len() implies (#[trigger] t.houses[i]).id
        != (#[trigger] t.houses[j]).id by {
        let i0 = if i < idx { i } else { i + 1 };
        let j0 = if j < idx { j } else { j + 1 };
        assert(t.houses[i] == s.houses[i0]);
        assert(t.houses[j] == s.houses[j0]);
    }
    assert forall|i: int| 0 <= i < t.rooms.len() implies t.has_house(
        (#[trigger] t.rooms[i]).house,
    ) by {
        assert(s.has_house(s.rooms[i].house));
        let k = choose|k: int| 0 <= k < s.houses.len() && (#[trigger] s.houses[k]).id
            == s.rooms[i].house;
        if k == idx {
            assert(s.rooms[i].house == s.houses[idx].id);
            assert(false);
        }
        let k2 = if k < idx { k } else { k - 1 };
        assert(t.houses[k2] == s.houses[k]);
    }
    assert forall|i: int| 0 <= i < t.devices.len() implies t.has_room(
        (#[trigger] t.devices[i]).room,
    ) by {
        assert(s.has_room(s.devices[i].room));
        let k = choose|k: int| 0 <= k < s.rooms.len() && (#[trigger] s.rooms[k]).id
            == s.devices[i].room;
        assert(t.rooms[k] == s.rooms[k]);
    }
}

proof fn lemma_wf_remove_room(s: StoreView, idx: int)
    requires
        s.wf(),
        0 <= idx < s.rooms.len(),
        !s.room_referenced(s.rooms[idx].id),
    ensures
        s.without_room(idx).wf(),
{
    let t = s.without_room(idx);
    assert forall|i: int, j: int| 0 <= i < j < t.rooms.len() implies (#[trigger] t.rooms[i]).id
        != (#[trigger] t.rooms[j]).id by {
        let i0 = if i < idx { i } else { i + 1 };
        let j0 = if j < idx { j } else { j + 1 };
        assert(t.rooms[i] == s.rooms[i0]);
        assert(t.rooms[j] == s.rooms[j0]);
    }
    assert forall|i: int| 0 <= i < t.rooms.len() implies t.has_house(
        (#[trigger] t.rooms[i]).house,
    ) by {
        let i0 = if i < idx { i } else { i + 1 };
        assert(t.rooms[i] == s.rooms[i0]);
        assert(s.has_house(s.rooms[i0].house));
        let k = choose|k: int| 0 <= k < s.houses.len() && (#[trigger] s.houses[k]).id
            == s.rooms[i0].house;
        assert(t.houses[k] == s.houses[k]);
    }
    assert forall|i: int| 0 <= i < t.devices.len() implies t.has_room(
        (#[trigger] t.devices[i]).room,
    ) by {
        assert(s.has_room(s.devices[i].room));
        let k = choose|k: int| 0 <= k < s.rooms.len() && (#[trigger] s.rooms[k]).id
            == s.devices[i].room;
        if k == idx {
            assert(s.devices[i].room == s.rooms[idx].id);
            assert(false);
        }
        let k2 = if k < idx { k } else { k - 1 };
        assert(t.rooms[k2] == s.rooms[k]);
    }
}

proof fn lemma_wf_remove_device(s: StoreView, idx: int)
    requires
        s.wf(),
        0 <= idx < s.devices.len(),
    ensures
        s.without_device(idx).wf(),
{
    let t = s.without_device(idx);
    assert forall|i: int, j: int| 0 <= i < j < t.devices.len() implies (#[trigger] t.devices[i]).id
        != (#[trigger] t.devices[j]).id by {
        let i0 = if i < idx { i } else { i + 1 };
        let j0 = if j < idx { j } else { j + 1 };
        assert(t.devices[i] == s.devices[i0]);
        assert(t.devices[j] == s.devices[j0]);
    }
    assert forall|i: int| 0 <= i < t.rooms.len() implies t.has_house(
        (#[trigger] t.rooms[i]).house,
    ) by {
        assert(s.has_house(s.rooms[i].house));
        let k = choose|k: int| 0 <= k < s.houses.len() && (#[trigger] s.houses[k]).id
            == s.rooms[i].house;
        assert(t.houses[k] == s.houses[k]);
    }
    assert forall|i: int| 0 <= i < t.devices.len() implies t.has_room(
        (#[trigger] t.devices[i]).room,
    ) by {
        let i0 = if i < idx { i } else { i + 1 };
        assert(t.devices[i] == s.devices[i0]);
        assert(s.has_room(s.devices[i0].room));
        let k = choose|k: int| 0 <= k < s.rooms.len() && (#[trigger] s.rooms[k]).id
            == s.devices[i0].room;
        assert(t.rooms[k] == s.rooms[k]);
    }
}

proof fn lemma_wf_toggle(s: StoreView, idx: int)
    requires
        s.wf(),
        0 <= idx < s.devices.len(),
    ensures
        s.with_device_toggled(idx).wf(),
{
    let t = s.with_device_toggled(idx);
    assert forall|i: int, j: int| 0 <= i < j < t.devices.len() implies (#[trigger] t.devices[i]).id
        != (#[trigger] t.devices[j]).id by {
        assert(t.devices[i].id == s.devices[i].id);
        assert(t.devices[j].id == s.devices[j].id);
    }
    assert forall|i: int| 0 <= i < t.rooms.len() implies t.has_house(
        (#[trigger] t.rooms[i]).house,
    ) by {
        assert(s.has_house(s.rooms[i].house));
        let k = choose|k: int| 0 <= k < s.houses.len() && (#[trigger] s.houses[k]).id
            == s.rooms[i].house;
        assert(t.houses[k] == s.houses[k]);
    }
    assert forall|i: int| 0 <= i < t.devices.len() implies t.has_room(
        (#[trigger] t.devices[i]).room,
    ) by {
        assert(t.devices[i].room == s.devices[i].room);
        assert(s.has_room(s.devices[i].room));
        let k = choose|k: int| 0 <= k < s.rooms.len() && (#[trigger] s.rooms[k]).id
            == s.devices[i].room;
        assert(t.rooms[k] == s.rooms[k]);
    }
}


/// The name and id of each device in a batch, in order.
pub open spec fn device_pairs(ds: Seq<DeviceView>) -> Seq<(Seq<char>, Seq<char>)> {
    ds.map_values(|d: DeviceView| (d.name, d.id))
}

/// The header line of a house report.
pub open spec fn house_header(h: HouseView) -> Seq<char> {
    "В доме "@ + h.name + " установлены следующие приборы: \n"@
}

/// One full device report per room, concatenated in room order.
pub open spec fn rooms_report(s: StoreView, rooms: Seq<RoomView>) -> Seq<char>
    decreases rooms.len(),
{
    if rooms.len() == 0 {
        Seq::<char>::empty()
    } else {
        rooms_report(s, rooms.drop_last()) + full_report_spec(
            <Device as Item>::label_spec(),
            device_pairs(devices_matching(s.devices, rooms.last().id)),
        )
    }
}

/// The whole report of house `h`: its header, then the device report of
/// each of its rooms.
pub open spec fn house_report_spec(s: StoreView, h: HouseView) -> Seq<char> {
    house_header(h) + rooms_report(s, rooms_matching(s.rooms, h.id))
}

/// Some room of house `hid` holds no device, so its report fails.
pub open spec fn some_room_empty(s: StoreView, hid: Seq<char>) -> bool {
    exists|i: int|
        0 <= i < rooms_matching(s.rooms, hid).len() && devices_matching(
            s.devices,
            (#[trigger] rooms_matching(s.rooms, hid)[i]).id,
        ).len() == 0
}

proof fn lemma_rooms_report_step(s: StoreView, rv: Seq<RoomView>, i: int)
    requires
        0 <= i < rv.len(),
    ensures
        rooms_report(s, rv.take(i + 1)) == rooms_report(s, rv.take(i)) + full_report_spec(
            <Device as Item>::label_spec(),
            device_pairs(devices_matching(s.devices, rv[i].id)),
        ),
{
    assert(rv.take(i + 1).drop_last() =~= rv.take(i));
    assert(rv.take(i + 1).last() == rv[i]);
}

} // verus!
