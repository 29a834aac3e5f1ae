//! The three entities of the store — houses, rooms and devices — their
//! creation forms, and the naming capability that report generation uses.

use vstd::prelude::*;

verus! {

/// A named entity with an identifier. Report generation operates over
/// anything exposing these, together with a label for the entity kind.
pub trait Item {
    spec fn name_spec(&self) -> Seq<char>;

    spec fn id_spec(&self) -> Seq<char>;

    spec fn label_spec() -> Seq<char>;

    fn name(&self) -> (r: String)
        ensures
            r@ == self.name_spec(),
    ;

    fn id(&self) -> (r: String)
        ensures
            r@ == self.id_spec(),
    ;

    /// The label naming the concrete entity kind in report headers.
    fn type_label() -> (r: String)
        ensures
            r@ == Self::label_spec(),
    ;
}

/// Top-level container entity.
pub struct House {
    pub id: String,
    pub name: String,
}

/// Mathematical value of a `House`.
#[verifier::ext_equal]
pub struct HouseView {
    pub id: Seq<char>,
    pub name: Seq<char>,
}

impl View for House {
    type V = HouseView;

    open spec fn view(&self) -> HouseView {
        HouseView { id: self.id@, name: self.name@ }
    }
}

impl Clone for House {
    fn clone(&self) -> (r: Self)
        ensures
            r == *self,
    {
        House { id: self.id.clone(), name: self.name.clone() }
    }
}

impl Item for House {
    open spec fn name_spec(&self) -> Seq<char> {
        self.name@
    }

    open spec fn id_spec(&self) -> Seq<char> {
        self.id@
    }

    open spec fn label_spec() -> Seq<char> {
        "House"@
    }

    fn name(&self) -> (r: String) {
        self.name.clone()
    }

    fn id(&self) -> (r: String) {
        self.id.clone()
    }

    fn type_label() -> (r: String) {
        String::from_str("House")
    }
}

/// Mid-level container owned by a `House`.
pub struct Room {
    pub id: String,
    pub name: String,
    pub house: String,
}

/// Mathematical value of a `Room`.
#[verifier::ext_equal]
pub struct RoomView {
    pub id: Seq<char>,
    pub name: Seq<char>,
    pub house: Seq<char>,
}

impl View for Room {
    type V = RoomView;

    open spec fn view(&self) -> RoomView {
        RoomView { id: self.id@, name: self.name@, house: self.house@ }
    }
}

impl Clone for Room {
    fn clone(&self) -> (r: Self)
        ensures
            r == *self,
    {
        Room { id: self.id.clone(), name: self.name.clone(), house: self.house.clone() }
    }
}

impl Item for Room {
    open spec fn name_spec(&self) -> Seq<char> {
        self.name@
    }

    open spec fn id_spec(&self) -> Seq<char> {
        self.id@
    }

    open spec fn label_spec() -> Seq<char> {
        "Room"@
    }

    fn name(&self) -> (r: String) {
        self.name.clone()
    }

    fn id(&self) -> (r: String) {
        self.id.clone()
    }

    fn type_label() -> (r: String) {
        String::from_str("Room")
    }
}

/// Leaf entity owned by a `Room`, with a boolean state and an integer
/// variable.
pub struct Device {
    pub id: String,
    pub name: String,
    pub type_: String,
    pub address: Option<String>,
    pub state: bool,
    pub variable: i32,
    pub room: String,
}

/// Mathematical value of a `Device`.
#[verifier::ext_equal]
pub struct DeviceView {
    pub id: Seq<char>,
    pub name: Seq<char>,
    pub type_: Seq<char>,
    pub address: Option<Seq<char>>,
    pub state: bool,
    pub variable: i32,
    pub room: Seq<char>,
}

impl View for Device {
    type V = DeviceView;

    open spec fn view(&self) -> DeviceView {
        DeviceView {
            id: self.id@,
            name: self.name@,
            type_: self.type_@,
            address: match self.address {
                Some(a) => Some(a@),
                None => None,
            },
            state: self.state,
            variable: self.variable,
            room: self.room@,
        }
    }
}

impl Clone for Device {
    fn clone(&self) -> (r: Self)
        ensures
            r == *self,
    {
        Device {
            id: self.id.clone(),
            name: self.name.clone(),
            type_: self.type_.clone(),
            address: match &self.address {
                Some(a) => Some(a.clone()),
                None => None,
            },
            state: self.state,
            variable: self.variable,
            room: self.room.clone(),
        }
    }
}

impl Item for Device {
    open spec fn name_spec(&self) -> Seq<char> {
        self.name@
    }

    open spec fn id_spec(&self) -> Seq<char> {
        self.id@
    }

    open spec fn label_spec() -> Seq<char> {
        "Device"@
    }

    fn name(&self) -> (r: String) {
        self.name.clone()
    }

    fn id(&self) -> (r: String) {
        self.id.clone()
    }

    fn type_label() -> (r: String) {
        String::from_str("Device")
    }
}

/// Form describing a device to create; the store assigns the id.
pub struct NewDevice {
    pub name: String,
    pub typ: String,
    pub address: String,
    pub room: String,
}

impl NewDevice {
    pub fn new(name: &str, typ: &str, address: &str, room: &str) -> (r: Self)
        ensures
            r.name@ == name@,
            r.typ@ == typ@,
            r.address@ == address@,
            r.room@ == room@,
    {
        NewDevice {
            name: String::from_str(name),
            typ: String::from_str(typ),
            address: String::from_str(address),
            room: String::from_str(room),
        }
    }
}

/// Form describing a room to create; the store assigns the id.
pub struct NewRoom {
    pub name: String,
    pub house: String,
}

impl NewRoom {
    pub fn new(name: &str, house: &str) -> (r: Self)
        ensures
            r.name@ == name@,
            r.house@ == house@,
    {
        NewRoom { name: String::from_str(name), house: String::from_str(house) }
    }
}

/// Form describing a house to create; the store assigns the id.
pub struct NewHouse {
    pub name: String,
}

impl NewHouse {
    pub fn new(name: &str) -> (r: Self)
        ensures
            r.name@ == name@,
    {
        NewHouse { name: String::from_str(name) }
    }
}

} // verus!
