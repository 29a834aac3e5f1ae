//! The decision core of the desktop client that watches one device: its
//! screen state, the messages the view can raise, and what each message
//! does to the state and asks of the network. The rendering and the HTTP
//! calls themselves live outside the library.

use vstd::prelude::*;

use crate::models::Device;

verus! {

/// The two screens of the device view.
#[derive(Debug, Clone, PartialEq, Eq, Structural)]
pub enum SmartDeviceState {
    Idle,
    Connected,
}

impl Default for SmartDeviceState {
    fn default() -> (r: Self)
        ensures
            r == SmartDeviceState::Idle,
    {
        SmartDeviceState::Idle
    }
}

/// A message raised by the view.
#[derive(Debug, Clone)]
pub enum SmartDeviceMessage {
    Connected(bool),
    Connect,
    InputChanged(String),
    TurnLamp,
    Delete,
}

/// The network work that a message asks for; the caller performs it and
/// hands the fetched device back.
pub enum GuiAction {
    /// Fetch the id list and then the first device on it; the result goes
    /// back through `apply_fetched_device`.
    FetchFirstDevice,
    /// Toggle the state of the named device, then fetch it again; the
    /// result goes back through `apply_refetched_device`.
    ToggleAndRefetch(String),
    /// Nothing to do.
    NoAction,
}

/// The state of the client: the server address under edit and the device
/// being shown.
pub struct SmartDevice {
    pub _id: String,
    pub input_url: String,
    pub device: Device,
    pub connected: bool,
    pub state: SmartDeviceState,
}

impl Default for SmartDevice {
    fn default() -> (r: Self)
        ensures
            r._id@ == "0"@,
            r.input_url@ == "http://127.0.0.1:8080"@,
            r.device.id@ =~= Seq::<char>::empty(),
            r.device.name@ =~= Seq::<char>::empty(),
            r.device.type_@ =~= Seq::<char>::empty(),
            r.device.address is None,
            r.device.state == true,
            r.device.variable == 0,
            r.device.room@ =~= Seq::<char>::empty(),
            r.connected == false,
            r.state == SmartDeviceState::Idle,
    {
        SmartDevice {
            _id: String::from_str("0"),
            input_url: String::from_str("http://127.0.0.1:8080"),
            device: Device {
                id: String::new(),
                name: String::new(),
                type_: String::new(),
                address: None,
                state: true,
                variable: 0,
                room: String::new(),
            },
            connected: false,
            state: SmartDeviceState::Idle,
        }
    }
}

impl SmartDevice {
    /// The caption of the toggle button for a device state.
    pub fn text_state(s: bool) -> (r: &'static str)
        ensures
            s ==> r@ == "Turn Off"@,
            !s ==> r@ == "Turn on"@,
    {
        if s {
            "Turn Off"
        } else {
            "Turn on"
        }
    }

    /// Decide what a message does: how the state changes and what network
    /// work the caller must perform.
    pub fn update(&mut self, message: SmartDeviceMessage) -> (a: GuiAction)
        ensures
            match message {
                SmartDeviceMessage::Connect => a == GuiAction::FetchFirstDevice
                    && *final(self) == *old(self),
                SmartDeviceMessage::Connected(c) => a == GuiAction::NoAction
                    && final(self).connected == c
                    && final(self)._id == old(self)._id
                    && final(self).input_url == old(self).input_url
                    && final(self).device == old(self).device
                    && final(self).state == old(self).state,
                SmartDeviceMessage::TurnLamp => *final(self) == *old(self)
                    && (a matches GuiAction::ToggleAndRefetch(id) && id@ == old(self).device.id@),
                SmartDeviceMessage::Delete => a == GuiAction::NoAction
                    && *final(self) == *old(self),
                SmartDeviceMessage::InputChanged(v) => a == GuiAction::NoAction
                    && final(self).input_url == v
                    && final(self)._id == old(self)._id
                    && final(self).device == old(self).device
                    && final(self).connected == old(self).connected
                    && final(self).state == old(self).state,
            },
    {
        match message {
            SmartDeviceMessage::Connect => GuiAction::FetchFirstDevice,
            SmartDeviceMessage::Connected(c) => {
                self.connected = c;
                GuiAction::NoAction
            },
            SmartDeviceMessage::TurnLamp => GuiAction::ToggleAndRefetch(self.device.id.clone()),
            SmartDeviceMessage::Delete => GuiAction::NoAction,
            SmartDeviceMessage::InputChanged(v) => {
                self.input_url = v;
                GuiAction::NoAction
            },
        }
    }

    /// Take the device fetched after a connect: show it and move to the
    /// connected screen.
    pub fn apply_fetched_device(&mut self, d: Device)
        ensures
            final(self).device == d,
            final(self).connected == true,
            final(self).state == SmartDeviceState::Connected,
            final(self)._id == old(self)._id,
            final(self).input_url == old(self).input_url,
    {
        self.device = d;
        self.connected = true;
        self.state = SmartDeviceState::Connected;
    }

    /// Take the device fetched again after a toggle: only the shown
    /// device changes; the screen and the connection flag stay as they
    /// were.
    pub fn apply_refetched_device(&mut self, d: Device)
        ensures
            final(self).device == d,
            final(self).connected == old(self).connected,
            final(self).state == old(self).state,
            final(self)._id == old(self)._id,
            final(self).input_url == old(self).input_url,
    {
        self.device = d;
    }
}

} // verus!
