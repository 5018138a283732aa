//! The emulated-input (libei) client: context, seat and virtual device, and
//! the session that ties them together.

use vstd::prelude::*;
use crate::audio::AudioInputError;

verus! {

/// A libei client context.
pub struct Context;

/// A seat of the libei context.
pub struct Seat;

/// A virtual input device: a stand-in that accepts events and does nothing
/// with them. Its ghost fields record what kind of device it is and the
/// events it has been handed, in order.
pub struct Device {
    pub kind: Ghost<DeviceType>,
    pub log: Ghost<Seq<DeviceEvent>>,
}

/// Kind of virtual device.
#[derive(Debug, Clone, Copy, PartialEq, Eq, Structural)]
pub enum DeviceType {
    Pointer,
    Keyboard,
}

/// Button transition.
#[derive(Debug, Clone, Copy, PartialEq, Eq, Structural)]
pub enum ButtonState {
    Pressed,
    Released,
}

/// Key transition.
#[derive(Debug, Clone, Copy, PartialEq, Eq, Structural)]
pub enum KeyState {
    Pressed,
    Released,
}

/// An event handed to a virtual device.
#[derive(Debug, Clone, Copy, PartialEq, Eq, Structural)]
pub enum DeviceEvent {
    PointerButton { button: u32, state: ButtonState },
    KeyboardKey { key: u32, state: KeyState },
    KeyboardModifiers { mods: u32 },
    TouchUp { slot: i32 },
    TouchFrame,
}

/// The button transition of a press (`true`) or a release.
pub open spec fn button_state(pressed: bool) -> ButtonState {
    if pressed {
        ButtonState::Pressed
    } else {
        ButtonState::Released
    }
}

/// The key transition of a press (`true`) or a release.
pub open spec fn key_state(pressed: bool) -> KeyState {
    if pressed {
        KeyState::Pressed
    } else {
        KeyState::Released
    }
}

/// `new` is `old` after the device, if present, received `ev`: the same
/// device with `ev` appended to what it received; without a device, nothing
/// changed. Context and seat stay as they were.
pub open spec fn delivered(old: LibeiContextImpl, new: LibeiContextImpl, ev: DeviceEvent) -> bool {
    &&& new.context == old.context
    &&& new.seat == old.seat
    &&& match old.device {
        Some(d) => new.device matches Some(n) && n.kind == d.kind && n.log@ == d.log@.push(ev),
        None => new.device is None,
    }
}

impl Context {
    /// Opens a client context under the given name.
    pub fn new(_name: &str) -> (r: Result<Context, AudioInputError>)
        ensures
            r is Ok,
    {
        Ok(Context)
    }

    /// Connects the context to the compositor.
    pub fn connect(&self) -> (r: Result<(), AudioInputError>)
        ensures
            r is Ok,
    {
        Ok(())
    }

    /// The seat of the given name.
    pub fn get_seat(&self, _name: &str) -> (r: Result<Seat, AudioInputError>)
        ensures
            r is Ok,
    {
        Ok(Seat)
    }
}

impl Seat {
    /// Creates a virtual device of the given kind on this seat.
    pub fn create_device(&self, _name: &str, types: DeviceType) -> (r: Result<Device, AudioInputError>)
        ensures
            r matches Ok(d) && d.kind@ == types && d.log@ == Seq::<DeviceEvent>::empty(),
    {
        Ok(Device { kind: Ghost(types), log: Ghost(Seq::empty()) })
    }
}

impl Device {
    /// Emits a pointer button transition.
    pub fn pointer_button(&mut self, button: u32, state: ButtonState) -> (r: Result<(), AudioInputError>)
        ensures
            r is Ok,
            final(self).kind == old(self).kind,
            final(self).log@ == old(self).log@.push((DeviceEvent::PointerButton { button, state })),
    {
        self.log = Ghost(self.log@.push(DeviceEvent::PointerButton { button, state }));
        Ok(())
    }

    /// Emits a key transition.
    pub fn keyboard_key(&mut self, key: u32, state: KeyState) -> (r: Result<(), AudioInputError>)
        ensures
            r is Ok,
            final(self).kind == old(self).kind,
            final(self).log@ == old(self).log@.push((DeviceEvent::KeyboardKey { key, state })),
    {
        self.log = Ghost(self.log@.push(DeviceEvent::KeyboardKey { key, state }));
        Ok(())
    }

    /// Sets the modifier state.
    pub fn keyboard_modifiers(&mut self, mods: u32) -> (r: Result<(), AudioInputError>)
        ensures
            r is Ok,
            final(self).kind == old(self).kind,
            final(self).log@ == old(self).log@.push((DeviceEvent::KeyboardModifiers { mods })),
    {
        self.log = Ghost(self.log@.push(DeviceEvent::KeyboardModifiers { mods }));
        Ok(())
    }

    /// Lifts the touch in `slot`.
    pub fn touch_up(&mut self, slot: i32) -> (r: Result<(), AudioInputError>)
        ensures
            r is Ok,
            final(self).kind == old(self).kind,
            final(self).log@ == old(self).log@.push((DeviceEvent::TouchUp { slot })),
    {
        self.log = Ghost(self.log@.push(DeviceEvent::TouchUp { slot }));
        Ok(())
    }

    /// Ends a touch frame.
    pub fn touch_frame(&mut self) -> (r: Result<(), AudioInputError>)
        ensures
            r is Ok,
            final(self).kind == old(self).kind,
            final(self).log@ == old(self).log@.push(DeviceEvent::TouchFrame),
    {
        self.log = Ghost(self.log@.push(DeviceEvent::TouchFrame));
        Ok(())
    }
}

/// The libei session of the input engine: disconnected until `connect`
/// creates the context, the `default` seat and a pointer device.
pub struct LibeiContextImpl {
    pub context: Option<Context>,
    pub seat: Option<Seat>,
    pub device: Option<Device>,
}

impl LibeiContextImpl {
    /// Whether the session holds a device to inject into.
    pub open spec fn is_connected(&self) -> bool {
        &&& self.context is Some
        &&& self.seat is Some
        &&& self.device is Some
    }

    /// Whether the session holds nothing.
    pub open spec fn is_disconnected(&self) -> bool {
        &&& self.context is None
        &&& self.seat is None
        &&& self.device is None
    }

    /// A disconnected session.
    pub fn new() -> (r: Result<LibeiContextImpl, AudioInputError>)
        ensures
            r matches Ok(s) && s.is_disconnected(),
    {
        Ok(LibeiContextImpl { context: None, seat: None, device: None })
    }

    /// Opens the `catremote` context, its `default` seat and a
    /// `catremote-virtual` pointer device, and keeps them.
    pub fn connect(&mut self) -> (r: Result<(), AudioInputError>)
        ensures
            r is Ok,
            final(self).is_connected(),
            final(self).device matches Some(d) && d.kind@ == DeviceType::Pointer && d.log@ == Seq::<
                DeviceEvent,
            >::empty(),
    {
        let context = Context::new("catremote")?;
        context.connect()?;
        let seat = context.get_seat("default")?;
        let device = seat.create_device("catremote-virtual", DeviceType::Pointer)?;
        self.context = Some(context);
        self.seat = Some(seat);
        self.device = Some(device);
        Ok(())
    }

    /// Drops the device, seat and context.
    pub fn disconnect(&mut self) -> (r: Result<(), AudioInputError>)
        ensures
            r is Ok,
            final(self).is_disconnected(),
    {
        self.device = None;
        self.seat = None;
        self.context = None;
        Ok(())
    }

    /// Hands a pointer button transition (pressed or released) to the device
    /// when connected; nothing otherwise.
    pub fn inject_pointer_button(&mut self, button: u32, pressed: bool) -> (r: Result<(), AudioInputError>)
        ensures
            r is Ok,
            delivered(*old(self), *final(self), (DeviceEvent::PointerButton { button, state: button_state(pressed) })),
    {
        if let Some(device) = &mut self.device {
            let state = if pressed {
                ButtonState::Pressed
            } else {
                ButtonState::Released
            };
            device.pointer_button(button, state)?;
        }
        Ok(())
    }

    /// Hands a key transition (pressed or released) to the device when
    /// connected; nothing otherwise.
    pub fn inject_keyboard_key(&mut self, key: u32, pressed: bool) -> (r: Result<(), AudioInputError>)
        ensures
            r is Ok,
            delivered(*old(self), *final(self), (DeviceEvent::KeyboardKey { key, state: key_state(pressed) })),
    {
        if let Some(device) = &mut self.device {
            let state = if pressed {
                KeyState::Pressed
            } else {
                KeyState::Released
            };
            device.keyboard_key(key, state)?;
        }
        Ok(())
    }

    /// Hands a modifier state to the device when connected; nothing otherwise.
    pub fn inject_keyboard_modifiers(&mut self, mods: u32) -> (r: Result<(), AudioInputError>)
        ensures
            r is Ok,
            delivered(*old(self), *final(self), (DeviceEvent::KeyboardModifiers { mods })),
    {
        if let Some(device) = &mut self.device {
            device.keyboard_modifiers(mods)?;
        }
        Ok(())
    }

    /// Hands a touch lift to the device when connected; nothing otherwise.
    pub fn inject_touch_up(&mut self, slot: i32) -> (r: Result<(), AudioInputError>)
        ensures
            r is Ok,
            delivered(*old(self), *final(self), (DeviceEvent::TouchUp { slot })),
    {
        if let Some(device) = &mut self.device {
            device.touch_up(slot)?;
        }
        Ok(())
    }

    /// Hands a touch frame end to the device when connected; nothing otherwise.
    pub fn inject_touch_frame(&mut self) -> (r: Result<(), AudioInputError>)
        ensures
            r is Ok,
            delivered(*old(self), *final(self), DeviceEvent::TouchFrame),
    {
        if let Some(device) = &mut self.device {
            device.touch_frame()?;
        }
        Ok(())
    }
}

} // verus!
