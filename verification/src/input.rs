//! Mapping of game controller input to pointer and keyboard actions.

use vstd::prelude::*;

verus! {

/// evdev event type of key and button events.
pub const EV_KEY: u16 = 0x01;

/// evdev event type of absolute axis events.
pub const EV_ABS: u16 = 0x03;

/// A raw controller event: evdev type, code and value.
#[derive(Debug, Clone, Copy, PartialEq, Eq, Structural)]
pub struct ControllerEvent {
    pub event_type: u16,
    pub code: u16,
    pub value: i32,
}

/// The analog stick axes the mapper uses.
#[derive(Debug, Clone, Copy, PartialEq, Eq, Structural)]
pub enum StickAxis {
    /// Left stick X (`ABS_X`): horizontal pointer motion.
    LeftX,
    /// Left stick Y (`ABS_Y`): vertical pointer motion.
    LeftY,
    /// Right stick X (`ABS_RX`): horizontal scrolling at half speed.
    RightX,
    /// Right stick Y (`ABS_RY`): vertical scrolling at half speed.
    RightY,
}

/// What one controller event asks for.
#[derive(Debug, Clone, Copy, PartialEq, Eq, Structural)]
pub enum ControllerAction {
    /// An axis moved to `value` (of a full scale of 32767).
    Axis { axis: StickAxis, value: i32 },
    /// A pointer button changed.
    Button { button: u32, pressed: bool },
    /// A keyboard key changed.
    Key { key: u32, pressed: bool },
}

/// Pointer button of a controller button code (0 for none): A left, B right,
/// X middle, Y back, TL forward, TR back, thumb buttons 7 and 8.
pub open spec fn button_for_code(code: u16) -> u32 {
    if code == 0x130 {
        1
    } else if code == 0x131 {
        3
    } else if code == 0x133 {
        2
    } else if code == 0x134 {
        4
    } else if code == 0x136 {
        5
    } else if code == 0x137 {
        6
    } else if code == 0x13a {
        7
    } else if code == 0x13b {
        8
    } else {
        0
    }
}

/// Key of a controller button code (0 for none): SELECT, START and MODE.
pub open spec fn key_for_code(code: u16) -> u32 {
    if code == 0x13c {
        0x3b
    } else if code == 0x13d {
        0x3c
    } else if code == 0x13e {
        0x3d
    } else {
        0
    }
}

/// Stick axis of an absolute axis code.
pub open spec fn axis_for_code(code: u16) -> Option<StickAxis> {
    if code == 0x00 {
        Some(StickAxis::LeftX)
    } else if code == 0x01 {
        Some(StickAxis::LeftY)
    } else if code == 0x03 {
        Some(StickAxis::RightX)
    } else if code == 0x04 {
        Some(StickAxis::RightY)
    } else {
        None
    }
}

/// The actions of a controller event: an axis move for the four stick axes;
/// for a button, a pointer button and/or key change (pressed iff value is 1);
/// nothing otherwise.
pub open spec fn controller_actions(ev: ControllerEvent) -> Seq<ControllerAction> {
    if ev.event_type == EV_ABS {
        match axis_for_code(ev.code) {
            Some(a) => seq![ControllerAction::Axis { axis: a, value: ev.value }],
            None => Seq::empty(),
        }
    } else if ev.event_type == EV_KEY {
        let pressed = ev.value == 1;
        (if button_for_code(ev.code) != 0 {
            seq![ControllerAction::Button { button: button_for_code(ev.code), pressed }]
        } else {
            Seq::empty()
        }) + (if key_for_code(ev.code) != 0 {
            seq![ControllerAction::Key { key: key_for_code(ev.code), pressed }]
        } else {
            Seq::empty()
        })
    } else {
        Seq::empty()
    }
}

fn button_code(code: u16) -> (b: u32)
    ensures
        b == button_for_code(code),
{
    match code {
        0x130 => 1,
        0x131 => 3,
        0x133 => 2,
        0x134 => 4,
        0x136 => 5,
        0x137 => 6,
        0x13a => 7,
        0x13b => 8,
        _ => 0,
    }
}

fn key_code(code: u16) -> (k: u32)
    ensures
        k == key_for_code(code),
{
    match code {
        0x13c => 0x3b,
        0x13d => 0x3c,
        0x13e => 0x3d,
        _ => 0,
    }
}

/// Maps a controller event to pointer and keyboard actions; no event asks for
/// more than one.
pub fn map_controller_event(ev: ControllerEvent) -> (actions: Vec<ControllerAction>)
    ensures
        actions@ == controller_actions(ev),
        actions@.len() <= 1,
{
    let mut actions: Vec<ControllerAction> = Vec::new();
    if ev.event_type == EV_ABS {
        let axis = match ev.code {
            0x00 => Some(StickAxis::LeftX),
            0x01 => Some(StickAxis::LeftY),
            0x03 => Some(StickAxis::RightX),
            0x04 => Some(StickAxis::RightY),
            _ => None,
        };
        if let Some(a) = axis {
            actions.push(ControllerAction::Axis { axis: a, value: ev.value });
        }
        assert(actions@ =~= controller_actions(ev));
    } else if ev.event_type == EV_KEY {
        let pressed = ev.value == 1;
        let button = button_code(ev.code);
        if button != 0 {
            actions.push(ControllerAction::Button { button, pressed });
        }
        let key = key_code(ev.code);
        if key != 0 {
            actions.push(ControllerAction::Key { key, pressed });
        }
        assert(actions@ =~= controller_actions(ev));
    } else {
        assert(actions@ =~= controller_actions(ev));
    }
    actions
}

/// The event `(event_type, code, value)`.
pub open spec fn controller_event(event_type: u16, code: u16, value: i32) -> ControllerEvent {
    ControllerEvent { event_type, code, value }
}

/// Stick axes: on an absolute-axis event (type 3), ABS_X (0) and ABS_Y (1)
/// move the pointer horizontally and vertically, ABS_RX (3) and ABS_RY (4)
/// scroll horizontally and vertically, each passing the raw value on; every
/// other axis code asks for nothing, and no two codes share an axis.
pub proof fn lemma_controller_axes(code: u16, value: i32)
    ensures
        controller_actions(controller_event(3, 0, value)) == seq![
            (ControllerAction::Axis { axis: StickAxis::LeftX, value }),
        ],
        controller_actions(controller_event(3, 1, value)) == seq![
            (ControllerAction::Axis { axis: StickAxis::LeftY, value }),
        ],
        controller_actions(controller_event(3, 3, value)) == seq![
            (ControllerAction::Axis { axis: StickAxis::RightX, value }),
        ],
        controller_actions(controller_event(3, 4, value)) == seq![
            (ControllerAction::Axis { axis: StickAxis::RightY, value }),
        ],
        code != 0 && code != 1 && code != 3 && code != 4 ==> controller_actions(controller_event(3, code, value))
            == Seq::<ControllerAction>::empty(),
        forall|c1: u16, c2: u16|
            c1 != c2 && (#[trigger] controller_actions(controller_event(3, c1, value))).len() == 1
                && (#[trigger] controller_actions(controller_event(3, c2, value))).len() == 1 ==> controller_actions(
                controller_event(3, c1, value),
            )[0] != controller_actions(controller_event(3, c2, value))[0],
{
    assert(controller_actions(controller_event(3, 0, value)) =~= seq![
        (ControllerAction::Axis { axis: StickAxis::LeftX, value }),
    ]);
    assert(controller_actions(controller_event(3, 1, value)) =~= seq![
        (ControllerAction::Axis { axis: StickAxis::LeftY, value }),
    ]);
    assert(controller_actions(controller_event(3, 3, value)) =~= seq![
        (ControllerAction::Axis { axis: StickAxis::RightX, value }),
    ]);
    assert(controller_actions(controller_event(3, 4, value)) =~= seq![
        (ControllerAction::Axis { axis: StickAxis::RightY, value }),
    ]);
    if code != 0 && code != 1 && code != 3 && code != 4 {
        assert(controller_actions(controller_event(3, code, value)) =~= Seq::<ControllerAction>::empty());
    }
}

/// Buttons: on a key event (type 1), BTN_A (0x130), BTN_B (0x131), BTN_X
/// (0x133), BTN_Y (0x134), BTN_TL (0x136), BTN_TR (0x137), BTN_THUMBL (0x13a)
/// and BTN_THUMBR (0x13b) are pointer buttons 1, 3, 2, 4, 5, 6, 7 and 8;
/// BTN_SELECT (0x13c), BTN_START (0x13d) and BTN_MODE (0x13e) are keys 0x3b,
/// 0x3c and 0x3d; the change is a press exactly when the value is 1. Other
/// codes, and events of other types than 1 and 3, ask for nothing.
pub proof fn lemma_controller_buttons(event_type: u16, code: u16, value: i32)
    ensures
        controller_actions(controller_event(1, 0x130, value)) == seq![
            (ControllerAction::Button { button: 1, pressed: value == 1 }),
        ],
        controller_actions(controller_event(1, 0x131, value)) == seq![
            (ControllerAction::Button { button: 3, pressed: value == 1 }),
        ],
        controller_actions(controller_event(1, 0x133, value)) == seq![
            (ControllerAction::Button { button: 2, pressed: value == 1 }),
        ],
        controller_actions(controller_event(1, 0x134, value)) == seq![
            (ControllerAction::Button { button: 4, pressed: value == 1 }),
        ],
        controller_actions(controller_event(1, 0x136, value)) == seq![
            (ControllerAction::Button { button: 5, pressed: value == 1 }),
        ],
        controller_actions(controller_event(1, 0x137, value)) == seq![
            (ControllerAction::Button { button: 6, pressed: value == 1 }),
        ],
        controller_actions(controller_event(1, 0x13a, value)) == seq![
            (ControllerAction::Button { button: 7, pressed: value == 1 }),
        ],
        controller_actions(controller_event(1, 0x13b, value)) == seq![
            (ControllerAction::Button { button: 8, pressed: value == 1 }),
        ],
        controller_actions(controller_event(1, 0x13c, value)) == seq![
            (ControllerAction::Key { key: 0x3b, pressed: value == 1 }),
        ],
        controller_actions(controller_event(1, 0x13d, value)) == seq![
            (ControllerAction::Key { key: 0x3c, pressed: value == 1 }),
        ],
        controller_actions(controller_event(1, 0x13e, value)) == seq![
            (ControllerAction::Key { key: 0x3d, pressed: value == 1 }),
        ],
        (code < 0x130 || code > 0x13e || code == 0x132 || code == 0x135 || code == 0x138 || code == 0x139)
            ==> controller_actions(controller_event(1, code, value)) == Seq::<ControllerAction>::empty(),
        event_type != 1 && event_type != 3 ==> controller_actions(controller_event(event_type, code, value))
            == Seq::<ControllerAction>::empty(),
{
    let v = value;
    assert(controller_actions(controller_event(1, 0x130, v)) =~= seq![(ControllerAction::Button { button: 1, pressed: v == 1 })]);
    assert(controller_actions(controller_event(1, 0x131, v)) =~= seq![(ControllerAction::Button { button: 3, pressed: v == 1 })]);
    assert(controller_actions(controller_event(1, 0x133, v)) =~= seq![(ControllerAction::Button { button: 2, pressed: v == 1 })]);
    assert(controller_actions(controller_event(1, 0x134, v)) =~= seq![(ControllerAction::Button { button: 4, pressed: v == 1 })]);
    assert(controller_actions(controller_event(1, 0x136, v)) =~= seq![(ControllerAction::Button { button: 5, pressed: v == 1 })]);
    assert(controller_actions(controller_event(1, 0x137, v)) =~= seq![(ControllerAction::Button { button: 6, pressed: v == 1 })]);
    assert(controller_actions(controller_event(1, 0x13a, v)) =~= seq![(ControllerAction::Button { button: 7, pressed: v == 1 })]);
    assert(controller_actions(controller_event(1, 0x13b, v)) =~= seq![(ControllerAction::Button { button: 8, pressed: v == 1 })]);
    assert(controller_actions(controller_event(1, 0x13c, v)) =~= seq![(ControllerAction::Key { key: 0x3b, pressed: v == 1 })]);
    assert(controller_actions(controller_event(1, 0x13d, v)) =~= seq![(ControllerAction::Key { key: 0x3c, pressed: v == 1 })]);
    assert(controller_actions(controller_event(1, 0x13e, v)) =~= seq![(ControllerAction::Key { key: 0x3d, pressed: v == 1 })]);
    if code < 0x130 || code > 0x13e || code == 0x132 || code == 0x135 || code == 0x138 || code == 0x139 {
        assert(controller_actions(controller_event(1, code, v)) =~= Seq::<ControllerAction>::empty());
    }
    if event_type != 1 && event_type != 3 {
        assert(controller_actions(controller_event(event_type, code, v)) =~= Seq::<ControllerAction>::empty());
    }
}

/// Mouse buttons the input injector emulates.
#[derive(Debug, Clone, Copy, PartialEq, Eq, Structural)]
pub enum MouseButton {
    Left,
    Right,
    Middle,
}

/// Keys the input injector emulates.
#[derive(Debug, Clone, Copy, PartialEq, Eq, Structural)]
pub enum KeyCode {
    KeyA,
    KeyB,
    KeyC,
    Space,
    Enter,
    Escape,
}

/// The emulated-input client that injections go through; it holds no state of
/// its own, the connection being made by the host.
#[derive(Debug, Clone, Copy, PartialEq, Eq, Structural)]
pub struct InputInjector {}

impl InputInjector {
    /// A client ready to inject.
    pub fn new() -> (r: InputInjector)
        ensures
            r == (InputInjector {}),
    {
        InputInjector {}
    }
}

/// An injection request for the input injector.
#[derive(Debug, Clone, Copy, PartialEq, Eq, Structural)]
pub enum InjectorAction {
    Click { button: MouseButton, pressed: bool },
    Press { key: KeyCode, pressed: bool },
}

/// The presses that gamepad buttons A, B, X, Y stand for, in that order: A a
/// left click, B the space key, X a right click, Y the escape key.
pub open spec fn gamepad_button_actions_spec(a: bool, b: bool, x: bool, y: bool) -> Seq<InjectorAction> {
    (if a {
        seq![InjectorAction::Click { button: MouseButton::Left, pressed: true }]
    } else {
        Seq::empty()
    }) + (if b {
        seq![InjectorAction::Press { key: KeyCode::Space, pressed: true }]
    } else {
        Seq::empty()
    }) + (if x {
        seq![InjectorAction::Click { button: MouseButton::Right, pressed: true }]
    } else {
        Seq::empty()
    }) + (if y {
        seq![InjectorAction::Press { key: KeyCode::Escape, pressed: true }]
    } else {
        Seq::empty()
    })
}

/// The injections for the pressed gamepad face buttons.
pub fn gamepad_button_actions(a: bool, b: bool, x: bool, y: bool) -> (actions: Vec<InjectorAction>)
    ensures
        actions@ == gamepad_button_actions_spec(a, b, x, y),
{
    let mut actions: Vec<InjectorAction> = Vec::new();
    if a {
        actions.push(InjectorAction::Click { button: MouseButton::Left, pressed: true });
    }
    if b {
        actions.push(InjectorAction::Press { key: KeyCode::Space, pressed: true });
    }
    if x {
        actions.push(InjectorAction::Click { button: MouseButton::Right, pressed: true });
    }
    if y {
        actions.push(InjectorAction::Press { key: KeyCode::Escape, pressed: true });
    }
    assert(actions@ =~= gamepad_button_actions_spec(a, b, x, y));
    actions
}

/// Each face button alone asks for exactly its own injection, a press: A a
/// left click, B the space key, X a right click, Y the escape key; no button,
/// nothing; and several buttons ask for their own injections in the order A,
/// B, X, Y.
pub proof fn lemma_gamepad_buttons(a: bool, b: bool, x: bool, y: bool)
    ensures
        gamepad_button_actions_spec(true, false, false, false) == seq![
            (InjectorAction::Click { button: MouseButton::Left, pressed: true }),
        ],
        gamepad_button_actions_spec(false, true, false, false) == seq![
            (InjectorAction::Press { key: KeyCode::Space, pressed: true }),
        ],
        gamepad_button_actions_spec(false, false, true, false) == seq![
            (InjectorAction::Click { button: MouseButton::Right, pressed: true }),
        ],
        gamepad_button_actions_spec(false, false, false, true) == seq![
            (InjectorAction::Press { key: KeyCode::Escape, pressed: true }),
        ],
        gamepad_button_actions_spec(false, false, false, false) == Seq::<InjectorAction>::empty(),
        gamepad_button_actions_spec(a, b, x, y) == gamepad_button_actions_spec(a, false, false, false)
            + gamepad_button_actions_spec(false, b, false, false) + gamepad_button_actions_spec(false, false, x, false)
            + gamepad_button_actions_spec(false, false, false, y),
{
    let e = Seq::<InjectorAction>::empty();
    assert(gamepad_button_actions_spec(true, false, false, false) =~= seq![
        (InjectorAction::Click { button: MouseButton::Left, pressed: true }),
    ]);
    assert(gamepad_button_actions_spec(false, true, false, false) =~= seq![
        (InjectorAction::Press { key: KeyCode::Space, pressed: true }),
    ]);
    assert(gamepad_button_actions_spec(false, false, true, false) =~= seq![
        (InjectorAction::Click { button: MouseButton::Right, pressed: true }),
    ]);
    assert(gamepad_button_actions_spec(false, false, false, true) =~= seq![
        (InjectorAction::Press { key: KeyCode::Escape, pressed: true }),
    ]);
    assert(gamepad_button_actions_spec(false, false, false, false) =~= e);
    assert(gamepad_button_actions_spec(a, b, x, y) =~= gamepad_button_actions_spec(a, false, false, false)
        + gamepad_button_actions_spec(false, b, false, false) + gamepad_button_actions_spec(false, false, x, false)
        + gamepad_button_actions_spec(false, false, false, y));
}

} // verus!
