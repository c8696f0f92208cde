//! Mouse buttons, keyboard modifiers, and feeding button events into an
//! `Input`.

use vstd::prelude::*;
use vstd::laws_eq::obeys_concrete_eq;

use crate::input::Input;

verus! {

/// Label of the systems that update input state.
pub struct InputSystem;

/// Whether a button went down or came up.
#[derive(Debug, Clone, Copy, PartialEq, Eq, Structural)]
pub enum ButtonState {
    Pressed,
    Released,
}

/// A mouse button.
#[derive(Debug, Clone, Copy, Hash, Eq)]
pub enum MouseButton {
    Left,
    Right,
    Middle,
    /// Another button, by its number.
    Other(u16),
}

impl PartialEq for MouseButton {
    fn eq(&self, other: &MouseButton) -> (r: bool) {
        match (self, other) {
            (MouseButton::Left, MouseButton::Left) => true,
            (MouseButton::Right, MouseButton::Right) => true,
            (MouseButton::Middle, MouseButton::Middle) => true,
            (MouseButton::Other(a), MouseButton::Other(b)) => *a == *b,
            _ => false,
        }
    }
}

impl vstd::std_specs::cmp::PartialEqSpecImpl for MouseButton {
    open spec fn obeys_eq_spec() -> bool {
        true
    }

    open spec fn eq_spec(&self, other: &MouseButton) -> bool {
        *self == *other
    }
}

/// A mouse button going down or coming up.
#[derive(Debug, Clone, Copy)]
pub struct MouseButtonInput {
    pub button: MouseButton,
    pub state: ButtonState,
}

impl MouseButtonInput {
    pub fn from_with(button: MouseButton, state: ButtonState) -> (r: MouseButtonInput)
        ensures
            r.button == button,
            r.state == state,
    {
        MouseButtonInput { button, state }
    }
}

/// What a scroll delta counts.
#[derive(Debug, Clone, Copy, PartialEq, Eq, Structural)]
pub enum MouseScrollUnit {
    /// Lines or rows to scroll.
    Line,
    /// Pixels to scroll.
    Pixel,
}

/// The button sets after the events in `events`, one after the other.
pub open spec fn after_events(
    held: Set<MouseButton>,
    down: Set<MouseButton>,
    up: Set<MouseButton>,
    events: Seq<MouseButtonInput>,
) -> (Set<MouseButton>, Set<MouseButton>, Set<MouseButton>)
    decreases events.len(),
{
    if events.len() == 0 {
        (held, down, up)
    } else {
        let (h, d, u) = after_events(held, down, up, events.drop_last());
        let e = events.last();
        match e.state {
            ButtonState::Pressed => (
                h.insert(e.button),
                if h.contains(e.button) { d } else { d.insert(e.button) },
                u,
            ),
            ButtonState::Released => (
                h.remove(e.button),
                d,
                if h.contains(e.button) { u.insert(e.button) } else { u },
            ),
        }
    }
}

/// Starts a new frame of mouse input and applies this frame's button
/// events in order.
pub fn mouse_button_input_system(
    mouse_button_input: &mut Input<MouseButton>,
    mouse_button_input_events: &[MouseButtonInput],
)
    requires
        old(mouse_button_input).wf(),
    ensures
        final(mouse_button_input).wf(),
        (
            final(mouse_button_input).pressed_set(),
            final(mouse_button_input).just_pressed_set(),
            final(mouse_button_input).just_released_set(),
        ) == after_events(
            old(mouse_button_input).pressed_set(),
            Set::empty(),
            Set::empty(),
            mouse_button_input_events@,
        ),
{
    assert(obeys_concrete_eq::<MouseButton>()) by {
        reveal(obeys_concrete_eq);
    }
    mouse_button_input.clear();
    let ghost held = mouse_button_input.pressed_set();
    let ghost events = mouse_button_input_events@;
    let mut i: usize = 0;
    while i < mouse_button_input_events.len()
        invariant
            mouse_button_input.wf(),
            obeys_concrete_eq::<MouseButton>(),
            events == mouse_button_input_events@,
            i <= events.len(),
            (
                mouse_button_input.pressed_set(),
                mouse_button_input.just_pressed_set(),
                mouse_button_input.just_released_set(),
            ) == after_events(held, Set::empty(), Set::empty(), events.take(i as int)),
        decreases events.len() - i,
    {
        let event = mouse_button_input_events[i];
        assert(events.take(i + 1).drop_last() =~= events.take(i as int));
        match event.state {
            ButtonState::Pressed => mouse_button_input.press(event.button),
            ButtonState::Released => mouse_button_input.release(event.button),
        }
        i = i + 1;
    }
    assert(events.take(events.len() as int) =~= events);
}

/// The "shift" key's flag.
pub const SHIFT: u32 = 0b100;

/// The "control" key's flag.
pub const CTRL: u32 = 0b100_000;

/// The "alt" key's flag.
pub const ALT: u32 = 0b100_000_000;

/// The flag of the "windows" key on PC, the "command" key on Mac.
pub const LOGO: u32 = 0b100_000_000_000;

/// Which keyboard modifiers are active, one flag each.
#[derive(Debug, Clone, Copy, PartialEq, Eq, Structural)]
pub struct ModifiersState {
    pub bits: u32,
}

/// The flags of the active modifiers among the four.
pub open spec fn modifier_bits(shift: bool, ctrl: bool, alt: bool, logo: bool) -> u32 {
    (if shift { SHIFT } else { 0 }) | (if ctrl { CTRL } else { 0 }) | (if alt { ALT } else { 0 }) | (
    if logo { LOGO } else { 0 })
}

impl ModifiersState {
    /// No modifier active.
    pub fn empty() -> (r: ModifiersState)
        ensures
            r.bits == 0,
    {
        ModifiersState { bits: 0 }
    }

    /// The state in which exactly the given modifiers are active.
    pub fn from_keys(shift: bool, ctrl: bool, alt: bool, logo: bool) -> (r: ModifiersState)
        ensures
            r.bits == modifier_bits(shift, ctrl, alt, logo),
            r.shift() == shift,
            r.ctrl() == ctrl,
            r.alt() == alt,
            r.logo() == logo,
    {
        let state = ModifiersState {
            bits: (if shift { SHIFT } else { 0 }) | (if ctrl { CTRL } else { 0 }) | (if alt {
                ALT
            } else {
                0
            }) | (if logo { LOGO } else { 0 }),
        };
        proof {
            let ss: u32 = if shift { SHIFT } else { 0 };
            let cc: u32 = if ctrl { CTRL } else { 0 };
            let aa: u32 = if alt { ALT } else { 0 };
            let ll: u32 = if logo { LOGO } else { 0 };
            assert(((ss == 0b100u32 || ss == 0u32) && (cc == 0b100000u32 || cc == 0u32) && (aa
                == 0b100000000u32 || aa == 0u32) && (ll == 0b100000000000u32 || ll == 0u32)) ==> ({
                let bb = ((ss | cc) | aa) | ll;
                &&& ((bb & 0b100u32) != 0) == (ss != 0)
                &&& ((bb & 0b100000u32) != 0) == (cc != 0)
                &&& ((bb & 0b100000000u32) != 0) == (aa != 0)
                &&& ((bb & 0b100000000000u32) != 0) == (ll != 0)
            })) by (bit_vector);
        }
        state
    }

    pub open spec fn shift(&self) -> bool {
        self.bits & SHIFT != 0
    }

    pub open spec fn ctrl(&self) -> bool {
        self.bits & CTRL != 0
    }

    pub open spec fn alt(&self) -> bool {
        self.bits & ALT != 0
    }

    pub open spec fn logo(&self) -> bool {
        self.bits & LOGO != 0
    }

    /// Whether `other`'s modifiers are all active.
    pub fn contains(&self, other: ModifiersState) -> (r: bool)
        ensures
            r == (self.bits & other.bits == other.bits),
    {
        self.bits & other.bits == other.bits
    }
}

/// The active keyboard modifiers changed.
pub struct ModifiersChanged(pub ModifiersState);

} // verus!
