//! Synthetic keyboard and mouse input, as data.
//!
//! The game window is driven by synthesized key chords and clicks. The
//! library computes what to send — virtual-key codes, press/release order,
//! normalized click coordinates — and the surrounding application performs
//! the platform calls.

use vstd::prelude::*;
use crate::text::str_eq;
use crate::layout::{SCREEN_WIDTH, SCREEN_HEIGHT};

verus! {

/// A key the automation can press, possibly behind a control chord.
#[derive(Debug, PartialEq, Eq)]
pub enum Key {
    /// The pause toggle letter.
    P,
    /// The show/hide-controls letter.
    N,
    /// Arrow left.
    Left,
    /// Arrow right.
    Right,
    /// Arrow up.
    Up,
    /// Arrow down.
    Down,
    /// The confirm key.
    Space,
    /// Focus change.
    Tab,
    /// Back out of a menu.
    Escape,
    /// Player-focus key 1.
    F1,
    /// Player-focus key 2.
    F2,
    /// Player-focus key 3.
    F3,
    /// Player-focus key 4.
    F4,
    /// Player-focus key 5.
    F5,
    /// Player-focus key 6.
    F6,
    /// Player-focus key 7.
    F7,
    /// Player-focus key 8.
    F8,
    /// Player-focus key 9.
    F9,
    /// Player-focus key 10.
    F10,
    /// Player-focus key 11.
    F11,
    /// Player-focus key 12.
    F12,
    /// The wrapped key, held together with the control key.
    Ctrl(Box<Key>),
}

/// Wraps a key in a control chord.
pub fn ctrl(key: Key) -> (r: Key)
    ensures
        r matches Key::Ctrl(k) && *k == key,
{
    Key::Ctrl(Box::new(key))
}

impl Key {
    /// An identical copy of the key.
    pub fn duplicate(&self) -> (r: Key)
        ensures
            r == *self,
        decreases *self,
    {
        match self {
            Key::P => Key::P,
            Key::N => Key::N,
            Key::Left => Key::Left,
            Key::Right => Key::Right,
            Key::Up => Key::Up,
            Key::Down => Key::Down,
            Key::Space => Key::Space,
            Key::Tab => Key::Tab,
            Key::Escape => Key::Escape,
            Key::F1 => Key::F1,
            Key::F2 => Key::F2,
            Key::F3 => Key::F3,
            Key::F4 => Key::F4,
            Key::F5 => Key::F5,
            Key::F6 => Key::F6,
            Key::F7 => Key::F7,
            Key::F8 => Key::F8,
            Key::F9 => Key::F9,
            Key::F10 => Key::F10,
            Key::F11 => Key::F11,
            Key::F12 => Key::F12,
            Key::Ctrl(inner) => Key::Ctrl(Box::new(inner.duplicate())),
        }
    }
}

/// One synthesized key transition.
#[derive(Clone, Copy, Debug, PartialEq, Eq, Structural)]
pub struct InputEvent {
    /// The virtual-key code.
    pub code: u16,
    /// Key-up rather than key-down.
    pub release: bool,
}

/// The virtual-key code of the left control key.
pub const VK_LCONTROL: u16 = 0xA2;

/// The virtual-key code of an unchorded key.
pub open spec fn spec_key_code(k: Key) -> u16 {
    match k {
        Key::P => 0x50,
        Key::N => 0x4E,
        Key::Left => 0x25,
        Key::Right => 0x27,
        Key::Up => 0x26,
        Key::Down => 0x28,
        Key::Space => 0x20,
        Key::Tab => 0x09,
        Key::Escape => 0x1B,
        Key::F1 => 0x70,
        Key::F2 => 0x71,
        Key::F3 => 0x72,
        Key::F4 => 0x73,
        Key::F5 => 0x74,
        Key::F6 => 0x75,
        Key::F7 => 0x76,
        Key::F8 => 0x77,
        Key::F9 => 0x78,
        Key::F10 => 0x79,
        Key::F11 => 0x7A,
        Key::F12 => 0x7B,
        Key::Ctrl(_) => 0,
    }
}

/// A key press.
pub open spec fn press(code: u16) -> InputEvent {
    InputEvent { code, release: false }
}

/// A key release.
pub open spec fn release(code: u16) -> InputEvent {
    InputEvent { code, release: true }
}

/// The ordered key transitions a key produces: down then up, and a control
/// chord wraps its inner key between control-down and control-up.
pub open spec fn spec_key_events(k: Key) -> Seq<InputEvent>
    decreases k,
{
    match k {
        Key::Ctrl(inner) => seq![press(VK_LCONTROL)] + spec_key_events(*inner)
            + seq![release(VK_LCONTROL)],
        _ => seq![press(spec_key_code(k)), release(spec_key_code(k))],
    }
}

/// The virtual-key code of an unchorded key.
fn key_code(k: &Key) -> (r: u16)
    requires
        !(k matches Key::Ctrl(_)),
    ensures
        r == spec_key_code(*k),
{
    match k {
        Key::P => 0x50,
        Key::N => 0x4E,
        Key::Left => 0x25,
        Key::Right => 0x27,
        Key::Up => 0x26,
        Key::Down => 0x28,
        Key::Space => 0x20,
        Key::Tab => 0x09,
        Key::Escape => 0x1B,
        Key::F1 => 0x70,
        Key::F2 => 0x71,
        Key::F3 => 0x72,
        Key::F4 => 0x73,
        Key::F5 => 0x74,
        Key::F6 => 0x75,
        Key::F7 => 0x76,
        Key::F8 => 0x77,
        Key::F9 => 0x78,
        Key::F10 => 0x79,
        Key::F11 => 0x7A,
        Key::F12 => 0x7B,
        Key::Ctrl(_) => 0,
    }
}

/// The ordered key transitions to synthesize for one key or chord.
pub fn key_events(key: &Key) -> (r: Vec<InputEvent>)
    ensures
        r@ == spec_key_events(*key),
    decreases *key,
{
    match key {
        Key::Ctrl(inner) => {
            let mut r: Vec<InputEvent> = Vec::new();
            r.push(InputEvent { code: VK_LCONTROL, release: false });
            let mut mid = key_events(inner);
            r.append(&mut mid);
            r.push(InputEvent { code: VK_LCONTROL, release: true });
            proof {
                assert(r@ =~= spec_key_events(*key));
            }
            r
        },
        _ => {
            let code = key_code(key);
            let mut r: Vec<InputEvent> = Vec::new();
            r.push(InputEvent { code, release: false });
            r.push(InputEvent { code, release: true });
            proof {
                assert(r@ =~= spec_key_events(*key));
            }
            r
        },
    }
}

/// A window the automation looks for by exact title.
#[derive(Clone, Copy, Debug, PartialEq, Eq, Structural)]
pub enum Target {
    /// The game client's window.
    Overwatch,
}

impl Target {
    /// The exact window title of this target.
    pub open spec fn spec_pattern(self) -> Seq<char> {
        "Overwatch"@
    }

    /// The exact window title of this target.
    pub fn pattern(&self) -> (r: &'static str)
        ensures
            r@ == self.spec_pattern(),
    {
        match self {
            Target::Overwatch => "Overwatch",
        }
    }

    /// Whether a window title is this target's.
    pub fn matches_title(&self, title: &str) -> (r: bool)
        ensures
            r == (title@ == self.spec_pattern()),
    {
        str_eq(title, self.pattern())
    }
}

/// Scales a 1920x1080 screen coordinate to the normalized 0..=65535 space
/// synthetic mouse events use.
pub fn click_coordinates(x: u32, y: u32) -> (r: (u32, u32))
    requires
        x <= SCREEN_WIDTH,
        y <= SCREEN_HEIGHT,
    ensures
        r.0 == (x * 65535) / (SCREEN_WIDTH as int),
        r.1 == (y * 65535) / (SCREEN_HEIGHT as int),
{
    ((x * 65535) / SCREEN_WIDTH, (y * 65535) / SCREEN_HEIGHT)
}

} // verus!
