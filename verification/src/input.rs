//! The platform-independent event model.
//!
//! Every decoder in this crate, whether it reads the Unix byte stream or a
//! Windows console record, produces values of the one [`Event`] type below.

use vstd::prelude::*;
use vstd::string::StrSliceExecFns;

verus! {

/// Different events that can happen through the terminal.
#[derive(Debug, Copy, Clone, PartialEq, Eq, Hash, Structural)]
pub enum Event {
    /// An event that happens upon a key being pressed.
    Key(Key, ButtonType, Modifiers),
    /// An event that happens upon a mouse action.
    ///
    /// The last two are the column and row of the event, 0-based with the
    /// origin in the upper left corner.
    Mouse(Modifiers, MouseButton, ButtonType, u16, u16),
    /// An event that happens upon focus to the terminal window being gained.
    FocusGained,
    /// An event that happens upon focus to the terminal window being lost.
    FocusLost,
}

/// The key on the mouse that was pressed.
#[derive(Debug, Copy, Clone, PartialEq, Eq, Hash, Structural)]
pub enum MouseButton {
    /// The left mouse button.
    Left,
    /// The right mouse button.
    Right,
    /// The middle mouse button.
    Middle,
    /// The mouse wheel going up.
    WheelUp,
    /// The mouse wheel going down.
    WheelDown,
    /// The mouse wheel going left.
    WheelLeft,
    /// The mouse wheel going right.
    WheelRight,
    /// The protocol does not specify, typically only on release/held buttons.
    Unknown,
    /// No mouse button was pressed.
    NoButton,
}

/// The base key that was pressed.
#[derive(Debug, Copy, Clone, PartialEq, Eq, Hash, Structural)]
pub enum Key {
    /// The Backspace key.
    Backspace,
    /// The Up arrow key.
    Up,
    /// The Down arrow key.
    Down,
    /// The Left arrow key.
    Left,
    /// The Right arrow key.
    Right,
    /// The Home key.
    Home,
    /// The End key.
    End,
    /// The PageUp key.
    PageUp,
    /// The PageDown key.
    PageDown,
    /// The Tab key.
    Tab,
    /// The Delete key.
    Delete,
    /// The Insert key.
    Insert,
    /// The function keys.
    F(u8),
    /// Any character inputted by the keyboard.
    Char(char),
    /// The Escape key.
    Escape,
}

/// Independent modifier-key flags; all false is the identity value.
///
/// Some platforms also know a `meta` modifier; no decoder in this crate
/// ever reports one, so the type carries shift, alt and ctrl only.
#[derive(Debug, Copy, Clone, PartialEq, Eq, Hash, Default, Structural)]
pub struct Modifiers {
    pub shift: bool,
    pub alt: bool,
    pub ctrl: bool,
}

impl Modifiers {
    /// The value with no modifier held.
    pub fn none() -> (r: Self)
        ensures
            r == (Modifiers { shift: false, alt: false, ctrl: false }),
    {
        Modifiers { shift: false, alt: false, ctrl: false }
    }

    pub fn new(shift: bool, alt: bool, ctrl: bool) -> (r: Self)
        ensures
            r == (Modifiers { shift, alt, ctrl }),
    {
        Modifiers { shift, alt, ctrl }
    }

    #[must_use]
    pub fn shift(self, on: bool) -> (r: Self)
        ensures
            r == (Modifiers { shift: on, ..self }),
    {
        Modifiers { shift: on, ..self }
    }

    #[must_use]
    pub fn alt(self, on: bool) -> (r: Self)
        ensures
            r == (Modifiers { alt: on, ..self }),
    {
        Modifiers { alt: on, ..self }
    }

    #[must_use]
    pub fn ctrl(self, on: bool) -> (r: Self)
        ensures
            r == (Modifiers { ctrl: on, ..self }),
    {
        Modifiers { ctrl: on, ..self }
    }
}

/// This is the type of action the key or button made: a fresh press, a
/// repeat while held, or a release.
#[derive(Debug, Copy, Clone, PartialEq, Eq, Hash, Structural)]
pub enum ButtonType {
    Press,
    Held,
    Release,
}

/// Why a poll or a decode produced no event.
#[derive(Debug, Copy, Clone, PartialEq, Eq, Hash, Structural)]
pub enum InputError {
    /// No input arrived within the requested window; routine when polling.
    TimedOut,
    /// The underlying wait or read failed.
    Io,
    /// A malformed UTF-8 byte sequence.
    InvalidEncoding,
    /// A recognized escape prefix with an unparseable or unsupported payload.
    ParseFailure,
    /// A console record of a kind that is not surfaced as an event.
    UnsupportedRecord,
    /// A console key-release record; releases are suppressed on that path.
    ReleaseSuppressed,
}

/// The modifier flags named by a marker string: `'S'` is shift, `'A'` is
/// alt, `'C'` is ctrl.
pub open spec fn spec_marker_mods(s: Seq<char>) -> Modifiers {
    Modifiers { shift: s.contains('S'), alt: s.contains('A'), ctrl: s.contains('C') }
}

/// The action named by a marker string: the last of `'-'` (release) or
/// `'*'` (held) wins; with neither present the action is a press.
pub open spec fn spec_marker_type(s: Seq<char>) -> ButtonType
    decreases s.len(),
{
    if s.len() == 0 {
        ButtonType::Press
    } else if s.last() == '-' {
        ButtonType::Release
    } else if s.last() == '*' {
        ButtonType::Held
    } else {
        spec_marker_type(s.drop_last())
    }
}

/// Builds a key event from a compact marker string: `'S'`/`'A'`/`'C'` set
/// the matching modifier, `'-'` marks a release and `'*'` a held repeat.
pub fn key_helper(mods: &str, key: Key) -> (r: Event)
    ensures
        r == Event::Key(key, spec_marker_type(mods@), spec_marker_mods(mods@)),
{
    let mut key_mods = Modifiers::none();
    let mut key_type = ButtonType::Press;

    let n: usize = mods.unicode_len();
    let mut i: usize = 0;
    while i < n
        invariant
            n == mods@.len(),
            0 <= i <= n,
            key_mods == spec_marker_mods(mods@.take(i as int)),
            key_type == spec_marker_type(mods@.take(i as int)),
        decreases n - i,
    {
        let c = mods.get_char(i);
        key_mods.alt = key_mods.alt || c == 'A';
        key_mods.ctrl = key_mods.ctrl || c == 'C';
        key_mods.shift = key_mods.shift || c == 'S';
        if c == '-' {
            key_type = ButtonType::Release;
        }
        if c == '*' {
            key_type = ButtonType::Held;
        }
        i += 1;
        proof {
            assert(mods@.take(i as int).drop_last() =~= mods@.take(i - 1));
            assert(spec_marker_mods(mods@.take(i as int)) == key_mods) by {
                let pre = mods@.take(i - 1);
                let now = mods@.take(i as int);
                assert(now.last() == mods@[i - 1]);
                assert(forall|ch: char|
                    now.contains(ch) <==> pre.contains(ch) || now.last() == ch) by {
                    assert(forall|ch: char| #[trigger]
                        pre.contains(ch) ==> now.contains(ch)) by {
                        assert(forall|j: int| 0 <= j < pre.len() ==> now[j] == pre[j]);
                    }
                }
            }
        }
    }
    proof {
        assert(mods@.take(n as int) =~= mods@);
    }
    Event::Key(key, key_type, key_mods)
}

/// A plain key press carrying the given modifier flags.
pub fn simple_key(key: Key, shift: bool, alt: bool, ctrl: bool) -> (r: Event)
    ensures
        r == Event::Key(key, ButtonType::Press, Modifiers { shift, alt, ctrl }),
{
    Event::Key(key, ButtonType::Press, Modifiers::new(shift, alt, ctrl))
}

} // verus!
