//! The Windows console record translator.
//!
//! A Windows console delivers input as pre-structured records rather than
//! a byte stream. The translator here maps one key-event record — virtual
//! key code, character code unit, and control-key-state bitmask — onto the
//! same [`Event`] model the byte-stream decoder produces, bypassing the
//! byte machinery entirely.
//!
//! Policy for the record kinds that carry no key press: focus-change and
//! unknown records fail with [`InputError::UnsupportedRecord`] (focus
//! events are not surfaced on this path), and key-up records fail with
//! [`InputError::ReleaseSuppressed`] (key releases are deliberately not
//! reported as events, not even as a null key).

use vstd::prelude::*;
use vstd::utf8::is_scalar;

use crate::chars::char_from_u32;
use crate::input::{ButtonType, Event, InputError, Key, Modifiers};

verus! {

/// One key event as the console subsystem reports it, reduced to the
/// fields the translator reads.
#[derive(Debug, Copy, Clone, PartialEq, Eq, Structural)]
pub struct KeyEventRecord {
    /// True for a key going down, false for a key coming up.
    pub key_down: bool,
    /// The virtual key code of the key.
    pub virtual_key_code: u16,
    /// The UTF-16 code unit of the character the key produced.
    pub unicode_char: u16,
    /// The control-key-state bitmask of the record.
    pub control_key_state: u32,
}

/// One console input record, reduced to the kinds the translator
/// distinguishes.
#[derive(Debug, Copy, Clone, PartialEq, Eq, Structural)]
pub enum InputRecord {
    /// A key event record.
    Key(KeyEventRecord),
    /// A focus-change record; the flag says whether focus was gained.
    Focus(bool),
    /// Any other record kind.
    Other,
}

/// Whether the character is an ASCII letter.
pub open spec fn spec_is_ascii_alpha(c: char) -> bool {
    ('a' <= c && c <= 'z') || ('A' <= c && c <= 'Z')
}

/// The event a key-down record translates to. Left and right ctrl are
/// read from bits 2 and 3 of the control-key-state mask, shift from bit
/// 4. Named keys map directly; codes in the F-key range map by offset;
/// everything else falls back to the record's character, and a ctrl-held
/// ASCII letter is reported once, as that letter with `ctrl` set.
pub open spec fn spec_parse_key_event(e: KeyEventRecord) -> Event {
    let ctrl = e.control_key_state & 12 != 0;
    let shift = e.control_key_state & 16 != 0;
    let k = e.virtual_key_code;
    let nm = Modifiers { shift: false, alt: false, ctrl: false };
    if k == 8 {
        Event::Key(Key::Backspace, ButtonType::Press, nm)
    } else if k == 9 {
        Event::Key(Key::Tab, ButtonType::Press, Modifiers { shift, alt: false, ctrl: false })
    } else if k == 13 {
        Event::Key(Key::Char('\n'), ButtonType::Press, nm)
    } else if k == 27 {
        Event::Key(Key::Escape, ButtonType::Press, nm)
    } else if k == 33 {
        Event::Key(Key::PageUp, ButtonType::Press, nm)
    } else if k == 34 {
        Event::Key(Key::PageDown, ButtonType::Press, nm)
    } else if k == 35 {
        Event::Key(Key::End, ButtonType::Press, nm)
    } else if k == 36 {
        Event::Key(Key::Home, ButtonType::Press, nm)
    } else if k == 37 {
        Event::Key(Key::Left, ButtonType::Press, nm)
    } else if k == 38 {
        Event::Key(Key::Up, ButtonType::Press, nm)
    } else if k == 39 {
        Event::Key(Key::Right, ButtonType::Press, nm)
    } else if k == 40 {
        Event::Key(Key::Down, ButtonType::Press, nm)
    } else if k == 45 {
        Event::Key(Key::Insert, ButtonType::Press, nm)
    } else if k == 46 {
        Event::Key(Key::Delete, ButtonType::Press, nm)
    } else if 0x70 <= k && k <= 0x87 {
        Event::Key(Key::F((k - 0x6F) as u8), ButtonType::Press, nm)
    } else {
        let n = e.unicode_char as u32;
        let c = if is_scalar(n) {
            n as char
        } else {
            ' '
        };
        let m = Modifiers { shift: false, alt: false, ctrl: ctrl && spec_is_ascii_alpha(c) };
        Event::Key(Key::Char(c), ButtonType::Press, m)
    }
}

/// What one console record translates to: the key event for a key-down
/// record, and a distinct error for everything else.
pub open spec fn spec_translate_record(record: InputRecord) -> Result<Event, InputError> {
    match record {
        InputRecord::Key(e) => if e.key_down {
            Ok(spec_parse_key_event(e))
        } else {
            Err(InputError::ReleaseSuppressed)
        },
        InputRecord::Focus(_) => Err(InputError::UnsupportedRecord),
        InputRecord::Other => Err(InputError::UnsupportedRecord),
    }
}

/// Whether the character is an ASCII letter.
pub fn is_ascii_alpha(c: char) -> (r: bool)
    ensures
        r == spec_is_ascii_alpha(c),
{
    ('a' <= c && c <= 'z') || ('A' <= c && c <= 'Z')
}

/// Translates one key-down record's virtual key code, character, and
/// modifier mask into the unified event model.
pub fn parse_key_event(event: &KeyEventRecord) -> (r: Event)
    ensures
        r == spec_parse_key_event(*event),
{
    let ctrl = event.control_key_state & 12 != 0;
    let shift = event.control_key_state & 16 != 0;
    let k = event.virtual_key_code;
    let nm = Modifiers::none();
    if k == 8 {
        Event::Key(Key::Backspace, ButtonType::Press, nm)
    } else if k == 9 {
        Event::Key(Key::Tab, ButtonType::Press, Modifiers::new(shift, false, false))
    } else if k == 13 {
        Event::Key(Key::Char('\n'), ButtonType::Press, nm)
    } else if k == 27 {
        Event::Key(Key::Escape, ButtonType::Press, nm)
    } else if k == 33 {
        Event::Key(Key::PageUp, ButtonType::Press, nm)
    } else if k == 34 {
        Event::Key(Key::PageDown, ButtonType::Press, nm)
    } else if k == 35 {
        Event::Key(Key::End, ButtonType::Press, nm)
    } else if k == 36 {
        Event::Key(Key::Home, ButtonType::Press, nm)
    } else if k == 37 {
        Event::Key(Key::Left, ButtonType::Press, nm)
    } else if k == 38 {
        Event::Key(Key::Up, ButtonType::Press, nm)
    } else if k == 39 {
        Event::Key(Key::Right, ButtonType::Press, nm)
    } else if k == 40 {
        Event::Key(Key::Down, ButtonType::Press, nm)
    } else if k == 45 {
        Event::Key(Key::Insert, ButtonType::Press, nm)
    } else if k == 46 {
        Event::Key(Key::Delete, ButtonType::Press, nm)
    } else if 0x70 <= k && k <= 0x87 {
        Event::Key(Key::F((k - 0x6F) as u8), ButtonType::Press, nm)
    } else {
        let n = event.unicode_char as u32;
        let c = match char_from_u32(n) {
            Some(c) => {
                proof {
                    vstd::utf8::char_u32_cast(c, n);
                }
                c
            },
            None => ' ',
        };
        if ctrl && is_ascii_alpha(c) {
            Event::Key(Key::Char(c), ButtonType::Press, Modifiers::new(false, false, true))
        } else {
            Event::Key(Key::Char(c), ButtonType::Press, nm)
        }
    }
}

/// Translates one console record, whatever its kind, into either an
/// event or the distinct error its kind calls for.
pub fn translate_record(record: &InputRecord) -> (r: Result<Event, InputError>)
    ensures
        r == spec_translate_record(*record),
{
    match record {
        InputRecord::Key(e) => {
            if e.key_down {
                Ok(parse_key_event(e))
            } else {
                Err(InputError::ReleaseSuppressed)
            }
        },
        InputRecord::Focus(_) => Err(InputError::UnsupportedRecord),
        InputRecord::Other => Err(InputError::UnsupportedRecord),
    }
}

/// Turns the outcome of one bounded console wait into one event:
/// a nonzero wait result is the timeout (or failure) of the wait itself;
/// on a zero wait result the record that was read is translated.
pub fn poll_console(wait_result: u32, record: &InputRecord) -> (r: Result<Event, InputError>)
    ensures
        wait_result != 0 ==> r == Result::<Event, InputError>::Err(InputError::TimedOut),
        wait_result == 0 ==> r == spec_translate_record(*record),
{
    if wait_result != 0 {
        Err(InputError::TimedOut)
    } else {
        translate_record(record)
    }
}

} // verus!
