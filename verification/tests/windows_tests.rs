use termio::input::{ButtonType, Event, InputError, Key, Modifiers};
use termio::windows_input::{
    parse_key_event, poll_console, translate_record, InputRecord, KeyEventRecord,
};

fn record(code: u16, ch: u16, state: u32) -> KeyEventRecord {
    KeyEventRecord {
        key_down: true,
        virtual_key_code: code,
        unicode_char: ch,
        control_key_state: state,
    }
}

fn none() -> Modifiers {
    Modifiers::new(false, false, false)
}

#[test]
fn named_virtual_keys_map_directly() {
    assert_eq!(
        parse_key_event(&record(0x08, 0, 0)),
        Event::Key(Key::Backspace, ButtonType::Press, none())
    );
    assert_eq!(
        parse_key_event(&record(0x0D, 13, 0)),
        Event::Key(Key::Char('\n'), ButtonType::Press, none())
    );
    assert_eq!(
        parse_key_event(&record(0x1B, 27, 0)),
        Event::Key(Key::Escape, ButtonType::Press, none())
    );
    assert_eq!(
        parse_key_event(&record(0x25, 0, 0)),
        Event::Key(Key::Left, ButtonType::Press, none())
    );
    assert_eq!(
        parse_key_event(&record(0x24, 0, 0)),
        Event::Key(Key::Home, ButtonType::Press, none())
    );
    assert_eq!(
        parse_key_event(&record(0x2E, 0, 0)),
        Event::Key(Key::Delete, ButtonType::Press, none())
    );
}

#[test]
fn tab_picks_up_shift_from_the_state_mask() {
    assert_eq!(
        parse_key_event(&record(0x09, 9, 0)),
        Event::Key(Key::Tab, ButtonType::Press, none())
    );
    assert_eq!(
        parse_key_event(&record(0x09, 9, 0x10)),
        Event::Key(Key::Tab, ButtonType::Press, Modifiers::new(true, false, false))
    );
}

#[test]
fn function_keys_map_by_offset() {
    assert_eq!(
        parse_key_event(&record(0x70, 0, 0)),
        Event::Key(Key::F(1), ButtonType::Press, none())
    );
    assert_eq!(
        parse_key_event(&record(0x87, 0, 0)),
        Event::Key(Key::F(24), ButtonType::Press, none())
    );
}

#[test]
fn fallback_uses_the_record_character() {
    assert_eq!(
        parse_key_event(&record(0x41, 'a' as u16, 0)),
        Event::Key(Key::Char('a'), ButtonType::Press, none())
    );
}

#[test]
fn ctrl_letter_is_reported_once_with_ctrl_set() {
    assert_eq!(
        parse_key_event(&record(0x41, 'a' as u16, 0x08)),
        Event::Key(Key::Char('a'), ButtonType::Press, Modifiers::new(false, false, true))
    );
    assert_eq!(
        parse_key_event(&record(0x41, 'a' as u16, 0x04)),
        Event::Key(Key::Char('a'), ButtonType::Press, Modifiers::new(false, false, true))
    );
}

#[test]
fn ctrl_with_non_letter_stays_plain() {
    assert_eq!(
        parse_key_event(&record(0x31, '1' as u16, 0x08)),
        Event::Key(Key::Char('1'), ButtonType::Press, none())
    );
}

#[test]
fn surrogate_code_unit_falls_back_to_space() {
    assert_eq!(
        parse_key_event(&record(0x100, 0xD800, 0)),
        Event::Key(Key::Char(' '), ButtonType::Press, none())
    );
}

#[test]
fn key_up_records_are_suppressed() {
    let mut rec = record(0x41, 'a' as u16, 0);
    rec.key_down = false;
    assert_eq!(
        translate_record(&InputRecord::Key(rec)),
        Err(InputError::ReleaseSuppressed)
    );
}

#[test]
fn focus_and_unknown_records_are_unsupported() {
    assert_eq!(
        translate_record(&InputRecord::Focus(true)),
        Err(InputError::UnsupportedRecord)
    );
    assert_eq!(translate_record(&InputRecord::Other), Err(InputError::UnsupportedRecord));
}

#[test]
fn console_wait_expiry_is_a_timeout() {
    let rec = InputRecord::Key(record(0x41, 'a' as u16, 0));
    assert_eq!(poll_console(0x102, &rec), Err(InputError::TimedOut));
    assert_eq!(
        poll_console(0, &rec),
        Ok(Event::Key(Key::Char('a'), ButtonType::Press, none()))
    );
}
