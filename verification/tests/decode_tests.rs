use termio::input::{ButtonType, Event, InputError, Key, Modifiers, MouseButton};
use termio::unix_input::{parse_event, poll_input, ReadIterator};

fn none() -> Modifiers {
    Modifiers::new(false, false, false)
}

#[test]
fn escape_alone_is_the_escape_key() {
    let r = poll_input(1, vec![0x1b]);
    assert_eq!(r, Ok(Event::Key(Key::Escape, ButtonType::Press, none())));
}

#[test]
fn csi_final_byte_arrow() {
    let r = poll_input(1, b"\x1b[D".to_vec());
    assert_eq!(r, Ok(Event::Key(Key::Left, ButtonType::Press, none())));
    let r = poll_input(1, b"\x1b[C".to_vec());
    assert_eq!(r, Ok(Event::Key(Key::Right, ButtonType::Press, none())));
    let r = poll_input(1, b"\x1b[A".to_vec());
    assert_eq!(r, Ok(Event::Key(Key::Up, ButtonType::Press, none())));
    let r = poll_input(1, b"\x1b[B".to_vec());
    assert_eq!(r, Ok(Event::Key(Key::Down, ButtonType::Press, none())));
    let r = poll_input(1, b"\x1b[H".to_vec());
    assert_eq!(r, Ok(Event::Key(Key::Home, ButtonType::Press, none())));
    let r = poll_input(1, b"\x1b[F".to_vec());
    assert_eq!(r, Ok(Event::Key(Key::End, ButtonType::Press, none())));
}

#[test]
fn modified_arrow_carries_shift_and_ctrl() {
    let r = poll_input(1, b"\x1b[1;6D".to_vec());
    assert_eq!(
        r,
        Ok(Event::Key(Key::Left, ButtonType::Press, Modifiers::new(true, false, true)))
    );
}

#[test]
fn modified_arrow_rejects_zero_modifier() {
    let r = poll_input(1, b"\x1b[1;0D".to_vec());
    assert_eq!(r, Err(InputError::ParseFailure));
}

#[test]
fn modified_arrow_rejects_wrong_first_number() {
    let r = poll_input(1, b"\x1b[2;2D".to_vec());
    assert_eq!(r, Err(InputError::ParseFailure));
}

#[test]
fn x10_mouse_left_press() {
    let r = poll_input(1, vec![0x1b, b'[', b'M', 32, 33 + 5, 33 + 3]);
    assert_eq!(
        r,
        Ok(Event::Mouse(none(), MouseButton::Left, ButtonType::Press, 5, 3))
    );
}

#[test]
fn x10_mouse_wheel_and_release() {
    let r = poll_input(1, vec![0x1b, b'[', b'M', 32 + 64, 33, 33]);
    assert_eq!(
        r,
        Ok(Event::Mouse(none(), MouseButton::WheelUp, ButtonType::Press, 0, 0))
    );
    let r = poll_input(1, vec![0x1b, b'[', b'M', 32 + 65, 34, 35]);
    assert_eq!(
        r,
        Ok(Event::Mouse(none(), MouseButton::WheelDown, ButtonType::Press, 1, 2))
    );
    let r = poll_input(1, vec![0x1b, b'[', b'M', 32 + 3, 33, 33]);
    assert_eq!(
        r,
        Ok(Event::Mouse(none(), MouseButton::Unknown, ButtonType::Release, 0, 0))
    );
}

#[test]
fn x10_mouse_coordinates_saturate() {
    let r = poll_input(1, vec![0x1b, b'[', b'M', 32, 10, 10]);
    assert_eq!(
        r,
        Ok(Event::Mouse(none(), MouseButton::Left, ButtonType::Press, 0, 0))
    );
}

#[test]
fn sgr_mouse_press_decrements_coordinates() {
    let r = poll_input(1, b"\x1b[<0;11;6M".to_vec());
    assert_eq!(
        r,
        Ok(Event::Mouse(none(), MouseButton::Left, ButtonType::Press, 10, 5))
    );
}

#[test]
fn sgr_mouse_release_terminator() {
    let r = poll_input(1, b"\x1b[<0;5;4m".to_vec());
    assert_eq!(
        r,
        Ok(Event::Mouse(none(), MouseButton::Left, ButtonType::Release, 4, 3))
    );
}

#[test]
fn sgr_mouse_held_and_wheel() {
    let r = poll_input(1, b"\x1b[<32;2;2M".to_vec());
    assert_eq!(
        r,
        Ok(Event::Mouse(none(), MouseButton::Left, ButtonType::Held, 1, 1))
    );
    let r = poll_input(1, b"\x1b[<35;2;2M".to_vec());
    assert_eq!(
        r,
        Ok(Event::Mouse(none(), MouseButton::NoButton, ButtonType::Held, 1, 1))
    );
    let r = poll_input(1, b"\x1b[<64;3;3M".to_vec());
    assert_eq!(
        r,
        Ok(Event::Mouse(none(), MouseButton::WheelUp, ButtonType::Press, 2, 2))
    );
}

#[test]
fn sgr_mouse_modifier_bits() {
    let r = poll_input(1, b"\x1b[<28;1;1M".to_vec());
    assert_eq!(
        r,
        Ok(Event::Mouse(
            Modifiers::new(true, true, true),
            MouseButton::Left,
            ButtonType::Press,
            0,
            0
        ))
    );
}

#[test]
fn sgr_mouse_zero_coordinate_saturates() {
    let r = poll_input(1, b"\x1b[<0;0;0M".to_vec());
    assert_eq!(
        r,
        Ok(Event::Mouse(none(), MouseButton::Left, ButtonType::Press, 0, 0))
    );
}

#[test]
fn rxvt_mouse_reports() {
    let r = poll_input(1, b"\x1b[32;5;7M".to_vec());
    assert_eq!(
        r,
        Ok(Event::Mouse(none(), MouseButton::Left, ButtonType::Press, 5, 7))
    );
    let r = poll_input(1, b"\x1b[35;1;1M".to_vec());
    assert_eq!(
        r,
        Ok(Event::Mouse(none(), MouseButton::Unknown, ButtonType::Release, 1, 1))
    );
    let r = poll_input(1, b"\x1b[64;2;2M".to_vec());
    assert_eq!(
        r,
        Ok(Event::Mouse(none(), MouseButton::Unknown, ButtonType::Held, 2, 2))
    );
    let r = poll_input(1, b"\x1b[97;2;3M".to_vec());
    assert_eq!(
        r,
        Ok(Event::Mouse(none(), MouseButton::WheelUp, ButtonType::Press, 2, 3))
    );
}

#[test]
fn rxvt_mouse_rejects_unknown_button() {
    let r = poll_input(1, b"\x1b[40;1;1M".to_vec());
    assert_eq!(r, Err(InputError::ParseFailure));
}

#[test]
fn rxvt_mouse_rejects_coordinate_overflow() {
    let r = poll_input(1, b"\x1b[32;70000;1M".to_vec());
    assert_eq!(r, Err(InputError::ParseFailure));
}

#[test]
fn ctrl_c_byte_folds_to_letter_with_ctrl() {
    let r = poll_input(1, vec![0x03]);
    assert_eq!(
        r,
        Ok(Event::Key(Key::Char('c'), ButtonType::Press, Modifiers::new(false, false, true)))
    );
}

#[test]
fn control_byte_table() {
    let r = poll_input(1, vec![b'\r']);
    assert_eq!(r, Ok(Event::Key(Key::Char('\r'), ButtonType::Press, none())));
    let r = poll_input(1, vec![b'\n']);
    assert_eq!(
        r,
        Ok(Event::Key(Key::Char('j'), ButtonType::Press, Modifiers::new(false, false, true)))
    );
    let r = poll_input(1, vec![b'\t']);
    assert_eq!(r, Ok(Event::Key(Key::Char('\t'), ButtonType::Press, none())));
    let r = poll_input(1, vec![0x7f]);
    assert_eq!(r, Ok(Event::Key(Key::Backspace, ButtonType::Press, none())));
    let r = poll_input(1, vec![0x00]);
    assert_eq!(
        r,
        Ok(Event::Key(Key::Char(' '), ButtonType::Press, Modifiers::new(false, false, true)))
    );
    let r = poll_input(1, vec![0x1c]);
    assert_eq!(
        r,
        Ok(Event::Key(Key::Char('4'), ButtonType::Press, Modifiers::new(false, false, true)))
    );
}

#[test]
fn uppercase_character_sets_shift() {
    let r = poll_input(1, vec![b'A']);
    assert_eq!(
        r,
        Ok(Event::Key(Key::Char('A'), ButtonType::Press, Modifiers::new(true, false, false)))
    );
    let r = poll_input(1, vec![b'a']);
    assert_eq!(r, Ok(Event::Key(Key::Char('a'), ButtonType::Press, none())));
}

#[test]
fn multi_byte_character_decodes() {
    let r = poll_input(1, "€".bytes().collect());
    assert_eq!(r, Ok(Event::Key(Key::Char('€'), ButtonType::Press, none())));
}

#[test]
fn alt_prefixed_key() {
    let r = poll_input(1, vec![0x1b, b'a']);
    assert_eq!(
        r,
        Ok(Event::Key(Key::Char('a'), ButtonType::Press, Modifiers::new(false, true, false)))
    );
    let r = poll_input(1, vec![0x1b, 0x03]);
    assert_eq!(
        r,
        Ok(Event::Key(Key::Char('c'), ButtonType::Press, Modifiers::new(false, true, true)))
    );
}

#[test]
fn ss3_function_keys() {
    let r = poll_input(1, b"\x1bOP".to_vec());
    assert_eq!(r, Ok(Event::Key(Key::F(1), ButtonType::Press, none())));
    let r = poll_input(1, b"\x1bOS".to_vec());
    assert_eq!(r, Ok(Event::Key(Key::F(4), ButtonType::Press, none())));
}

#[test]
fn ss3_rejects_out_of_range_byte() {
    let r = poll_input(1, b"\x1bOx".to_vec());
    assert_eq!(r, Err(InputError::ParseFailure));
}

#[test]
fn ss3_rejects_bytes_past_s() {
    let r = poll_input(1, b"\x1bOT".to_vec());
    assert_eq!(r, Err(InputError::ParseFailure));
    let r = poll_input(1, b"\x1bOs".to_vec());
    assert_eq!(r, Err(InputError::ParseFailure));
}

#[test]
fn bracket_function_keys() {
    let r = poll_input(1, b"\x1b[[A".to_vec());
    assert_eq!(r, Ok(Event::Key(Key::F(1), ButtonType::Press, none())));
    let r = poll_input(1, b"\x1b[[C".to_vec());
    assert_eq!(r, Ok(Event::Key(Key::F(3), ButtonType::Press, none())));
}

#[test]
fn shift_tab_from_z_final() {
    let r = poll_input(1, b"\x1b[Z".to_vec());
    assert_eq!(
        r,
        Ok(Event::Key(Key::Tab, ButtonType::Press, Modifiers::new(true, false, false)))
    );
}

#[test]
fn tilde_named_keys() {
    let r = poll_input(1, b"\x1b[1~".to_vec());
    assert_eq!(r, Ok(Event::Key(Key::Home, ButtonType::Press, none())));
    let r = poll_input(1, b"\x1b[2~".to_vec());
    assert_eq!(r, Ok(Event::Key(Key::Insert, ButtonType::Press, none())));
    let r = poll_input(1, b"\x1b[3~".to_vec());
    assert_eq!(r, Ok(Event::Key(Key::Delete, ButtonType::Press, none())));
    let r = poll_input(1, b"\x1b[6~".to_vec());
    assert_eq!(r, Ok(Event::Key(Key::PageDown, ButtonType::Press, none())));
    let r = poll_input(1, b"\x1b[15~".to_vec());
    assert_eq!(r, Ok(Event::Key(Key::F(5), ButtonType::Press, none())));
    let r = poll_input(1, b"\x1b[21~".to_vec());
    assert_eq!(r, Ok(Event::Key(Key::F(10), ButtonType::Press, none())));
    let r = poll_input(1, b"\x1b[24~".to_vec());
    assert_eq!(r, Ok(Event::Key(Key::F(12), ButtonType::Press, none())));
}

#[test]
fn tilde_rejects_multiple_numbers() {
    let r = poll_input(1, b"\x1b[3;2~".to_vec());
    assert_eq!(r, Err(InputError::ParseFailure));
}

#[test]
fn tilde_rejects_unknown_number() {
    let r = poll_input(1, b"\x1b[16~".to_vec());
    assert_eq!(r, Err(InputError::ParseFailure));
}

#[test]
fn kitty_key_events() {
    let r = poll_input(1, b"\x1b[99;1:3u".to_vec());
    assert_eq!(r, Ok(Event::Key(Key::Char('c'), ButtonType::Release, none())));
    let r = poll_input(1, b"\x1b[97u".to_vec());
    assert_eq!(r, Ok(Event::Key(Key::Char('a'), ButtonType::Press, none())));
    let r = poll_input(1, b"\x1b[106;5u".to_vec());
    assert_eq!(r, Ok(Event::Key(Key::Char('j'), ButtonType::Press, none())));
    let r = poll_input(1, b"\x1b[98;1:2u".to_vec());
    assert_eq!(r, Ok(Event::Key(Key::Char('b'), ButtonType::Held, none())));
}

#[test]
fn kitty_rejects_bad_key_type() {
    let r = poll_input(1, b"\x1b[97;1:9u".to_vec());
    assert_eq!(r, Err(InputError::ParseFailure));
}

#[test]
fn escape_bracket_at_stream_end_is_alt_bracket() {
    let r = poll_input(1, vec![0x1b, b'[']);
    assert_eq!(
        r,
        Ok(Event::Key(Key::Char('['), ButtonType::Press, Modifiers::new(false, true, false)))
    );
}

#[test]
fn unterminated_payloads_fail() {
    let r = poll_input(1, b"\x1b[<0;1".to_vec());
    assert_eq!(r, Err(InputError::ParseFailure));
    let r = poll_input(1, b"\x1b[1;6".to_vec());
    assert_eq!(r, Err(InputError::ParseFailure));
    let r = poll_input(1, vec![0x1b, b'[', b'M', 32]);
    assert_eq!(r, Err(InputError::ParseFailure));
}

#[test]
fn truncated_utf8_is_invalid_encoding() {
    let r = poll_input(1, vec![0xf0, 0x9f]);
    assert_eq!(r, Err(InputError::InvalidEncoding));
}

#[test]
fn stray_continuation_byte_is_invalid_encoding() {
    let r = poll_input(1, vec![0x80]);
    assert_eq!(r, Err(InputError::InvalidEncoding));
}

#[test]
fn poll_outcomes_map_to_timeout_and_io() {
    assert_eq!(poll_input(0, vec![]), Err(InputError::TimedOut));
    assert_eq!(poll_input(1, vec![]), Err(InputError::TimedOut));
    assert_eq!(poll_input(-1, vec![0x41]), Err(InputError::Io));
}

#[test]
fn decoding_twice_yields_equal_events() {
    let bytes = b"\x1b[<0;11;6M".to_vec();
    let first = poll_input(1, bytes.clone());
    let second = poll_input(1, bytes);
    assert_eq!(first, second);
    let bytes = "é".bytes().collect::<Vec<u8>>();
    let first = poll_input(1, bytes.clone());
    let second = poll_input(1, bytes);
    assert_eq!(first, second);
}

#[test]
fn consecutive_events_from_one_buffer() {
    let mut iter = ReadIterator::new(b"\x1b[Da\x03".to_vec());
    let b = iter.next().unwrap();
    assert_eq!(
        parse_event(b, &mut iter),
        Ok(Event::Key(Key::Left, ButtonType::Press, none()))
    );
    let b = iter.next().unwrap();
    assert_eq!(
        parse_event(b, &mut iter),
        Ok(Event::Key(Key::Char('a'), ButtonType::Press, none()))
    );
    let b = iter.next().unwrap();
    assert_eq!(
        parse_event(b, &mut iter),
        Ok(Event::Key(Key::Char('c'), ButtonType::Press, Modifiers::new(false, false, true)))
    );
    assert_eq!(iter.next(), None);
}

#[test]
fn rest_hands_back_the_undecoded_tail() {
    let mut iter = ReadIterator::new(b"\x1b[D\x03x".to_vec());
    let b = iter.next().unwrap();
    assert_eq!(
        parse_event(b, &mut iter),
        Ok(Event::Key(Key::Left, ButtonType::Press, none()))
    );
    assert_eq!(iter.rest(), vec![0x03, b'x']);
}
