use termio::input::{key_helper, simple_key, ButtonType, Event, Key, Modifiers};
use termio::unix_input::{parse_utf8_char, ReadIterator};

#[test]
fn test_key_helper() {
    let event = key_helper("ACS*", Key::Char('c'));
    assert_eq!(
        event,
        Event::Key(
            Key::Char('c'),
            ButtonType::Held,
            Modifiers::new(true, false, false).ctrl(true).alt(true)
        )
    )
}

#[test]
fn test_parse_utf8() {
    let string = "abcéŷ¤£€ù%323";
    let bytes: Vec<u8> = string.bytes().collect();
    let mut iter = ReadIterator::new(bytes);
    for c in string.chars() {
        let b = iter.next().unwrap();
        let character = parse_utf8_char(b, &mut iter).unwrap();
        assert!(c == character);
    }
}

#[test]
fn key_helper_empty_marker_is_plain_press() {
    let event = key_helper("", Key::Home);
    assert_eq!(event, Event::Key(Key::Home, ButtonType::Press, Modifiers::none()));
}

#[test]
fn key_helper_release_marker() {
    let event = key_helper("C-", Key::Char('x'));
    assert_eq!(
        event,
        Event::Key(Key::Char('x'), ButtonType::Release, Modifiers::new(false, false, true))
    );
}

#[test]
fn key_helper_last_action_marker_wins() {
    let event = key_helper("-*", Key::Char('x'));
    assert_eq!(event, Event::Key(Key::Char('x'), ButtonType::Held, Modifiers::none()));
}

#[test]
fn simple_key_carries_modifiers() {
    let event = simple_key(Key::Left, true, false, true);
    assert_eq!(
        event,
        Event::Key(Key::Left, ButtonType::Press, Modifiers::new(true, false, true))
    );
}

#[test]
fn modifiers_builders_compose() {
    let m = Modifiers::none().shift(true).alt(true).ctrl(true);
    assert_eq!(m, Modifiers::new(true, true, true));
    let m = Modifiers::new(true, true, true).shift(false);
    assert_eq!(m, Modifiers::new(false, true, true));
}
