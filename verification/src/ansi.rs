//! Collection of ANSI escape code utilities.
//!
//! These build the escape strings that move the cursor, set colors and
//! styles, and retitle the window; printing them is the caller's business.
//! Each builder's contract gives the exact character sequence it returns.

use vstd::prelude::*;
use vstd::string::StringExecFns;
use vstd::utf8::encode_utf8;

use crate::input::InputError;

verus! {

/// The ASCII digits of `n` in decimal, most significant first.
pub open spec fn dec_bytes(n: nat) -> Seq<u8>
    decreases n,
{
    if n < 10 {
        seq![(48 + n) as u8]
    } else {
        dec_bytes(n / 10) + seq![(48 + n % 10) as u8]
    }
}

/// The decimal digits of `n` as characters, most significant first.
pub open spec fn dec_chars(n: nat) -> Seq<char> {
    dec_bytes(n).map_values(|b: u8| b as char)
}

/// `v + 1`, saturating at the largest 16-bit value.
pub open spec fn sat_inc(v: u16) -> nat {
    if v == 65535 {
        65535
    } else {
        v as nat + 1
    }
}

proof fn lemma_dec_bytes_ascii(n: nat)
    ensures
        forall|i: int| 0 <= i < dec_bytes(n).len() ==> 48 <= #[trigger] dec_bytes(n)[i] <= 57,
    decreases n,
{
    if n < 10 {
        assert(dec_bytes(n)[0] == (48 + n) as u8);
    } else {
        lemma_dec_bytes_ascii(n / 10);
        let pre = dec_bytes(n / 10);
        assert(forall|i: int| 0 <= i < pre.len() ==> dec_bytes(n)[i] == #[trigger] pre[i]);
        assert(dec_bytes(n)[pre.len() as int] == (48 + n % 10) as u8);
    }
}

/// Relies on `String::from_utf8`: bytes that are all ASCII are valid
/// UTF-8 and decode to exactly those characters, one per byte.
#[verifier::external_body]
fn ascii_string(bytes: Vec<u8>) -> (r: String)
    requires
        forall|i: int| 0 <= i < bytes@.len() ==> bytes@[i] < 0x80,
    ensures
        r@ == bytes@.map_values(|b: u8| b as char),
{
    match String::from_utf8(bytes) {
        Ok(s) => s,
        Err(_) => String::new(),
    }
}

/// Appends the decimal digits of `n` to the byte buffer.
fn push_dec(out: &mut Vec<u8>, n: u16)
    ensures
        final(out)@ == old(out)@ + dec_bytes(n as nat),
    decreases n,
{
    if n >= 10 {
        push_dec(out, n / 10);
    }
    out.push((n % 10) as u8 + 48);
    proof {
        assert(out@ =~= old(out)@ + dec_bytes(n as nat));
    }
}

/// Builds `ESC [ <n> <fin>`, the one-parameter CSI form.
fn csi_one_num(n: u16, fin: u8) -> (r: String)
    requires
        32 <= fin < 127,
    ensures
        r@ == seq!['\u{1b}', '['] + dec_chars(n as nat) + seq![fin as char],
{
    let mut b: Vec<u8> = Vec::new();
    b.push(27);
    b.push(91);
    push_dec(&mut b, n);
    b.push(fin);
    proof {
        lemma_dec_bytes_ascii(n as nat);
        assert(b@ =~= seq![27u8, 91u8] + dec_bytes(n as nat) + seq![fin]);
        assert(b@.map_values(|x: u8| x as char) =~= seq!['\u{1b}', '['] + dec_chars(n as nat)
            + seq![fin as char]);
    }
    ascii_string(b)
}

/// Sets the terminal to an arbitrary truecolor color in the foreground
/// when printed.
#[must_use]
pub fn rgb_color_code_fg(red: u8, green: u8, blue: u8) -> (r: String)
    ensures
        r@ == seq!['\u{1b}', '[', '3', '8', ';', '2', ';'] + dec_chars(red as nat) + seq![';']
            + dec_chars(green as nat) + seq![';'] + dec_chars(blue as nat) + seq!['m'],
{
    rgb_color_code(51, red, green, blue)
}

/// Sets the terminal to an arbitrary truecolor color in the background
/// when printed.
#[must_use]
pub fn rgb_color_code_bg(red: u8, green: u8, blue: u8) -> (r: String)
    ensures
        r@ == seq!['\u{1b}', '[', '4', '8', ';', '2', ';'] + dec_chars(red as nat) + seq![';']
            + dec_chars(green as nat) + seq![';'] + dec_chars(blue as nat) + seq!['m'],
{
    rgb_color_code(52, red, green, blue)
}

/// Builds `ESC [ <plane> 8 ; 2 ; r ; g ; b m`, the truecolor form shared
/// by the foreground (`plane` is the digit 3) and background (4) codes.
fn rgb_color_code(plane: u8, red: u8, green: u8, blue: u8) -> (r: String)
    requires
        48 <= plane <= 57,
    ensures
        r@ == seq!['\u{1b}', '[', plane as char, '8', ';', '2', ';'] + dec_chars(red as nat)
            + seq![';'] + dec_chars(green as nat) + seq![';'] + dec_chars(blue as nat)
            + seq!['m'],
{
    let mut b: Vec<u8> = Vec::new();
    b.push(27);
    b.push(91);
    b.push(plane);
    b.push(56);
    b.push(59);
    b.push(50);
    b.push(59);
    push_dec(&mut b, red as u16);
    b.push(59);
    push_dec(&mut b, green as u16);
    b.push(59);
    push_dec(&mut b, blue as u16);
    b.push(109);
    proof {
        lemma_dec_bytes_ascii(red as nat);
        lemma_dec_bytes_ascii(green as nat);
        lemma_dec_bytes_ascii(blue as nat);
        assert(b@ =~= seq![27u8, 91u8, plane, 56u8, 59u8, 50u8, 59u8] + dec_bytes(red as nat)
            + seq![59u8] + dec_bytes(green as nat) + seq![59u8] + dec_bytes(blue as nat)
            + seq![109u8]);
        assert(b@.map_values(|x: u8| x as char) =~= seq![
            '\u{1b}',
            '[',
            plane as char,
            '8',
            ';',
            '2',
            ';',
        ] + dec_chars(red as nat) + seq![';'] + dec_chars(green as nat) + seq![';'] + dec_chars(
            blue as nat,
        ) + seq!['m']);
    }
    ascii_string(b)
}

/// Sets the title of the window when printed; titles over 255 bytes are
/// refused.
#[must_use]
pub fn set_window_title(title: &str) -> (r: Option<String>)
    ensures
        encode_utf8(title@).len() > 255 ==> r is None,
        encode_utf8(title@).len() <= 255 ==> (r matches Some(s) && s@ == seq![
            '\u{1b}',
            ']',
            '0',
            ';',
        ] + title@ + seq!['\u{1b}', '\u{5c}']),
{
    broadcast use vstd::slice::axiom_spec_len;

    let bytes = title.as_bytes();
    if bytes.len() > 255 {
        return None;
    }
    proof {
        assert(bytes@ == encode_utf8(title@));
    }
    let mut s = String::new();
    s.append("\x1b]0;");
    s.append(title);
    s.append("\x1b\x5c");
    proof {
        reveal_strlit("\x1b]0;");
        reveal_strlit("\x1b\x5c");
        assert(s@ =~= seq!['\u{1b}', ']', '0', ';'] + title@ + seq!['\u{1b}', '\u{5c}']);
    }
    Some(s)
}

/// Moves the cursor up `num` rows when printed.
#[must_use]
pub fn move_cursor_up(num: u16) -> (r: String)
    ensures
        r@ == seq!['\u{1b}', '['] + dec_chars(num as nat) + seq!['A'],
{
    csi_one_num(num, 65)
}

/// Moves the cursor down `num` rows when printed.
#[must_use]
pub fn move_cursor_down(num: u16) -> (r: String)
    ensures
        r@ == seq!['\u{1b}', '['] + dec_chars(num as nat) + seq!['B'],
{
    csi_one_num(num, 66)
}

/// Moves the cursor right `num` columns when printed.
#[must_use]
pub fn move_cursor_right(num: u16) -> (r: String)
    ensures
        r@ == seq!['\u{1b}', '['] + dec_chars(num as nat) + seq!['C'],
{
    csi_one_num(num, 67)
}

/// Moves the cursor left `num` columns when printed.
#[must_use]
pub fn move_cursor_left(num: u16) -> (r: String)
    ensures
        r@ == seq!['\u{1b}', '['] + dec_chars(num as nat) + seq!['D'],
{
    csi_one_num(num, 68)
}

/// Moves the cursor to the given row when printed; the origin is row 0,
/// the wire format is 1-based.
#[must_use]
pub fn move_cursor_to_row(line: u16) -> (r: String)
    ensures
        r@ == seq!['\u{1b}', '['] + dec_chars(sat_inc(line)) + seq!['d'],
{
    let v: u16 = if line == 65535 {
        line
    } else {
        line + 1
    };
    csi_one_num(v, 100)
}

/// Moves the cursor to the given column when printed; the origin is
/// column 0, the wire format is 1-based.
#[must_use]
pub fn move_cursor_to_column(column: u16) -> (r: String)
    ensures
        r@ == seq!['\u{1b}', '['] + dec_chars(sat_inc(column)) + seq!['G'],
{
    let v: u16 = if column == 65535 {
        column
    } else {
        column + 1
    };
    csi_one_num(v, 71)
}

/// Moves the cursor to the given column and row when printed; the origin
/// is (0, 0), the wire format is 1-based.
#[must_use]
pub fn move_cursor_to_position(column: u16, line: u16) -> (r: String)
    ensures
        r@ == seq!['\u{1b}', '['] + dec_chars(sat_inc(line)) + seq![';'] + dec_chars(
            sat_inc(column),
        ) + seq!['H'],
{
    let lv: u16 = if line == 65535 {
        line
    } else {
        line + 1
    };
    let cv: u16 = if column == 65535 {
        column
    } else {
        column + 1
    };
    let mut b: Vec<u8> = Vec::new();
    b.push(27);
    b.push(91);
    push_dec(&mut b, lv);
    b.push(59);
    push_dec(&mut b, cv);
    b.push(72);
    proof {
        lemma_dec_bytes_ascii(lv as nat);
        lemma_dec_bytes_ascii(cv as nat);
        assert(b@ =~= seq![27u8, 91u8] + dec_bytes(lv as nat) + seq![59u8] + dec_bytes(cv as nat)
            + seq![72u8]);
        assert(b@.map_values(|x: u8| x as char) =~= seq!['\u{1b}', '['] + dec_chars(sat_inc(line))
            + seq![';'] + dec_chars(sat_inc(column)) + seq!['H']);
    }
    ascii_string(b)
}

/// Enables ANSI processing. ANSI is on by default on Unix terminals, so
/// this never fails and changes nothing; it exists so that callers can be
/// written uniformly against the console platforms that need the switch.
pub fn enable_ansi() -> (r: Result<(), InputError>)
    ensures
        r is Ok,
{
    Ok(())
}

/// Disables ANSI processing. ANSI is on by default on Unix terminals, so
/// this never fails and changes nothing; it exists so that callers can be
/// written uniformly against the console platforms that need the switch.
pub fn disable_ansi() -> (r: Result<(), InputError>)
    ensures
        r is Ok,
{
    Ok(())
}

/// Saves the current cursor position.
pub const CURSOR_POSITION_SAVE: &'static str = "\x1b7";

/// Restores the saved cursor position.
pub const CURSOR_POSITION_RESTORE: &'static str = "\x1b8";

/// Enters the alternate screen, a blank screen that will not interrupt
/// the main screen.
pub const ALT_SCREEN_ENTER: &'static str = "\x1b[?1049h";

/// Exits the alternate screen.
pub const ALT_SCREEN_EXIT: &'static str = "\x1b[?1049l";

/// Erases the entire screen while leaving the cursor in place.
pub const ERASE_SCREEN: &'static str = "\x1b[2J";

/// Erases the line the cursor is on while leaving the cursor in place.
pub const ERASE_LINE: &'static str = "\x1b[2K";

/// Makes characters sent to the screen bold.
pub const STYLE_BOLD: &'static str = "\x1b[1m";

/// Makes characters sent to the screen dim.
pub const STYLE_DIM: &'static str = "\x1b[2m";

/// Makes characters sent to the screen italic.
pub const STYLE_ITALIC: &'static str = "\x1b[3m";

/// Makes characters sent to the screen underlined.
pub const STYLE_UNDERLINE: &'static str = "\x1b[4m";

/// Resets all styles and colors.
pub const STYLE_RESET: &'static str = "\x1b[0m";

/// Sets the cursor shape to the user-specified default.
pub const SHAPE_RESET: &'static str = "\x1b[0q";

/// Sets the cursor shape to a blinking block.
pub const SHAPE_BLOCK_BLINKING: &'static str = "\x1b[1q";

/// Sets the cursor shape to a steady block.
pub const SHAPE_BLOCK_STEADY: &'static str = "\x1b[2q";

/// Sets the cursor shape to a blinking underline.
pub const SHAPE_UNDERLINE_BLINKING: &'static str = "\x1b[3q";

/// Sets the cursor shape to a steady underline.
pub const SHAPE_UNDERLINE_STEADY: &'static str = "\x1b[4q";

/// Sets the cursor shape to a blinking bar.
pub const SHAPE_BAR_BLINKING: &'static str = "\x1b[5q";

/// Sets the cursor shape to a steady bar.
pub const SHAPE_BAR_STEADY: &'static str = "\x1b[6q";

/// Erases from the screen start to the cursor while leaving the cursor in
/// place.
pub const ERASE_CURSOR_TO_SCREEN_START: &'static str = "\x1b[1J";

/// Erases from the cursor to the screen end while leaving the cursor in
/// place.
pub const ERASE_CURSOR_TO_SCREEN_END: &'static str = "\x1b[0J";

/// Erases from the line start to the cursor while leaving the cursor in
/// place.
pub const ERASE_CURSOR_TO_LINE_START: &'static str = "\x1b[1K";

/// Erases from the cursor to the line end while leaving the cursor in
/// place.
pub const ERASE_CURSOR_TO_LINE_END: &'static str = "\x1b[0K";

/// Makes characters sent to the screen blinking.
pub const STYLE_BLINKING: &'static str = "\x1b[5m";

/// Makes characters sent to the screen reversed.
pub const STYLE_REVERSE: &'static str = "\x1b[7m";

/// Makes characters sent to the screen hidden.
pub const STYLE_HIDDEN: &'static str = "\x1b[8m";

/// Makes characters sent to the screen struckthrough.
pub const STYLE_STRIKETHROUGH: &'static str = "\x1b[9m";

/// Resets bold; bold and dim implementations often overlap, so both may
/// unset.
pub const STYLE_RESET_BOLD: &'static str = "\x1b[21m";

/// Resets dim; bold and dim implementations often overlap, so both may
/// unset.
pub const STYLE_RESET_DIM: &'static str = "\x1b[22m";

/// Resets italic.
pub const STYLE_RESET_ITALIC: &'static str = "\x1b[23m";

/// Resets underline.
pub const STYLE_RESET_UNDERLINE: &'static str = "\x1b[24m";

/// Resets blinking.
pub const STYLE_RESET_BLINKING: &'static str = "\x1b[25m";

/// Resets reverse.
pub const STYLE_RESET_REVERSE: &'static str = "\x1b[27m";

/// Resets hidden.
pub const STYLE_RESET_HIDDEN: &'static str = "\x1b[28m";

/// Resets strikethrough.
pub const STYLE_RESET_STRIKETHROUGH: &'static str = "\x1b[29m";

/// Black foreground.
pub const COLOR_BLACK_FG: &'static str = "\x1b[30m";

/// Black background.
pub const COLOR_BLACK_BG: &'static str = "\x1b[40m";

/// Red foreground.
pub const COLOR_RED_FG: &'static str = "\x1b[31m";

/// Red background.
pub const COLOR_RED_BG: &'static str = "\x1b[41m";

/// Green foreground.
pub const COLOR_GREEN_FG: &'static str = "\x1b[32m";

/// Green background.
pub const COLOR_GREEN_BG: &'static str = "\x1b[42m";

/// Yellow foreground.
pub const COLOR_YELLOW_FG: &'static str = "\x1b[33m";

/// Yellow background.
pub const COLOR_YELLOW_BG: &'static str = "\x1b[43m";

/// Blue foreground.
pub const COLOR_BLUE_FG: &'static str = "\x1b[34m";

/// Blue background.
pub const COLOR_BLUE_BG: &'static str = "\x1b[44m";

/// Magenta foreground.
pub const COLOR_MAGENTA_FG: &'static str = "\x1b[35m";

/// Magenta background.
pub const COLOR_MAGENTA_BG: &'static str = "\x1b[45m";

/// Cyan foreground.
pub const COLOR_CYAN_FG: &'static str = "\x1b[36m";

/// Cyan background.
pub const COLOR_CYAN_BG: &'static str = "\x1b[46m";

/// White foreground.
pub const COLOR_WHITE_FG: &'static str = "\x1b[37m";

/// White background.
pub const COLOR_WHITE_BG: &'static str = "\x1b[47m";

/// Default foreground.
pub const COLOR_DEFAULT_FG: &'static str = "\x1b[39m";

/// Default background.
pub const COLOR_DEFAULT_BG: &'static str = "\x1b[49m";

/// All foreground colors in the order: Black, Red, Green, Yellow, Blue,
/// Magenta, Cyan, White, Default.
pub const COLORS_FG: [&'static str; 9] = [
    COLOR_BLACK_FG,
    COLOR_RED_FG,
    COLOR_GREEN_FG,
    COLOR_YELLOW_FG,
    COLOR_BLUE_FG,
    COLOR_MAGENTA_FG,
    COLOR_CYAN_FG,
    COLOR_WHITE_FG,
    COLOR_DEFAULT_FG,
];

/// All background colors in the order: Black, Red, Green, Yellow, Blue,
/// Magenta, Cyan, White, Default.
pub const COLORS_BG: [&'static str; 9] = [
    COLOR_BLACK_BG,
    COLOR_RED_BG,
    COLOR_GREEN_BG,
    COLOR_YELLOW_BG,
    COLOR_BLUE_BG,
    COLOR_MAGENTA_BG,
    COLOR_CYAN_BG,
    COLOR_WHITE_BG,
    COLOR_DEFAULT_BG,
];

/// All foreground and background color pairs in the order: Black, Red,
/// Green, Yellow, Blue, Magenta, Cyan, White, Default.
pub const COLORS: [(&'static str, &'static str); 9] = [
    (COLOR_BLACK_FG, COLOR_BLACK_BG),
    (COLOR_RED_FG, COLOR_RED_BG),
    (COLOR_GREEN_FG, COLOR_GREEN_BG),
    (COLOR_YELLOW_FG, COLOR_YELLOW_BG),
    (COLOR_BLUE_FG, COLOR_BLUE_BG),
    (COLOR_MAGENTA_FG, COLOR_MAGENTA_BG),
    (COLOR_CYAN_FG, COLOR_CYAN_BG),
    (COLOR_WHITE_FG, COLOR_WHITE_BG),
    (COLOR_DEFAULT_FG, COLOR_DEFAULT_BG),
];

} // verus!
