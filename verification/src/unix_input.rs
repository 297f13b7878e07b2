//! The byte-stream input decoder.
//!
//! A Unix terminal in raw mode delivers input as an untyped byte stream:
//! UTF-8 encoded characters, control bytes, and ANSI/VT escape sequences,
//! among them three distinct mouse-reporting protocols. The functions here
//! turn the bytes that one poll of the terminal made available into exactly
//! one [`Event`], consuming only the bytes that belong to it.
//!
//! Every decoding function is specified against a spec-level model of the
//! same grammar (`spec_parse_event` and its helpers), so that what an input
//! decodes to is a mathematical function of the bytes alone.

use vstd::prelude::*;
use vstd::utf8::{
    valid_first_scalar, decode_first_scalar, length_of_first_scalar, is_scalar, char_u32_cast,
    char_is_scalar, encode_scalar, encode_utf8, encode_utf8_first_scalar,
};

use crate::chars::{char_from_u32, char_is_uppercase, is_uppercase_char};
use crate::input::{ButtonType, Event, InputError, Key, Modifiers, MouseButton};

verus! {

/// The bytes that one readiness poll of the terminal made available,
/// handed out one at a time. The end of the buffer stands for "no further
/// byte arrived within the poll": the decoder commits on what is there.
pub struct ReadIterator {
    bytes: Vec<u8>,
    pos: usize,
}

impl ReadIterator {
    /// The whole byte buffer the iterator was built over.
    pub closed spec fn stream(self) -> Seq<u8> {
        self.bytes@
    }

    /// How many bytes have been handed out so far.
    pub closed spec fn cursor(self) -> int {
        self.pos as int
    }

    /// The bytes not yet handed out.
    pub open spec fn remaining(self) -> Seq<u8> {
        self.stream().skip(self.cursor())
    }

    pub open spec fn wf(self) -> bool {
        0 <= self.cursor() <= self.stream().len()
    }

    /// Wraps the bytes that a readiness poll found waiting.
    pub fn new(bytes: Vec<u8>) -> (r: Self)
        ensures
            r.wf(),
            r.stream() == bytes@,
            r.cursor() == 0,
            r.remaining() == bytes@,
    {
        let r = ReadIterator { bytes, pos: 0 };
        proof {
            assert(r.remaining() =~= r.stream());
        }
        r
    }

    /// Hands out the next available byte, or `None` at the end of what the
    /// poll delivered.
    pub fn next(&mut self) -> (r: Option<u8>)
        requires
            old(self).wf(),
        ensures
            final(self).wf(),
            final(self).stream() == old(self).stream(),
            old(self).remaining().len() == 0 ==> r is None
                && final(self).cursor() == old(self).cursor(),
            old(self).remaining().len() > 0 ==> r == Some(old(self).remaining()[0])
                && final(self).cursor() == old(self).cursor() + 1,
    {
        if self.pos < self.bytes.len() {
            let b = self.bytes[self.pos];
            self.pos += 1;
            Some(b)
        } else {
            None
        }
    }

    /// Gives up the bytes not yet handed out, so that a caller can carry
    /// what follows one decoded event over to the next decode.
    pub fn rest(self) -> (r: Vec<u8>)
        requires
            self.wf(),
        ensures
            r@ == self.remaining(),
    {
        let pos = self.pos;
        let mut bytes = self.bytes;
        bytes.split_off(pos)
    }
}

/// What one UTF-8 scalar value decodes to, given the already-consumed first
/// byte `c` and the stream `s` behind it: the character and how many bytes
/// of `s` belong to it. At most three continuation bytes are examined (four
/// bytes in all, the longest UTF-8 encoding); if no valid scalar has formed
/// by then, or the stream ends first, the result is `InvalidEncoding` and
/// everything examined counts as consumed.
pub open spec fn spec_parse_utf8(c: u8, s: Seq<u8>) -> (Result<char, InputError>, int) {
    let m: int = if s.len() >= 3 { 3 } else { s.len() as int };
    let avail = seq![c] + s.take(m);
    if valid_first_scalar(avail) {
        (Result::Ok(decode_first_scalar(avail) as char), length_of_first_scalar(avail) - 1)
    } else {
        (Result::Err(InputError::InvalidEncoding), m)
    }
}

/// Reassembles one Unicode scalar value from its first byte `c` and as many
/// further bytes as its encoding needs, pulled lazily from the iterator.
pub fn parse_utf8_char(c: u8, iter: &mut ReadIterator) -> (r: Result<char, InputError>)
    requires
        old(iter).wf(),
    ensures
        final(iter).wf(),
        final(iter).stream() == old(iter).stream(),
        r == spec_parse_utf8(c, old(iter).remaining()).0,
        final(iter).cursor() == old(iter).cursor() + spec_parse_utf8(c, old(iter).remaining()).1,
{
    let ghost s = old(iter).remaining();
    let ghost m: int = if s.len() >= 3 { 3 } else { s.len() as int };
    let ghost avail = seq![c] + s.take(m);
    proof {
        assert(avail[0] == c);
        assert(forall|i: int| 0 <= i < m ==> avail[i + 1] == s[i]);
    }
    if c < 0x80 {
        proof {
            assert(c & 0x7F == c) by (bit_vector)
                requires
                    c < 0x80,
            ;
            assert(valid_first_scalar(avail));
            assert(decode_first_scalar(avail) == c as u32);
            assert((c as u32) as char == c as char) by {
                assert((c as char) as u32 == c as u32);
                char_u32_cast(c as char, c as u32);
            }
        }
        return Ok(c as char);
    }
    let b1 = match iter.next() {
        Some(b) => b,
        None => {
            proof {
                assert(!valid_first_scalar(avail));
            }
            return Err(InputError::InvalidEncoding);
        },
    };
    if 0xC0 <= c && c <= 0xDF && 0x80 <= b1 && b1 <= 0xBF {
        let cp: u32 = (((c & 0x1F) as u32) << 6) | ((b1 & 0x3F) as u32);
        if cp >= 0x80 {
            proof {
                assert(avail.len() >= 2 && avail[1] == b1);
                assert((((c & 0x1F) as u32) << 6) | ((b1 & 0x3F) as u32) <= 0x7FF)
                    by (bit_vector);
                assert(valid_first_scalar(avail));
                assert(decode_first_scalar(avail) == cp);
                assert(length_of_first_scalar(avail) == 2);
            }
            let ch = char_from_u32_must(cp);
            return Ok(ch);
        }
    }
    let b2 = match iter.next() {
        Some(b) => b,
        None => {
            proof {
                assert(m == 1);
                assert(!valid_first_scalar(avail));
            }
            return Err(InputError::InvalidEncoding);
        },
    };
    if 0xE0 <= c && c <= 0xEF && 0x80 <= b1 && b1 <= 0xBF && 0x80 <= b2 && b2 <= 0xBF {
        let cp: u32 = (((c & 0x0F) as u32) << 12) | (((b1 & 0x3F) as u32) << 6) | ((b2
            & 0x3F) as u32);
        if cp >= 0x800 && !(0xD800 <= cp && cp <= 0xDFFF) {
            proof {
                assert(avail.len() >= 3 && avail[1] == b1 && avail[2] == b2);
                assert((((c & 0x0F) as u32) << 12) | (((b1 & 0x3F) as u32) << 6) | ((b2
                    & 0x3F) as u32) <= 0xFFFF) by (bit_vector);
                assert(valid_first_scalar(avail));
                assert(decode_first_scalar(avail) == cp);
                assert(length_of_first_scalar(avail) == 3);
            }
            let ch = char_from_u32_must(cp);
            return Ok(ch);
        }
    }
    let b3 = match iter.next() {
        Some(b) => b,
        None => {
            proof {
                assert(m == 2);
                assert(!valid_first_scalar(avail));
            }
            return Err(InputError::InvalidEncoding);
        },
    };
    if 0xF0 <= c && c <= 0xF7 && 0x80 <= b1 && b1 <= 0xBF && 0x80 <= b2 && b2 <= 0xBF && 0x80 <= b3
        && b3 <= 0xBF {
        let cp: u32 = (((c & 0x07) as u32) << 18) | (((b1 & 0x3F) as u32) << 12) | (((b2
            & 0x3F) as u32) << 6) | ((b3 & 0x3F) as u32);
        if 0x10000 <= cp && cp <= 0x10FFFF {
            proof {
                assert(avail.len() == 4 && avail[1] == b1 && avail[2] == b2 && avail[3] == b3);
                assert(valid_first_scalar(avail));
                assert(decode_first_scalar(avail) == cp);
                assert(length_of_first_scalar(avail) == 4);
            }
            let ch = char_from_u32_must(cp);
            return Ok(ch);
        }
    }
    proof {
        assert(m == 3);
        assert(!valid_first_scalar(avail));
    }
    Err(InputError::InvalidEncoding)
}

/// Turns a value that the surrounding decoder has already shown to be a
/// Unicode scalar into the character it denotes.
fn char_from_u32_must(cp: u32) -> (r: char)
    requires
        is_scalar(cp),
    ensures
        r == cp as char,
        r as u32 == cp,
{
    let ch = match char_from_u32(cp) {
        Some(ch) => ch,
        None => {
            proof {
                assert(false);
            }
            ' '
        },
    };
    proof {
        char_u32_cast(ch, cp);
    }
    ch
}

/// A byte that ends a CSI escape payload when `sgr` is false, or an
/// SGR mouse report (`M` or `m`) when `sgr` is true.
pub open spec fn is_stop_byte(b: u8, sgr: bool) -> bool {
    if sgr {
        b == 77 || b == 109
    } else {
        64 <= b <= 126
    }
}

/// Index of the first stop byte in `s`, or `s.len()` when there is none.
pub open spec fn scan_stop(s: Seq<u8>, sgr: bool) -> int
    decreases s.len(),
{
    if s.len() == 0 {
        0
    } else if is_stop_byte(s[0], sgr) {
        0
    } else {
        1 + scan_stop(s.skip(1), sgr)
    }
}

pub proof fn lemma_scan_stop(s: Seq<u8>, sgr: bool)
    ensures
        0 <= scan_stop(s, sgr) <= s.len(),
        forall|i: int| 0 <= i < scan_stop(s, sgr) ==> !is_stop_byte(#[trigger] s[i], sgr),
        scan_stop(s, sgr) < s.len() ==> is_stop_byte(s[scan_stop(s, sgr)], sgr),
    decreases s.len(),
{
    if s.len() == 0 {
    } else if is_stop_byte(s[0], sgr) {
    } else {
        lemma_scan_stop(s.skip(1), sgr);
        assert(forall|i: int| 1 <= i < scan_stop(s, sgr) ==> s[i] == s.skip(1)[i - 1]);
    }
}

/// The pieces of `s` between occurrences of the separator, in order; there
/// is always at least one piece, and a separator at either edge yields an
/// empty piece there.
pub open spec fn split_fields(s: Seq<u8>, sep: u8) -> Seq<Seq<u8>>
    decreases s.len(),
{
    if s.len() == 0 {
        seq![Seq::<u8>::empty()]
    } else if s[0] == sep {
        seq![Seq::<u8>::empty()] + split_fields(s.skip(1), sep)
    } else {
        let rest = split_fields(s.skip(1), sep);
        seq![seq![s[0]] + rest[0]] + rest.skip(1)
    }
}

pub proof fn lemma_split_fields_len(s: Seq<u8>, sep: u8)
    ensures
        split_fields(s, sep).len() >= 1,
    decreases s.len(),
{
    if s.len() == 0 {
    } else {
        lemma_split_fields_len(s.skip(1), sep);
    }
}

/// The fields that remain once a partial first piece `cur` is put back in
/// front of the first field.
spec fn fields_with_prefix(cur: Seq<u8>, fields: Seq<Seq<u8>>) -> Seq<Seq<u8>> {
    seq![cur + fields[0]] + fields.skip(1)
}

/// Splits a buffer at every occurrence of the separator byte.
fn split_buf(buf: &Vec<u8>, sep: u8) -> (r: Vec<Vec<u8>>)
    ensures
        r@.map_values(|p: Vec<u8>| p@) == split_fields(buf@, sep),
        r@.len() >= 1,
{
    let mut out: Vec<Vec<u8>> = Vec::new();
    let mut cur: Vec<u8> = Vec::new();
    let mut i: usize = 0;
    proof {
        assert(buf@.skip(0) =~= buf@);
        lemma_split_fields_len(buf@, sep);
        assert(fields_with_prefix(cur@, split_fields(buf@.skip(0), sep)) =~~= split_fields(
            buf@,
            sep,
        ));
        assert(out@.map_values(|p: Vec<u8>| p@) + fields_with_prefix(
            cur@,
            split_fields(buf@.skip(0), sep),
        ) =~~= split_fields(buf@, sep));
    }
    while i < buf.len()
        invariant
            0 <= i <= buf@.len(),
            out@.map_values(|p: Vec<u8>| p@) + fields_with_prefix(
                cur@,
                split_fields(buf@.skip(i as int), sep),
            ) =~= split_fields(buf@, sep),
        decreases buf@.len() - i,
    {
        let ghost pre_out = out@.map_values(|p: Vec<u8>| p@);
        let ghost pre_cur = cur@;
        let ghost tail = buf@.skip(i as int);
        let ghost rest = split_fields(buf@.skip(i + 1), sep);
        proof {
            lemma_split_fields_len(buf@.skip(i + 1), sep);
            assert(tail[0] == buf@[i as int]);
            assert(tail.skip(1) =~= buf@.skip(i + 1));
        }
        let b = buf[i];
        if b == sep {
            out.push(cur);
            cur = Vec::new();
            proof {
                assert(split_fields(tail, sep) =~~= seq![Seq::<u8>::empty()] + rest);
                assert(out@.map_values(|p: Vec<u8>| p@) =~= pre_out.push(pre_cur));
                assert(fields_with_prefix(pre_cur, split_fields(tail, sep)) =~~= seq![pre_cur]
                    + rest);
                assert(fields_with_prefix(cur@, rest) =~~= rest);
                assert(out@.map_values(|p: Vec<u8>| p@) + fields_with_prefix(cur@, rest)
                    =~~= pre_out + fields_with_prefix(pre_cur, split_fields(tail, sep)));
            }
        } else {
            cur.push(b);
            proof {
                assert(split_fields(tail, sep) =~~= seq![seq![tail[0]] + rest[0]] + rest.skip(
                    1,
                ));
                assert(fields_with_prefix(pre_cur, split_fields(tail, sep)) =~~= seq![(pre_cur
                    + seq![tail[0]]) + rest[0]] + rest.skip(1));
                assert(cur@ =~= pre_cur + seq![tail[0]]);
                assert(fields_with_prefix(cur@, rest) =~~= fields_with_prefix(
                    pre_cur,
                    split_fields(tail, sep),
                ));
            }
        }
        i += 1;
    }
    proof {
        assert(buf@.skip(i as int) =~= Seq::<u8>::empty());
        assert(split_fields(buf@.skip(i as int), sep) =~~= seq![Seq::<u8>::empty()]);
        assert(fields_with_prefix(cur@, split_fields(buf@.skip(i as int), sep)) =~~= seq![cur@]);
    }
    let ghost pre_out = out@.map_values(|p: Vec<u8>| p@);
    let ghost last = cur@;
    out.push(cur);
    proof {
        assert(out@.map_values(|p: Vec<u8>| p@) =~= pre_out.push(last));
        assert(out@.map_values(|p: Vec<u8>| p@) =~~= split_fields(buf@, sep));
    }
    out
}

pub open spec fn is_digit(b: u8) -> bool {
    48 <= b <= 57
}

pub open spec fn all_digits(s: Seq<u8>) -> bool {
    forall|i: int| 0 <= i < s.len() ==> is_digit(#[trigger] s[i])
}

/// The number that a run of ASCII digits denotes.
pub open spec fn dec_value(s: Seq<u8>) -> int
    decreases s.len(),
{
    if s.len() == 0 {
        0
    } else {
        dec_value(s.drop_last()) * 10 + (s.last() - 48)
    }
}

/// What parsing a decimal field yields: its value, provided the field is a
/// nonempty run of digits whose value does not exceed `max`.
pub open spec fn parse_num(s: Seq<u8>, max: int) -> Option<int> {
    if s.len() > 0 && all_digits(s) && dec_value(s) <= max {
        Some(dec_value(s))
    } else {
        None
    }
}

pub proof fn lemma_dec_value_nonneg(s: Seq<u8>)
    requires
        all_digits(s),
    ensures
        dec_value(s) >= 0,
    decreases s.len(),
{
    if s.len() > 0 {
        assert(all_digits(s.drop_last())) by {
            assert(forall|i: int| 0 <= i < s.len() - 1 ==> s.drop_last()[i] == s[i]);
        }
        lemma_dec_value_nonneg(s.drop_last());
    }
}

pub proof fn lemma_dec_value_prefix(s: Seq<u8>, i: int)
    requires
        all_digits(s),
        0 <= i <= s.len(),
    ensures
        dec_value(s.take(i)) <= dec_value(s),
    decreases s.len(),
{
    if i == s.len() {
        assert(s.take(i) =~= s);
    } else {
        assert(all_digits(s.drop_last())) by {
            assert(forall|j: int| 0 <= j < s.len() - 1 ==> s.drop_last()[j] == s[j]);
        }
        lemma_dec_value_nonneg(s.drop_last());
        lemma_dec_value_prefix(s.drop_last(), i);
        assert(s.drop_last().take(i) =~= s.take(i));
    }
}

/// Parses one decimal field, refusing empty fields, non-digits, and values
/// above `max`.
fn parse_dec(s: &Vec<u8>, max: u32) -> (r: Option<u32>)
    ensures
        r matches Some(v) ==> parse_num(s@, max as int) == Some(v as int),
        r is None ==> parse_num(s@, max as int) is None,
{
    if s.len() == 0 {
        return None;
    }
    let mut val: u64 = 0;
    let mut i: usize = 0;
    while i < s.len()
        invariant
            0 <= i <= s@.len(),
            all_digits(s@.take(i as int)),
            val == dec_value(s@.take(i as int)),
            0 <= val <= max,
        decreases s@.len() - i,
    {
        let b = s[i];
        if b < 48 || b > 57 {
            return None;
        }
        let v2: u64 = val * 10 + ((b - 48) as u64);
        proof {
            assert(s@.take(i + 1).drop_last() =~= s@.take(i as int));
            assert(s@.take(i + 1).last() == s@[i as int]);
        }
        if v2 > max as u64 {
            proof {
                if all_digits(s@) {
                    lemma_dec_value_prefix(s@, i + 1);
                }
            }
            return None;
        }
        val = v2;
        i += 1;
    }
    proof {
        assert(s@.take(i as int) =~= s@);
    }
    Some(val as u32)
}

/// Collects bytes up to the first stop byte, which is returned beside
/// them; `None` when the stream ends first, everything then consumed.
fn read_until_stop(iter: &mut ReadIterator, sgr: bool) -> (r: Option<(Vec<u8>, u8)>)
    requires
        old(iter).wf(),
    ensures
        final(iter).wf(),
        final(iter).stream() == old(iter).stream(),
        ({
            let s = old(iter).remaining();
            let j = scan_stop(s, sgr);
            if j >= s.len() {
                r is None && final(iter).cursor() == old(iter).cursor() + s.len()
            } else {
                r matches Some(bt) && bt.0@ == s.take(j) && bt.1 == s[j] && final(iter).cursor()
                    == old(iter).cursor() + j + 1
            }
        }),
{
    let ghost s = old(iter).remaining();
    let ghost j = scan_stop(s, sgr);
    proof {
        lemma_scan_stop(s, sgr);
    }
    let mut buf: Vec<u8> = Vec::new();
    proof {
        assert(buf@ =~= s.take(0));
    }
    loop
        invariant
            iter.wf(),
            iter.stream() == old(iter).stream(),
            old(iter).cursor() <= iter.cursor() <= iter.stream().len(),
            s == old(iter).remaining(),
            j == scan_stop(s, sgr),
            0 <= j <= s.len(),
            forall|i: int| 0 <= i < j ==> !is_stop_byte(#[trigger] s[i], sgr),
            j < s.len() ==> is_stop_byte(s[j], sgr),
            buf@ == s.take(iter.cursor() - old(iter).cursor()),
            iter.cursor() - old(iter).cursor() <= j,
        decreases s.len() - (iter.cursor() - old(iter).cursor()),
    {
        let ghost i = iter.cursor() - old(iter).cursor();
        proof {
            assert(iter.remaining() =~= s.skip(i));
            assert(iter.remaining().len() == s.len() - i);
            if iter.remaining().len() > 0 {
                assert(iter.remaining()[0] == s[i]);
            }
        }
        match iter.next() {
            None => {
                proof {
                    assert(i == s.len());
                    assert(j == s.len());
                }
                return None;
            },
            Some(b) => {
                if 64 <= b && b <= 126 && (!sgr || b == 77 || b == 109) {
                    proof {
                        assert(is_stop_byte(s[i], sgr));
                        assert(j == i);
                    }
                    return Some((buf, b));
                } else {
                    proof {
                        assert(!is_stop_byte(s[i], sgr));
                        assert(i < j);
                    }
                    buf.push(b);
                    proof {
                        assert(buf@ =~= s.take(i + 1));
                    }
                }
            },
        }
    }
}

/// No modifier held.
pub open spec fn spec_no_mods() -> Modifiers {
    Modifiers { shift: false, alt: false, ctrl: false }
}

/// How an ordinary (non-escape) byte classifies: carriage return, line
/// feed, tab, backspace, the control-folded bytes, or the first byte of a
/// UTF-8 character. `alt` is OR-ed onto the modifiers, which is how a key
/// arriving right behind an `ESC` is reported as Alt+key. A control byte
/// is reported once, as the folded letter with `ctrl` set, never as a
/// separate control keycode.
pub open spec fn spec_classify_plain(c: u8, s: Seq<u8>, alt: bool) -> (Result<
    Event,
    InputError,
>, int) {
    let m = Modifiers { shift: false, alt, ctrl: false };
    let cm = Modifiers { shift: false, alt, ctrl: true };
    if c == 13 {
        (Result::<Event, InputError>::Ok(Event::Key(Key::Char('\r'), ButtonType::Press, m)), 0)
    } else if c == 10 {
        (Ok(Event::Key(Key::Char('j'), ButtonType::Press, cm)), 0)
    } else if c == 9 {
        (Ok(Event::Key(Key::Char('\t'), ButtonType::Press, m)), 0)
    } else if c == 127 {
        (Ok(Event::Key(Key::Backspace, ButtonType::Press, m)), 0)
    } else if c == 0 {
        (Ok(Event::Key(Key::Char(' '), ButtonType::Press, cm)), 0)
    } else if 1 <= c <= 26 {
        (Ok(Event::Key(Key::Char(((c + 96) as u8) as char), ButtonType::Press, cm)), 0)
    } else if 28 <= c <= 31 {
        (Ok(Event::Key(Key::Char(((c + 24) as u8) as char), ButtonType::Press, cm)), 0)
    } else {
        let rn = spec_parse_utf8(c, s);
        match rn.0 {
            Ok(ch) => (
                Ok(
                    Event::Key(
                        Key::Char(ch),
                        ButtonType::Press,
                        Modifiers { shift: char_is_uppercase(ch), alt, ctrl: false },
                    ),
                ),
                rn.1,
            ),
            Err(e) => (Err(e), rn.1),
        }
    }
}

/// The named key that a `~`-terminated escape number selects.
pub open spec fn spec_tilde_keycode(v: int) -> Option<Key> {
    if v == 1 || v == 7 {
        Some(Key::Home)
    } else if v == 2 {
        Some(Key::Insert)
    } else if v == 3 {
        Some(Key::Delete)
    } else if v == 4 || v == 8 {
        Some(Key::End)
    } else if v == 5 {
        Some(Key::PageUp)
    } else if v == 6 {
        Some(Key::PageDown)
    } else if 11 <= v <= 15 {
        Some(Key::F((v - 10) as u8))
    } else if 17 <= v <= 21 {
        Some(Key::F((v - 11) as u8))
    } else if v == 23 || v == 24 {
        Some(Key::F((v - 12) as u8))
    } else {
        None
    }
}

/// A `~`-terminated escape payload: one decimal number naming a key.
/// Several semicolon-separated numbers (modifier-qualified variants) are
/// recognized but unsupported and fail rather than mis-decode.
pub open spec fn spec_tilde_key(buf: Seq<u8>) -> Result<Event, InputError> {
    let fs = split_fields(buf, 59);
    if fs.len() != 1 {
        Err(InputError::ParseFailure)
    } else {
        match parse_num(fs[0], 255) {
            Some(v) => match spec_tilde_keycode(v) {
                Some(k) => Ok(Event::Key(k, ButtonType::Press, spec_no_mods())),
                None => Err(InputError::ParseFailure),
            },
            None => Err(InputError::ParseFailure),
        }
    }
}

/// The button and action an rxvt mouse report's first number selects.
pub open spec fn spec_rxvt_button(cb: int) -> Option<(MouseButton, ButtonType)> {
    if cb == 32 {
        Some((MouseButton::Left, ButtonType::Press))
    } else if cb == 33 {
        Some((MouseButton::Middle, ButtonType::Press))
    } else if cb == 34 {
        Some((MouseButton::Right, ButtonType::Press))
    } else if cb == 35 {
        Some((MouseButton::Unknown, ButtonType::Release))
    } else if cb == 64 {
        Some((MouseButton::Unknown, ButtonType::Held))
    } else if cb == 96 || cb == 97 {
        Some((MouseButton::WheelUp, ButtonType::Press))
    } else {
        None
    }
}

/// An rxvt mouse report: three semicolon-separated decimal numbers
/// `Cb;Cx;Cy` before the terminating `M`. The coordinates are taken
/// as given; this protocol fixes no origin convention.
pub open spec fn spec_rxvt_mouse(buf: Seq<u8>) -> Result<Event, InputError> {
    let fs = split_fields(buf, 59);
    if fs.len() < 3 {
        Err(InputError::ParseFailure)
    } else {
        match (parse_num(fs[0], 65535), parse_num(fs[1], 65535), parse_num(fs[2], 65535)) {
            (Some(cb), Some(cx), Some(cy)) => match spec_rxvt_button(cb) {
                Some(bt) => Ok(
                    Event::Mouse(spec_no_mods(), bt.0, bt.1, cx as u16, cy as u16),
                ),
                None => Err(InputError::ParseFailure),
            },
            _ => Err(InputError::ParseFailure),
        }
    }
}

/// A kitty-protocol key event: `keycode[;modifier[:key_type]]` before the
/// terminating `u`. The modifier number must parse but is deliberately not
/// applied to the returned modifiers: kitty modifier support is omitted.
pub open spec fn spec_kitty_key(buf: Seq<u8>) -> Result<Event, InputError> {
    let fs = split_fields(buf, 59);
    match parse_num(fs[0], 0xFFFFFFFF) {
        None => Err(InputError::ParseFailure),
        Some(kc) => {
            let second = if fs.len() >= 2 {
                fs[1]
            } else {
                seq![48u8, 58u8, 49u8]
            };
            let ps = split_fields(second, 58);
            match parse_num(ps[0], 0xFFFFFFFF) {
                None => Err(InputError::ParseFailure),
                Some(_) => {
                    let kt = if ps.len() >= 2 {
                        parse_num(ps[1], 0xFFFFFFFF)
                    } else {
                        Some(1)
                    };
                    match kt {
                        None => Err(InputError::ParseFailure),
                        Some(t) => {
                            if t != 1 && t != 2 && t != 3 {
                                Err(InputError::ParseFailure)
                            } else if !is_scalar(kc as u32) {
                                Err(InputError::ParseFailure)
                            } else {
                                let bt = if t == 1 {
                                    ButtonType::Press
                                } else if t == 2 {
                                    ButtonType::Held
                                } else {
                                    ButtonType::Release
                                };
                                Ok(
                                    Event::Key(
                                        Key::Char((kc as u32) as char),
                                        bt,
                                        spec_no_mods(),
                                    ),
                                )
                            }
                        },
                    }
                },
            }
        },
    }
}

/// The key a modifier-qualified arrow/Home/End escape's final byte names.
pub open spec fn spec_arrow_key(t: u8) -> Key {
    if t == 68 {
        Key::Left
    } else if t == 67 {
        Key::Right
    } else if t == 65 {
        Key::Up
    } else if t == 66 {
        Key::Down
    } else if t == 72 {
        Key::Home
    } else {
        Key::End
    }
}

/// A modifier-qualified arrow/Home/End escape: exactly two numbers, the
/// first 1; the second minus one is a 3-bit field, bit 0 shift, bit 1 alt,
/// bit 2 ctrl. A second number of 0 has no modifier reading and fails.
pub open spec fn spec_modified_key(t: u8, buf: Seq<u8>) -> Result<Event, InputError> {
    let fs = split_fields(buf, 59);
    if fs.len() != 2 {
        Err(InputError::ParseFailure)
    } else if parse_num(fs[0], 255) != Some(1int) {
        Err(InputError::ParseFailure)
    } else {
        match parse_num(fs[1], 255) {
            None => Err(InputError::ParseFailure),
            Some(mv) => {
                if mv == 0 {
                    Err(InputError::ParseFailure)
                } else {
                    let mm = (mv - 1) as u8;
                    Ok(
                        Event::Key(
                            spec_arrow_key(t),
                            ButtonType::Press,
                            Modifiers {
                                shift: mm & 1 == 1,
                                alt: mm & 2 == 2,
                                ctrl: mm & 4 == 4,
                            },
                        ),
                    )
                }
            },
        }
    }
}

/// The button and action an SGR report selects once the modifier bits are
/// masked off `Cb`: 0-2 and 64-67 are presses of buttons and wheel
/// directions (releases when the terminator is `m`), 32-35 are held-while
/// -moving variants, 3 is a buttonless release.
pub open spec fn spec_sgr_button(trimmed: u16, term: u8) -> Option<(MouseButton, ButtonType)> {
    let ty = if term == 77 {
        ButtonType::Press
    } else {
        ButtonType::Release
    };
    if trimmed == 0 {
        Some((MouseButton::Left, ty))
    } else if trimmed == 1 {
        Some((MouseButton::Middle, ty))
    } else if trimmed == 2 {
        Some((MouseButton::Right, ty))
    } else if trimmed == 64 {
        Some((MouseButton::WheelUp, ty))
    } else if trimmed == 65 {
        Some((MouseButton::WheelDown, ty))
    } else if trimmed == 66 {
        Some((MouseButton::WheelLeft, ty))
    } else if trimmed == 67 {
        Some((MouseButton::WheelRight, ty))
    } else if trimmed == 32 {
        Some((MouseButton::Left, ButtonType::Held))
    } else if trimmed == 33 {
        Some((MouseButton::Middle, ButtonType::Held))
    } else if trimmed == 34 {
        Some((MouseButton::Right, ButtonType::Held))
    } else if trimmed == 35 {
        Some((MouseButton::NoButton, ButtonType::Held))
    } else if trimmed == 3 {
        Some((MouseButton::Unknown, ButtonType::Release))
    } else {
        None
    }
}

/// An SGR/xterm mouse report: `Cb;Cx;Cy` in decimal before `M` (press) or
/// `m` (release). `Cx` and `Cy` arrive 1-based and are decremented,
/// saturating at zero; bits 4/8/16 of `Cb` carry shift/alt/ctrl.
pub open spec fn spec_sgr_mouse(buf: Seq<u8>, term: u8) -> Result<Event, InputError> {
    let fs = split_fields(buf, 59);
    if fs.len() < 3 {
        Err(InputError::ParseFailure)
    } else {
        match (parse_num(fs[0], 65535), parse_num(fs[1], 65535), parse_num(fs[2], 65535)) {
            (Some(cb), Some(cx1), Some(cy1)) => {
                let cbu = cb as u16;
                let cx = if cx1 == 0 {
                    0int
                } else {
                    cx1 - 1
                };
                let cy = if cy1 == 0 {
                    0int
                } else {
                    cy1 - 1
                };
                let mods = Modifiers {
                    shift: cbu & 4 == 4,
                    alt: cbu & 8 == 8,
                    ctrl: cbu & 16 == 16,
                };
                let trimmed = cbu ^ (cbu & 28);
                match spec_sgr_button(trimmed, term) {
                    Some(bt) => Ok(Event::Mouse(mods, bt.0, bt.1, cx as u16, cy as u16)),
                    None => Err(InputError::ParseFailure),
                }
            },
            _ => Err(InputError::ParseFailure),
        }
    }
}

/// An X10 mouse report: exactly three raw bytes. The button byte is
/// reduced by 32 (wrapping as a byte does), the coordinates by 33 each,
/// saturating at zero. The low two bits select the button class; bit 6
/// turns the class into a wheel direction.
pub open spec fn spec_parse_x10(s: Seq<u8>) -> (Result<Event, InputError>, int) {
    if s.len() < 3 {
        (Result::<Event, InputError>::Err(InputError::ParseFailure), s.len() as int)
    } else {
        let cb = if s[0] >= 32 {
            (s[0] - 32) as u8
        } else {
            (s[0] + 224) as u8
        };
        let cx = if s[1] >= 33 {
            (s[1] - 33) as u16
        } else {
            0u16
        };
        let cy = if s[2] >= 33 {
            (s[2] - 33) as u16
        } else {
            0u16
        };
        let wheel = cb & 64 != 0;
        let low = cb & 3;
        let bt = if low == 0 {
            if wheel {
                (MouseButton::WheelUp, ButtonType::Press)
            } else {
                (MouseButton::Left, ButtonType::Press)
            }
        } else if low == 1 {
            if wheel {
                (MouseButton::WheelDown, ButtonType::Press)
            } else {
                (MouseButton::Middle, ButtonType::Press)
            }
        } else if low == 2 {
            if wheel {
                (MouseButton::WheelLeft, ButtonType::Press)
            } else {
                (MouseButton::Right, ButtonType::Press)
            }
        } else {
            if wheel {
                (MouseButton::WheelRight, ButtonType::Press)
            } else {
                (MouseButton::Unknown, ButtonType::Release)
            }
        };
        (Ok(Event::Mouse(spec_no_mods(), bt.0, bt.1, cx, cy)), 3)
    }
}

/// A numbered escape: bytes accumulate after the first digit until a byte
/// in the CSI final range (64-126) arrives, which selects the protocol:
/// `M` rxvt mouse, `~` named key, `u` kitty key, or a modifier-qualified
/// arrow/Home/End. The stream ending before a final byte is a failure.
pub open spec fn spec_parse_numbered(d: u8, s: Seq<u8>) -> (Result<Event, InputError>, int) {
    let j = scan_stop(s, false);
    if j >= s.len() {
        (Result::<Event, InputError>::Err(InputError::ParseFailure), s.len() as int)
    } else {
        let buf = seq![d] + s.take(j);
        let t = s[j];
        let r = if t == 77 {
            spec_rxvt_mouse(buf)
        } else if t == 126 {
            spec_tilde_key(buf)
        } else if t == 117 {
            spec_kitty_key(buf)
        } else if t == 65 || t == 66 || t == 67 || t == 68 || t == 70 || t == 72 {
            spec_modified_key(t, buf)
        } else {
            Err(InputError::ParseFailure)
        };
        (r, j + 1)
    }
}

/// An SGR payload: bytes up to the terminating `M` or `m`, then the
/// report itself. The stream ending before a terminator is a failure.
pub open spec fn spec_parse_sgr(s: Seq<u8>) -> (Result<Event, InputError>, int) {
    let j = scan_stop(s, true);
    if j >= s.len() {
        (Result::<Event, InputError>::Err(InputError::ParseFailure), s.len() as int)
    } else {
        (spec_sgr_mouse(s.take(j), s[j]), j + 1)
    }
}

/// What follows `ESC [`: a single-byte final character names a key
/// directly; `[` introduces the F1-F5 range; `M`, `<` and a decimal digit
/// select the X10, SGR and numbered paths; stream end right here is the
/// Alt+`[` keypress.
pub open spec fn spec_parse_csi(s: Seq<u8>) -> (Result<Event, InputError>, int) {
    if s.len() == 0 {
        (
            Result::<Event, InputError>::Ok(
                Event::Key(
                    Key::Char('['),
                    ButtonType::Press,
                    Modifiers { shift: false, alt: true, ctrl: false },
                ),
            ),
            0,
        )
    } else {
        let c = s[0];
        if c == 91 {
            if s.len() >= 2 && 65 <= s[1] <= 69 {
                (
                    Ok(Event::Key(Key::F((1 + s[1] - 65) as u8), ButtonType::Press, spec_no_mods())),
                    2,
                )
            } else if s.len() >= 2 {
                (Err(InputError::ParseFailure), 2)
            } else {
                (Err(InputError::ParseFailure), 1)
            }
        } else if c == 68 {
            (Ok(Event::Key(Key::Left, ButtonType::Press, spec_no_mods())), 1)
        } else if c == 67 {
            (Ok(Event::Key(Key::Right, ButtonType::Press, spec_no_mods())), 1)
        } else if c == 65 {
            (Ok(Event::Key(Key::Up, ButtonType::Press, spec_no_mods())), 1)
        } else if c == 66 {
            (Ok(Event::Key(Key::Down, ButtonType::Press, spec_no_mods())), 1)
        } else if c == 72 {
            (Ok(Event::Key(Key::Home, ButtonType::Press, spec_no_mods())), 1)
        } else if c == 70 {
            (Ok(Event::Key(Key::End, ButtonType::Press, spec_no_mods())), 1)
        } else if c == 90 {
            (
                Ok(
                    Event::Key(
                        Key::Tab,
                        ButtonType::Press,
                        Modifiers { shift: true, alt: false, ctrl: false },
                    ),
                ),
                1,
            )
        } else if c == 60 {
            let rn = spec_parse_sgr(s.skip(1));
            (rn.0, 1 + rn.1)
        } else if c == 77 {
            let rn = spec_parse_x10(s.skip(1));
            (rn.0, 1 + rn.1)
        } else if 48 <= c <= 57 {
            let rn = spec_parse_numbered(c, s.skip(1));
            (rn.0, 1 + rn.1)
        } else {
            (Err(InputError::ParseFailure), 1)
        }
    }
}

/// What follows a leading `ESC`: nothing more within the poll is the
/// Escape key itself; `O` introduces an SS3 function key, where only
/// `P`-`S` name F1-F4 and every other byte is a parse failure; `[` hands
/// off to the CSI decoder; any other byte is the ordinary classification
/// of that byte with the alt modifier OR-ed on.
pub open spec fn spec_parse_ansi(s: Seq<u8>) -> (Result<Event, InputError>, int) {
    if s.len() == 0 {
        (
            Result::<Event, InputError>::Ok(
                Event::Key(Key::Escape, ButtonType::Press, spec_no_mods()),
            ),
            0,
        )
    } else if s[0] == 79 {
        if s.len() >= 2 && 80 <= s[1] <= 83 {
            (
                Result::<Event, InputError>::Ok(
                    Event::Key(Key::F((1 + s[1] - 80) as u8), ButtonType::Press, spec_no_mods()),
                ),
                2,
            )
        } else if s.len() >= 2 {
            (Result::<Event, InputError>::Err(InputError::ParseFailure), 2)
        } else {
            (Result::<Event, InputError>::Err(InputError::ParseFailure), 1)
        }
    } else if s[0] == 91 {
        let rn = spec_parse_csi(s.skip(1));
        (rn.0, 1 + rn.1)
    } else {
        let rn = spec_classify_plain(s[0], s.skip(1), true);
        (rn.0, 1 + rn.1)
    }
}

/// One event decoded from the byte `c` and the stream behind it, together
/// with how many stream bytes beyond `c` belong to the event.
pub open spec fn spec_parse_event(c: u8, s: Seq<u8>) -> (Result<Event, InputError>, int) {
    if c == 27 {
        spec_parse_ansi(s)
    } else {
        spec_classify_plain(c, s, false)
    }
}

/// What one poll of the terminal yields: `TimedOut` when the poll result
/// says nothing is ready or nothing arrived, `Io` when the poll itself
/// failed, and otherwise exactly one event decoded from the front of the
/// available bytes.
pub open spec fn spec_poll_input(poll_result: i32, bytes: Seq<u8>) -> Result<Event, InputError> {
    if poll_result >= 1 {
        if bytes.len() == 0 {
            Err(InputError::TimedOut)
        } else {
            spec_parse_event(bytes[0], bytes.skip(1)).0
        }
    } else if poll_result == 0 {
        Err(InputError::TimedOut)
    } else {
        Err(InputError::Io)
    }
}

/// Decodes a `~`-terminated named-key escape payload.
fn tilde_key_event(buf: &Vec<u8>) -> (r: Result<Event, InputError>)
    ensures
        r == spec_tilde_key(buf@),
{
    let fs = split_buf(buf, 59);
    proof {
        assert(fs@.map_values(|p: Vec<u8>| p@)[0] == fs@[0]@);
    }
    if fs.len() != 1 {
        return Err(InputError::ParseFailure);
    }
    let v = match parse_dec(&fs[0], 255) {
        Some(v) => v,
        None => {
            return Err(InputError::ParseFailure);
        },
    };
    let key = if v == 1 || v == 7 {
        Key::Home
    } else if v == 2 {
        Key::Insert
    } else if v == 3 {
        Key::Delete
    } else if v == 4 || v == 8 {
        Key::End
    } else if v == 5 {
        Key::PageUp
    } else if v == 6 {
        Key::PageDown
    } else if 11 <= v && v <= 15 {
        Key::F((v - 10) as u8)
    } else if 17 <= v && v <= 21 {
        Key::F((v - 11) as u8)
    } else if v == 23 || v == 24 {
        Key::F((v - 12) as u8)
    } else {
        return Err(InputError::ParseFailure);
    };
    Ok(Event::Key(key, ButtonType::Press, Modifiers::none()))
}

/// Decodes an rxvt mouse report payload.
fn rxvt_mouse_event(buf: &Vec<u8>) -> (r: Result<Event, InputError>)
    ensures
        r == spec_rxvt_mouse(buf@),
{
    let fs = split_buf(buf, 59);
    proof {
        assert(fs@.map_values(|p: Vec<u8>| p@)[0] == fs@[0]@);
        assert(fs@.len() >= 3 ==> fs@.map_values(|p: Vec<u8>| p@)[1] == fs@[1]@
            && fs@.map_values(|p: Vec<u8>| p@)[2] == fs@[2]@);
    }
    if fs.len() < 3 {
        return Err(InputError::ParseFailure);
    }
    let cb = match parse_dec(&fs[0], 65535) {
        Some(v) => v,
        None => {
            return Err(InputError::ParseFailure);
        },
    };
    let cx = match parse_dec(&fs[1], 65535) {
        Some(v) => v,
        None => {
            return Err(InputError::ParseFailure);
        },
    };
    let cy = match parse_dec(&fs[2], 65535) {
        Some(v) => v,
        None => {
            return Err(InputError::ParseFailure);
        },
    };
    let bt = if cb == 32 {
        (MouseButton::Left, ButtonType::Press)
    } else if cb == 33 {
        (MouseButton::Middle, ButtonType::Press)
    } else if cb == 34 {
        (MouseButton::Right, ButtonType::Press)
    } else if cb == 35 {
        (MouseButton::Unknown, ButtonType::Release)
    } else if cb == 64 {
        (MouseButton::Unknown, ButtonType::Held)
    } else if cb == 96 || cb == 97 {
        (MouseButton::WheelUp, ButtonType::Press)
    } else {
        return Err(InputError::ParseFailure);
    };
    Ok(Event::Mouse(Modifiers::none(), bt.0, bt.1, cx as u16, cy as u16))
}

/// Decodes a kitty-protocol key escape payload.
fn kitty_key_event(buf: &Vec<u8>) -> (r: Result<Event, InputError>)
    ensures
        r == spec_kitty_key(buf@),
{
    let fs = split_buf(buf, 59);
    proof {
        assert(fs@.map_values(|p: Vec<u8>| p@)[0] == fs@[0]@);
        assert(fs@.len() >= 2 ==> fs@.map_values(|p: Vec<u8>| p@)[1] == fs@[1]@);
    }
    let kc = match parse_dec(&fs[0], 0xFFFFFFFF) {
        Some(v) => v,
        None => {
            return Err(InputError::ParseFailure);
        },
    };
    let mut default_second: Vec<u8> = Vec::new();
    default_second.push(48);
    default_second.push(58);
    default_second.push(49);
    proof {
        assert(default_second@ =~= seq![48u8, 58u8, 49u8]);
    }
    let second: &Vec<u8> = if fs.len() >= 2 {
        &fs[1]
    } else {
        &default_second
    };
    let ps = split_buf(second, 58);
    proof {
        assert(ps@.map_values(|p: Vec<u8>| p@)[0] == ps@[0]@);
        assert(ps@.len() >= 2 ==> ps@.map_values(|p: Vec<u8>| p@)[1] == ps@[1]@);
    }
    match parse_dec(&ps[0], 0xFFFFFFFF) {
        Some(_) => {},
        None => {
            return Err(InputError::ParseFailure);
        },
    };
    let kt: u32 = if ps.len() >= 2 {
        match parse_dec(&ps[1], 0xFFFFFFFF) {
            Some(v) => v,
            None => {
                return Err(InputError::ParseFailure);
            },
        }
    } else {
        1
    };
    if kt != 1 && kt != 2 && kt != 3 {
        return Err(InputError::ParseFailure);
    }
    let ch = match char_from_u32(kc) {
        Some(ch) => ch,
        None => {
            return Err(InputError::ParseFailure);
        },
    };
    proof {
        char_u32_cast(ch, kc);
    }
    let bt = if kt == 1 {
        ButtonType::Press
    } else if kt == 2 {
        ButtonType::Held
    } else {
        ButtonType::Release
    };
    Ok(Event::Key(Key::Char(ch), bt, Modifiers::none()))
}

/// Decodes a modifier-qualified arrow/Home/End escape payload.
fn modified_key_event(t: u8, buf: &Vec<u8>) -> (r: Result<Event, InputError>)
    ensures
        r == spec_modified_key(t, buf@),
{
    let fs = split_buf(buf, 59);
    proof {
        assert(fs@.map_values(|p: Vec<u8>| p@)[0] == fs@[0]@);
        assert(fs@.len() >= 2 ==> fs@.map_values(|p: Vec<u8>| p@)[1] == fs@[1]@);
    }
    if fs.len() != 2 {
        return Err(InputError::ParseFailure);
    }
    let first = match parse_dec(&fs[0], 255) {
        Some(v) => v,
        None => {
            return Err(InputError::ParseFailure);
        },
    };
    if first != 1 {
        return Err(InputError::ParseFailure);
    }
    let mv = match parse_dec(&fs[1], 255) {
        Some(v) => v,
        None => {
            return Err(InputError::ParseFailure);
        },
    };
    if mv == 0 {
        return Err(InputError::ParseFailure);
    }
    let mm = (mv - 1) as u8;
    let key = if t == 68 {
        Key::Left
    } else if t == 67 {
        Key::Right
    } else if t == 65 {
        Key::Up
    } else if t == 66 {
        Key::Down
    } else if t == 72 {
        Key::Home
    } else {
        Key::End
    };
    Ok(
        Event::Key(
            key,
            ButtonType::Press,
            Modifiers::new(mm & 1 == 1, mm & 2 == 2, mm & 4 == 4),
        ),
    )
}

/// Decodes an SGR mouse report payload together with its terminator.
fn sgr_mouse_event(buf: &Vec<u8>, term: u8) -> (r: Result<Event, InputError>)
    ensures
        r == spec_sgr_mouse(buf@, term),
{
    let fs = split_buf(buf, 59);
    proof {
        assert(fs@.map_values(|p: Vec<u8>| p@)[0] == fs@[0]@);
        assert(fs@.len() >= 3 ==> fs@.map_values(|p: Vec<u8>| p@)[1] == fs@[1]@
            && fs@.map_values(|p: Vec<u8>| p@)[2] == fs@[2]@);
    }
    if fs.len() < 3 {
        return Err(InputError::ParseFailure);
    }
    let cb = match parse_dec(&fs[0], 65535) {
        Some(v) => v,
        None => {
            return Err(InputError::ParseFailure);
        },
    };
    let cx1 = match parse_dec(&fs[1], 65535) {
        Some(v) => v,
        None => {
            return Err(InputError::ParseFailure);
        },
    };
    let cy1 = match parse_dec(&fs[2], 65535) {
        Some(v) => v,
        None => {
            return Err(InputError::ParseFailure);
        },
    };
    let cbu = cb as u16;
    let cx: u16 = if cx1 == 0 {
        0
    } else {
        (cx1 - 1) as u16
    };
    let cy: u16 = if cy1 == 0 {
        0
    } else {
        (cy1 - 1) as u16
    };
    let mods = Modifiers::new(cbu & 4 == 4, cbu & 8 == 8, cbu & 16 == 16);
    let trimmed = cbu ^ (cbu & 28);
    let bt = if trimmed == 0 || trimmed == 1 || trimmed == 2 || trimmed == 64 || trimmed == 65
        || trimmed == 66 || trimmed == 67 {
        let button = if trimmed == 0 {
            MouseButton::Left
        } else if trimmed == 1 {
            MouseButton::Middle
        } else if trimmed == 2 {
            MouseButton::Right
        } else if trimmed == 64 {
            MouseButton::WheelUp
        } else if trimmed == 65 {
            MouseButton::WheelDown
        } else if trimmed == 66 {
            MouseButton::WheelLeft
        } else {
            MouseButton::WheelRight
        };
        if term == 77 {
            (button, ButtonType::Press)
        } else {
            (button, ButtonType::Release)
        }
    } else if trimmed == 32 {
        (MouseButton::Left, ButtonType::Held)
    } else if trimmed == 33 {
        (MouseButton::Middle, ButtonType::Held)
    } else if trimmed == 34 {
        (MouseButton::Right, ButtonType::Held)
    } else if trimmed == 35 {
        (MouseButton::NoButton, ButtonType::Held)
    } else if trimmed == 3 {
        (MouseButton::Unknown, ButtonType::Release)
    } else {
        return Err(InputError::ParseFailure);
    };
    Ok(Event::Mouse(mods, bt.0, bt.1, cx, cy))
}

/// Decodes an X10 mouse report: exactly three raw bytes after `ESC [ M`.
pub fn parse_x10_mouse(iter: &mut ReadIterator) -> (r: Result<Event, InputError>)
    requires
        old(iter).wf(),
    ensures
        final(iter).wf(),
        final(iter).stream() == old(iter).stream(),
        r == spec_parse_x10(old(iter).remaining()).0,
        final(iter).cursor() == old(iter).cursor() + spec_parse_x10(old(iter).remaining()).1,
{
    let b0 = match iter.next() {
        Some(b) => b,
        None => {
            return Err(InputError::ParseFailure);
        },
    };
    let b1 = match iter.next() {
        Some(b) => b,
        None => {
            return Err(InputError::ParseFailure);
        },
    };
    let b2 = match iter.next() {
        Some(b) => b,
        None => {
            return Err(InputError::ParseFailure);
        },
    };
    let cb = if b0 >= 32 {
        b0 - 32
    } else {
        b0 + 224
    };
    let cx: u16 = if b1 >= 33 {
        (b1 - 33) as u16
    } else {
        0
    };
    let cy: u16 = if b2 >= 33 {
        (b2 - 33) as u16
    } else {
        0
    };
    let wheel = cb & 64 != 0;
    let low = cb & 3;
    let bt = if low == 0 {
        if wheel {
            (MouseButton::WheelUp, ButtonType::Press)
        } else {
            (MouseButton::Left, ButtonType::Press)
        }
    } else if low == 1 {
        if wheel {
            (MouseButton::WheelDown, ButtonType::Press)
        } else {
            (MouseButton::Middle, ButtonType::Press)
        }
    } else if low == 2 {
        if wheel {
            (MouseButton::WheelLeft, ButtonType::Press)
        } else {
            (MouseButton::Right, ButtonType::Press)
        }
    } else {
        if wheel {
            (MouseButton::WheelRight, ButtonType::Press)
        } else {
            (MouseButton::Unknown, ButtonType::Release)
        }
    };
    Ok(Event::Mouse(Modifiers::none(), bt.0, bt.1, cx, cy))
}

/// Decodes an SGR/xterm mouse report after `ESC [ <`.
pub fn parse_xterm_mouse(iter: &mut ReadIterator) -> (r: Result<Event, InputError>)
    requires
        old(iter).wf(),
    ensures
        final(iter).wf(),
        final(iter).stream() == old(iter).stream(),
        r == spec_parse_sgr(old(iter).remaining()).0,
        final(iter).cursor() == old(iter).cursor() + spec_parse_sgr(old(iter).remaining()).1,
{
    match read_until_stop(iter, true) {
        None => Err(InputError::ParseFailure),
        Some(bt) => sgr_mouse_event(&bt.0, bt.1),
    }
}

/// Decodes a numbered escape, whose first digit is `c`, after `ESC [`.
pub fn parse_numbered_escape(iter: &mut ReadIterator, c: u8) -> (r: Result<Event, InputError>)
    requires
        old(iter).wf(),
    ensures
        final(iter).wf(),
        final(iter).stream() == old(iter).stream(),
        r == spec_parse_numbered(c, old(iter).remaining()).0,
        final(iter).cursor() == old(iter).cursor() + spec_parse_numbered(
            c,
            old(iter).remaining(),
        ).1,
{
    match read_until_stop(iter, false) {
        None => Err(InputError::ParseFailure),
        Some(bt) => {
            let mut rest = bt.0;
            let t = bt.1;
            let mut buf: Vec<u8> = Vec::new();
            buf.push(c);
            buf.append(&mut rest);
            proof {
                let s0 = old(iter).remaining();
                let j = scan_stop(s0, false);
                assert(buf@ =~= seq![c] + s0.take(j));
            }
            if t == 77 {
                rxvt_mouse_event(&buf)
            } else if t == 126 {
                tilde_key_event(&buf)
            } else if t == 117 {
                kitty_key_event(&buf)
            } else if t == 65 || t == 66 || t == 67 || t == 68 || t == 70 || t == 72 {
                modified_key_event(t, &buf)
            } else {
                Err(InputError::ParseFailure)
            }
        },
    }
}

/// Classifies one ordinary byte, with `alt` OR-ed onto the modifiers.
fn classify_byte(c: u8, iter: &mut ReadIterator, alt: bool) -> (r: Result<Event, InputError>)
    requires
        old(iter).wf(),
    ensures
        final(iter).wf(),
        final(iter).stream() == old(iter).stream(),
        r == spec_classify_plain(c, old(iter).remaining(), alt).0,
        final(iter).cursor() == old(iter).cursor() + spec_classify_plain(
            c,
            old(iter).remaining(),
            alt,
        ).1,
{
    let m = Modifiers::new(false, alt, false);
    let cm = Modifiers::new(false, alt, true);
    if c == 13 {
        Ok(Event::Key(Key::Char('\r'), ButtonType::Press, m))
    } else if c == 10 {
        Ok(Event::Key(Key::Char('j'), ButtonType::Press, cm))
    } else if c == 9 {
        Ok(Event::Key(Key::Char('\t'), ButtonType::Press, m))
    } else if c == 127 {
        Ok(Event::Key(Key::Backspace, ButtonType::Press, m))
    } else if c == 0 {
        Ok(Event::Key(Key::Char(' '), ButtonType::Press, cm))
    } else if 1 <= c && c <= 26 {
        Ok(Event::Key(Key::Char((c + 96) as char), ButtonType::Press, cm))
    } else if 28 <= c && c <= 31 {
        Ok(Event::Key(Key::Char((c + 24) as char), ButtonType::Press, cm))
    } else {
        match parse_utf8_char(c, iter) {
            Ok(ch) => {
                let up = is_uppercase_char(ch);
                Ok(Event::Key(Key::Char(ch), ButtonType::Press, Modifiers::new(up, alt, false)))
            },
            Err(e) => Err(e),
        }
    }
}

/// Decodes a CSI sequence, everything after `ESC [`.
pub fn parse_csi_sequence(iter: &mut ReadIterator) -> (r: Result<Event, InputError>)
    requires
        old(iter).wf(),
    ensures
        final(iter).wf(),
        final(iter).stream() == old(iter).stream(),
        r == spec_parse_csi(old(iter).remaining()).0,
        final(iter).cursor() == old(iter).cursor() + spec_parse_csi(old(iter).remaining()).1,
{
    match iter.next() {
        None => Ok(
            Event::Key(Key::Char('['), ButtonType::Press, Modifiers::new(false, true, false)),
        ),
        Some(c) => {
            proof {
                assert(iter.remaining() =~= old(iter).remaining().skip(1));
            }
            if c == 91 {
                match iter.next() {
                    Some(v) => {
                        if 65 <= v && v <= 69 {
                            Ok(Event::Key(Key::F(1 + (v - 65)), ButtonType::Press, Modifiers::none()))
                        } else {
                            Err(InputError::ParseFailure)
                        }
                    },
                    None => Err(InputError::ParseFailure),
                }
            } else if c == 68 {
                Ok(Event::Key(Key::Left, ButtonType::Press, Modifiers::none()))
            } else if c == 67 {
                Ok(Event::Key(Key::Right, ButtonType::Press, Modifiers::none()))
            } else if c == 65 {
                Ok(Event::Key(Key::Up, ButtonType::Press, Modifiers::none()))
            } else if c == 66 {
                Ok(Event::Key(Key::Down, ButtonType::Press, Modifiers::none()))
            } else if c == 72 {
                Ok(Event::Key(Key::Home, ButtonType::Press, Modifiers::none()))
            } else if c == 70 {
                Ok(Event::Key(Key::End, ButtonType::Press, Modifiers::none()))
            } else if c == 90 {
                Ok(Event::Key(Key::Tab, ButtonType::Press, Modifiers::new(true, false, false)))
            } else if c == 60 {
                parse_xterm_mouse(iter)
            } else if c == 77 {
                parse_x10_mouse(iter)
            } else if 48 <= c && c <= 57 {
                parse_numbered_escape(iter, c)
            } else {
                Err(InputError::ParseFailure)
            }
        },
    }
}

/// Decodes everything that follows a leading `ESC` byte.
pub fn parse_ansi_sequence(iter: &mut ReadIterator) -> (r: Result<Event, InputError>)
    requires
        old(iter).wf(),
    ensures
        final(iter).wf(),
        final(iter).stream() == old(iter).stream(),
        r == spec_parse_ansi(old(iter).remaining()).0,
        final(iter).cursor() == old(iter).cursor() + spec_parse_ansi(old(iter).remaining()).1,
{
    match iter.next() {
        None => Ok(Event::Key(Key::Escape, ButtonType::Press, Modifiers::none())),
        Some(c) => {
            proof {
                assert(iter.remaining() =~= old(iter).remaining().skip(1));
            }
            if c == 79 {
                match iter.next() {
                    Some(v) => {
                        if 80 <= v && v <= 83 {
                            Ok(Event::Key(Key::F(1 + (v - 80)), ButtonType::Press, Modifiers::none()))
                        } else {
                            Err(InputError::ParseFailure)
                        }
                    },
                    None => Err(InputError::ParseFailure),
                }
            } else if c == 91 {
                parse_csi_sequence(iter)
            } else {
                classify_byte(c, iter, true)
            }
        },
    }
}

/// Decodes one event from the byte `item` and the stream behind it.
pub fn parse_event(item: u8, iter: &mut ReadIterator) -> (r: Result<Event, InputError>)
    requires
        old(iter).wf(),
    ensures
        final(iter).wf(),
        final(iter).stream() == old(iter).stream(),
        r == spec_parse_event(item, old(iter).remaining()).0,
        final(iter).cursor() == old(iter).cursor() + spec_parse_event(
            item,
            old(iter).remaining(),
        ).1,
{
    if item == 27 {
        parse_ansi_sequence(iter)
    } else {
        classify_byte(item, iter, false)
    }
}

/// Turns the outcome of one readiness poll into one event: `poll_result`
/// is what the poll reported (positive on readiness, zero on expiry,
/// negative on failure) and `bytes` holds what arrived within the window.
pub fn poll_input(poll_result: i32, bytes: Vec<u8>) -> (r: Result<Event, InputError>)
    ensures
        r == spec_poll_input(poll_result, bytes@),
{
    if poll_result >= 1 {
        let mut iter = ReadIterator::new(bytes);
        match iter.next() {
            None => Err(InputError::TimedOut),
            Some(b) => parse_event(b, &mut iter),
        }
    } else if poll_result == 0 {
        Err(InputError::TimedOut)
    } else {
        Err(InputError::Io)
    }
}

/// Law: the UTF-8 decoder is the inverse of UTF-8 encoding. Feeding the
/// encoding of any character one byte at a time reconstructs exactly that
/// character, whatever bytes follow the encoding in the stream, and
/// consumes exactly the encoding's bytes.
pub proof fn lemma_utf8_round_trip(c: char, rest: Seq<u8>)
    ensures
        ({
            let enc = encode_scalar(c as u32);
            spec_parse_utf8(enc[0], enc.skip(1) + rest) == (
                Result::<char, InputError>::Ok(c),
                enc.len() - 1,
            )
        }),
{
    char_is_scalar(c);
    let u = c as u32;
    let enc = encode_scalar(u);
    encode_utf8_first_scalar(seq![c]);
    assert(encode_utf8(seq![c]) =~= enc) by {
        assert(seq![c][0] == c);
        assert(seq![c].drop_first() =~= Seq::<char>::empty());
        assert(encode_utf8(Seq::<char>::empty()) =~= Seq::<u8>::empty());
        assert(encode_utf8(seq![c]) == encode_scalar(c as u32) + encode_utf8(
            seq![c].drop_first(),
        ));
    }
    let s = enc.skip(1) + rest;
    let m: int = if s.len() >= 3 { 3 } else { s.len() as int };
    let avail = seq![enc[0]] + s.take(m);
    assert(s.len() == enc.len() - 1 + rest.len());
    assert(1 <= enc.len() <= 4);
    assert(m >= enc.len() - 1);
    assert(forall|i: int| 0 <= i < enc.len() - 1 ==> s[i] == enc[i + 1]);
    assert(forall|i: int| 1 <= i < enc.len() ==> avail[i] == enc[i]);
    assert(avail[0] == enc[0]);
    assert(valid_first_scalar(avail));
    assert(decode_first_scalar(avail) == decode_first_scalar(enc));
    assert(length_of_first_scalar(avail) == length_of_first_scalar(enc));
    char_u32_cast(c, u);
}

/// Law: decoding carries no hidden state: what a poll yields is a
/// function of the poll outcome and the available bytes alone, so two
/// decoders built independently over equal buffers agree. Together with
/// the contract of [`poll_input`], which pins its result to this very
/// function, two such calls return value-equal events.
pub proof fn lemma_decode_deterministic(poll_result: i32, b1: Seq<u8>, b2: Seq<u8>)
    requires
        b1 == b2,
    ensures
        spec_poll_input(poll_result, b1) == spec_poll_input(poll_result, b2),
{
}

/// Law: a 4-byte UTF-8 lead byte followed by fewer than three further
/// bytes before the stream ends always fails with `InvalidEncoding`; no
/// truncated character is ever produced.
pub proof fn lemma_truncated_utf8_fails(c: u8, s: Seq<u8>)
    requires
        0xF0 <= c <= 0xF7,
        s.len() < 3,
    ensures
        spec_parse_utf8(c, s) == (
            Result::<char, InputError>::Err(InputError::InvalidEncoding),
            s.len() as int,
        ),
{
    let m: int = s.len() as int;
    let avail = seq![c] + s.take(m);
    assert(avail[0] == c);
    assert(avail.len() < 4);
    assert(!valid_first_scalar(avail));
}

} // verus!
