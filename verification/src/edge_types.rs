use vstd::prelude::*;
use vstd::utf8::*;

use crate::digits::{
    decimal_digits, digit_char, digit_value, lemma_decimal_digits, lemma_numeric_chars_concat,
    lemma_numeric_chars_letter, lemma_parse_decimal_digits, numeric_field, parse_numeric_field,
};
use crate::text::{ascii_digit, chars_of};

verus! {

broadcast use {encode_utf8_decode_utf8, encode_utf8_valid_utf8};

/// What happened on the board, as the bridge reports it.
#[derive(PartialEq, Eq, Structural, Debug, Clone, Copy)]
pub enum EvtType {
    ButtonPress,
    ButtonRelease,
    Overcurrent,
    CriticalError,
    TransportError,
}

/// One event read by the bridge from a board's serial line.
#[derive(PartialEq, Eq, Structural, Debug, Clone, Copy)]
pub struct CringeEvt {
    pub io_bank_num: u8,
    pub event_type: EvtType,
    pub timestamp_ms: u32,
}

/// The event kind that a type letter names, if any.
pub open spec fn event_type_of(c: char) -> Option<EvtType> {
    if c == 'H' {
        Some(EvtType::ButtonPress)
    } else if c == 'L' {
        Some(EvtType::ButtonRelease)
    } else if c == 'O' {
        Some(EvtType::Overcurrent)
    } else if c == 'C' {
        Some(EvtType::CriticalError)
    } else if c == 'T' {
        Some(EvtType::TransportError)
    } else {
        None
    }
}

/// The decimal digit value of `c`, or 0 when `c` is not an ASCII digit.
pub open spec fn digit_or_zero(c: char) -> u8 {
    if ascii_digit(c) {
        digit_value(c) as u8
    } else {
        0
    }
}

/// The UTF-8 encoding of a line is cut at a character boundary after `b` bytes.
pub open spec fn splits_at_byte(s: Seq<char>, b: int) -> bool {
    is_char_boundary(encode_utf8(s), b)
}

/// The characters of `s` that follow its first `b` bytes of UTF-8.
pub open spec fn chars_after_byte(s: Seq<char>, b: int) -> Seq<char> {
    decode_utf8(encode_utf8(s).subrange(b, encode_utf8(s).len() as int))
}

/// Where a line splits at a character boundary, the characters after the cut are
/// the end of the line: the line is the characters before the cut followed by
/// them.
pub proof fn law_timestamp_text_ends_line(s: Seq<char>, b: int)
    requires
        splits_at_byte(s, b),
    ensures
        s == decode_utf8(encode_utf8(s).subrange(0, b)) + chars_after_byte(s, b),
{
    decode_utf8_split(encode_utf8(s), b);
}

/// The event a line such as `<I1H T114374>` describes: the bank is the digit at
/// character 2 (0 if it is not a digit), the kind is named by the letter at
/// character 3, and the timestamp is the numeric content of the line after its
/// sixth byte (0 if that does not parse as a `u32`). A line whose kind letter
/// names no kind describes no event.
pub open spec fn parse_edge_line(s: Seq<char>) -> Option<CringeEvt> {
    match event_type_of(s[3]) {
        Some(t) => Some(
            CringeEvt {
                io_bank_num: digit_or_zero(s[2]),
                event_type: t,
                timestamp_ms: numeric_field(chars_after_byte(s, 6), 0xffff_ffff) as u32,
            },
        ),
        None => None,
    }
}

/// The value of `c` as a decimal digit, if it is one.
fn to_decimal_digit(c: char) -> (r: Option<u8>)
    ensures
        r == (if ascii_digit(c) {
            Some(digit_value(c) as u8)
        } else {
            None
        }),
{
    if '0' <= c && c <= '9' {
        Some((c as u32 - '0' as u32) as u8)
    } else {
        None
    }
}

impl CringeEvt {
    /// Reads an event line of fixed layout, for example `<I1H T114374>`: the
    /// bank digit at character 2, the kind letter at character 3 (`H`, `L`, `O`,
    /// `C` or `T`), and the timestamp from the numeric characters after the sixth
    /// byte. Gives `None` when the kind letter is none of these. The line must
    /// have at least four characters and a character boundary at byte six.
    pub fn from_serial(input: &str) -> (r: Option<CringeEvt>)
        requires
            input@.len() >= 4,
            splits_at_byte(input@, 6),
        ensures
            r == parse_edge_line(input@),
    {
        let bank_char = input.get_char(2);
        let io_bank_num = match to_decimal_digit(bank_char) {
            Some(d) => d,
            None => 0,
        };
        let (_, tail) = input.split_at(6);
        let tail_chars = chars_of(tail);
        assert(tail@ == chars_after_byte(input@, 6));
        let timestamp_ms = parse_numeric_field(tail_chars.as_slice(), 0xffff_ffff);
        let kind = input.get_char(3);
        let event_type = if kind == 'H' {
            EvtType::ButtonPress
        } else if kind == 'L' {
            EvtType::ButtonRelease
        } else if kind == 'O' {
            EvtType::Overcurrent
        } else if kind == 'C' {
            EvtType::CriticalError
        } else if kind == 'T' {
            EvtType::TransportError
        } else {
            return None;
        };
        Some(CringeEvt { io_bank_num, event_type, timestamp_ms })
    }
}

/// In an ASCII line every byte offset up to its length is a character
/// boundary, and the characters after `b` bytes are those after `b` characters.
pub proof fn lemma_ascii_chars_after_byte(s: Seq<char>, b: int)
    requires
        is_ascii_chars(s),
        0 <= b <= s.len(),
    ensures
        splits_at_byte(s, b),
        chars_after_byte(s, b) == s.subrange(b, s.len() as int),
{
    let bytes = encode_utf8(s);
    let sub = s.subrange(b, s.len() as int);
    is_ascii_chars_encode_utf8(s);
    assert(is_ascii_chars(sub)) by {
        assert forall|i: int| 0 <= i < sub.len() implies '\0' <= #[trigger] sub[i] <= '\u{7f}' by {
            assert(sub[i] == s[i + b]);
        }
    }
    is_ascii_chars_encode_utf8(sub);
    assert(bytes.subrange(b, bytes.len() as int) =~= encode_utf8(sub)) by {
        assert forall|i: int| 0 <= i < sub.len() implies #[trigger] bytes.subrange(
            b,
            bytes.len() as int,
        )[i] == encode_utf8(sub)[i] by {
            assert(sub[i] == s[i + b]);
            assert(bytes[i + b] == s[i + b] as u8);
        }
    }
    if b < s.len() {
        is_char_boundary_iff_is_leading_byte(bytes, b);
        assert(bytes[b] == s[b] as u8);
        assert('\0' <= s[b] <= '\u{7f}');
    } else {
        is_char_boundary_start_end_of_seq(bytes);
    }
}

/// The line the bridge expects for an event: the bank digit and the kind letter
/// after `<I`, then ` T`, the timestamp in decimal, and `>`; for example
/// `<I1H T114374>`.
pub open spec fn edge_line(bank: u8, kind: char, ts: u32) -> Seq<char> {
    seq!['<', 'I', digit_char(bank as nat), kind, ' ', 'T'] + decimal_digits(ts as nat) + seq!['>']
}

/// Reading back the line for an event with a one-digit bank and a known kind
/// letter gives that event; such a line meets what the reader requires.
pub proof fn law_edge_line_round_trip(bank: u8, kind: char, ts: u32)
    requires
        bank < 10,
        event_type_of(kind) is Some,
    ensures
        edge_line(bank, kind, ts).len() >= 4,
        splits_at_byte(edge_line(bank, kind, ts), 6),
        parse_edge_line(edge_line(bank, kind, ts)) == Some(
            CringeEvt {
                io_bank_num: bank,
                event_type: event_type_of(kind)->0,
                timestamp_ms: ts,
            },
        ),
{
    let d = decimal_digits(ts as nat);
    lemma_decimal_digits(ts as nat);
    lemma_parse_decimal_digits(ts as nat, 0xffff_ffff);
    let line = edge_line(bank, kind, ts);
    let head = seq!['<', 'I', digit_char(bank as nat), kind, ' ', 'T'];
    assert(is_ascii_chars(line)) by {
        assert forall|i: int| 0 <= i < line.len() implies '\0' <= #[trigger] line[i] <= '\u{7f}' by {
            if 6 <= i < 6 + d.len() {
                assert(line[i] == d[i - 6]);
                assert(ascii_digit(d[i - 6]));
            }
        }
    }
    lemma_ascii_chars_after_byte(line, 6);
    assert(line.subrange(6, line.len() as int) =~= d + seq!['>']);
    lemma_numeric_chars_concat(d, seq!['>']);
    lemma_numeric_chars_letter('>');
    assert(d + Seq::<char>::empty() =~= d);
    assert(line[2] == digit_char(bank as nat));
    assert(line[3] == kind);
}

/// The UTF-8 encoding of two strings one after the other is their encodings one
/// after the other.
proof fn lemma_encode_utf8_concat(a: Seq<char>, b: Seq<char>)
    ensures
        encode_utf8(a + b) == encode_utf8(a) + encode_utf8(b),
    decreases a.len(),
{
    if a.len() == 0 {
        assert(a + b =~= b);
        assert(encode_utf8(a) + encode_utf8(b) =~= encode_utf8(b));
    } else {
        assert((a + b).drop_first() =~= a.drop_first() + b);
        assert((a + b)[0] == a[0]);
        lemma_encode_utf8_concat(a.drop_first(), b);
        assert(encode_scalar(a[0] as u32) + (encode_utf8(a.drop_first()) + encode_utf8(b))
            =~= encode_scalar(a[0] as u32) + encode_utf8(a.drop_first()) + encode_utf8(b));
    }
}

/// What the bridge reads from a line, position by position: the letter at
/// character 3 decides the kind (`H` press, `L` release, `O` overcurrent, `C`
/// critical error, `T` transport error) and any other letter gives no event;
/// the bank is the value of the digit at character 2, or 0 when that is not a
/// digit.
pub proof fn law_edge_positions(s: Seq<char>)
    requires
        s.len() >= 4,
    ensures
        parse_edge_line(s) is None <==> !(s[3] == 'H' || s[3] == 'L' || s[3] == 'O' || s[3] == 'C'
            || s[3] == 'T'),
        s[3] == 'H' ==> parse_edge_line(s)->0.event_type == EvtType::ButtonPress,
        s[3] == 'L' ==> parse_edge_line(s)->0.event_type == EvtType::ButtonRelease,
        s[3] == 'O' ==> parse_edge_line(s)->0.event_type == EvtType::Overcurrent,
        s[3] == 'C' ==> parse_edge_line(s)->0.event_type == EvtType::CriticalError,
        s[3] == 'T' ==> parse_edge_line(s)->0.event_type == EvtType::TransportError,
        parse_edge_line(s) is Some && '0' <= s[2] <= '9' ==> parse_edge_line(s)->0.io_bank_num
            == (s[2] as u32) - 48,
        parse_edge_line(s) is Some && !('0' <= s[2] <= '9') ==> parse_edge_line(s)->0.io_bank_num
            == 0,
{
}

/// The timestamp is read from what follows the first six characters of an
/// ASCII head such as `<I1H T`, and only from that: a line made of such a head
/// and any text reads the number that text carries, whatever else the head
/// holds.
pub proof fn law_edge_timestamp_after_head(head: Seq<char>, rest: Seq<char>)
    requires
        head.len() == 6,
        is_ascii_chars(head),
        event_type_of(head[3]) is Some,
    ensures
        parse_edge_line(head + rest) == Some(
            CringeEvt {
                io_bank_num: digit_or_zero(head[2]),
                event_type: event_type_of(head[3])->0,
                timestamp_ms: numeric_field(rest, 0xffff_ffff) as u32,
            },
        ),
{
    let s = head + rest;
    lemma_encode_utf8_concat(head, rest);
    is_ascii_chars_encode_utf8(head);
    let bytes = encode_utf8(s);
    assert(bytes.subrange(6, bytes.len() as int) =~= encode_utf8(rest));
    assert(s[2] == head[2]);
    assert(s[3] == head[3]);
}

} // verus!
