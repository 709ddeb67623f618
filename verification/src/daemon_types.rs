use vstd::prelude::*;

use crate::digits::{
    all_ascii_digits, decimal_digits, lemma_decimal_digits, lemma_numeric_chars_concat,
    lemma_numeric_chars_letter, lemma_parse_decimal_digits, numeric_field, parse_numeric_field,
};
use crate::fields::{
    fields, is_bracket, lemma_fields_of_two_words, lemma_strip_brackets_push, lemma_strip_framed,
    lemma_fields_append_word, lemma_no_brackets_concat, lemma_no_whitespace_concat,
    lemma_strip_append_plain, lemma_strip_idempotent, no_brackets, no_whitespace, split_fields,
    strip_brackets,
};
use crate::text::{ascii_digit, ascii_whitespace, chars_of, is_ascii_whitespace};

verus! {

/// The directory under which the daemon keeps its socket and device logs.
pub const CRINGED_TMP_PATH: &'static str = "/tmp/cringed";

/// What happened on the board.
#[derive(PartialEq, Eq, Structural, Debug, Clone, Copy)]
pub enum EvtType {
    ButtonPress,
    ButtonRelease,
    Overcurrent,
    CriticalError,
    TransportError,
    ParseError,
    BoardBoot,
}

/// One event reported by a board over its serial line.
#[derive(PartialEq, Eq, Structural, Debug, Clone, Copy)]
pub struct CringeEvt {
    pub io_bank_num: u8,
    pub event_type: EvtType,
    pub timestamp_ms: u32,
}

/// The event before any field of the line has been read.
pub open spec fn unread_event() -> CringeEvt {
    CringeEvt { io_bank_num: 0, event_type: EvtType::ParseError, timestamp_ms: 0 }
}

/// What one field of a line does to the event read so far: an `I` field ending
/// in `H` or `L` sets a press or release and the bank number it carries; a `T`
/// field sets the timestamp it carries; any other field changes nothing.
pub open spec fn apply_field(e: CringeEvt, f: Seq<char>) -> CringeEvt {
    if f[0] == 'I' && f.last() == 'H' {
        CringeEvt {
            io_bank_num: numeric_field(f, 255) as u8,
            event_type: EvtType::ButtonPress,
            timestamp_ms: e.timestamp_ms,
        }
    } else if f[0] == 'I' && f.last() == 'L' {
        CringeEvt {
            io_bank_num: numeric_field(f, 255) as u8,
            event_type: EvtType::ButtonRelease,
            timestamp_ms: e.timestamp_ms,
        }
    } else if f[0] == 'T' {
        CringeEvt {
            io_bank_num: e.io_bank_num,
            event_type: e.event_type,
            timestamp_ms: numeric_field(f, 0xffff_ffff) as u32,
        }
    } else {
        e
    }
}

/// The event that the fields give when read from first to last.
pub open spec fn read_fields(fs: Seq<Seq<char>>) -> CringeEvt
    decreases fs.len(),
{
    if fs.len() == 0 {
        unread_event()
    } else {
        apply_field(read_fields(fs.drop_last()), fs.last())
    }
}

/// The event a serial line such as `<I11H T114374>` describes: the fields of the
/// line with its angle brackets removed, read in order.
pub open spec fn parse_event_line(s: Seq<char>) -> CringeEvt {
    read_fields(fields(strip_brackets(s)))
}

impl CringeEvt {
    /// Applies one non-empty field to the event read so far.
    fn apply(self, f: &Vec<char>) -> (r: CringeEvt)
        requires
            f@.len() > 0,
        ensures
            r == apply_field(self, f@),
    {
        let first = f[0];
        let last = f[f.len() - 1];
        if first == 'I' && last == 'H' {
            CringeEvt {
                io_bank_num: parse_numeric_field(f.as_slice(), 255) as u8,
                event_type: EvtType::ButtonPress,
                timestamp_ms: self.timestamp_ms,
            }
        } else if first == 'I' && last == 'L' {
            CringeEvt {
                io_bank_num: parse_numeric_field(f.as_slice(), 255) as u8,
                event_type: EvtType::ButtonRelease,
                timestamp_ms: self.timestamp_ms,
            }
        } else if first == 'T' {
            CringeEvt {
                io_bank_num: self.io_bank_num,
                event_type: self.event_type,
                timestamp_ms: parse_numeric_field(f.as_slice(), 0xffff_ffff),
            }
        } else {
            self
        }
    }

    /// Reads an event line sent by a board, for example `<I11H T114374>`: a
    /// button press on bank 11 at 114374 ms. Angle brackets are dropped, the rest
    /// is split at ASCII white space, and each field is read in turn: `I<bank>H`
    /// or `I<bank>L` gives a press or a release, `T<ms>` the timestamp; later
    /// fields override earlier ones, and a number that does not parse reads as 0.
    /// A line with no such field gives a `ParseError` event. Every line gives an
    /// event.
    pub fn from_serial(input: &str) -> (r: Option<CringeEvt>)
        ensures
            r == Some(parse_event_line(input@)),
    {
        let chars = chars_of(input);
        let n = chars.len();
        let mut evt = CringeEvt { io_bank_num: 0, event_type: EvtType::ParseError, timestamp_ms: 0 };
        let mut cur: Vec<char> = Vec::new();
        let mut i: usize = 0;
        while i < n
            invariant
                n == chars@.len(),
                chars@ == input@,
                0 <= i <= n,
                evt == read_fields(split_fields(strip_brackets(chars@.take(i as int))).0),
                cur@ == split_fields(strip_brackets(chars@.take(i as int))).1,
            decreases n - i,
        {
            let c = chars[i];
            let ghost prev = strip_brackets(chars@.take(i as int));
            assert(chars@.take(i + 1) =~= chars@.take(i as int).push(c));
            proof {
                lemma_strip_brackets_push(chars@.take(i as int), c);
            }
            if c == '<' || c == '>' {
                assert(is_bracket(c));
            } else {
                let ghost next = prev.push(c);
                assert(strip_brackets(chars@.take(i + 1)) == next);
                assert(next.drop_last() =~= prev);
                let ghost (done, field) = split_fields(prev);
                if is_ascii_whitespace(c) {
                    if cur.len() > 0 {
                        assert(done.push(field).drop_last() =~= done);
                        evt = evt.apply(&cur);
                        cur = Vec::new();
                    }
                } else {
                    cur.push(c);
                }
            }
            i = i + 1;
        }
        assert(chars@.take(n as int) =~= chars@);
        let ghost (done, field) = split_fields(strip_brackets(chars@));
        if cur.len() > 0 {
            assert(done.push(field).drop_last() =~= done);
            evt = evt.apply(&cur);
        }
        Some(evt)
    }
}

/// The letter a board sends for a press (`H`) or a release (`L`).
pub open spec fn press_letter(pressed: bool) -> char {
    if pressed {
        'H'
    } else {
        'L'
    }
}

/// The field that reports a press or a release on `bank`, such as `I11H`.
pub open spec fn press_field(bank: u8, pressed: bool) -> Seq<char> {
    seq!['I'] + decimal_digits(bank as nat) + seq![press_letter(pressed)]
}

/// The field that reports the time of an event, such as `T114374`.
pub open spec fn time_field(ts: u32) -> Seq<char> {
    seq!['T'] + decimal_digits(ts as nat)
}

/// The line a board sends for a press or a release on `bank` at `ts`
/// milliseconds, such as `<I11H T114374>`.
pub open spec fn event_line(bank: u8, pressed: bool, ts: u32) -> Seq<char> {
    seq!['<'] + press_field(bank, pressed) + seq![' '] + time_field(ts) + seq!['>']
}

/// ASCII digits are neither brackets nor white space.
proof fn lemma_digits_plain(d: Seq<char>)
    requires
        all_ascii_digits(d),
    ensures
        no_brackets(d),
        no_whitespace(d),
{
    assert forall|i: int| 0 <= i < d.len() implies !is_bracket(#[trigger] d[i]) by {
        assert(ascii_digit(d[i]));
    }
    assert forall|i: int| 0 <= i < d.len() implies !ascii_whitespace(#[trigger] d[i]) by {
        assert(ascii_digit(d[i]));
    }
}

/// The press and time fields are words without brackets.
proof fn lemma_line_fields_plain(bank: u8, pressed: bool, ts: u32)
    ensures
        no_brackets(press_field(bank, pressed)),
        no_whitespace(press_field(bank, pressed)),
        no_brackets(time_field(ts)),
        no_whitespace(time_field(ts)),
{
    let d1 = decimal_digits(bank as nat);
    let d2 = decimal_digits(ts as nat);
    lemma_decimal_digits(bank as nat);
    lemma_decimal_digits(ts as nat);
    lemma_digits_plain(d1);
    lemma_digits_plain(d2);
    let x = press_letter(pressed);
    assert(no_brackets(seq!['I']) && no_whitespace(seq!['I']));
    assert(no_brackets(seq![x]) && no_whitespace(seq![x]));
    assert(no_brackets(seq!['T']) && no_whitespace(seq!['T']));
    lemma_no_brackets_concat(seq!['I'], d1);
    lemma_no_brackets_concat(seq!['I'] + d1, seq![x]);
    lemma_no_whitespace_concat(seq!['I'], d1);
    lemma_no_whitespace_concat(seq!['I'] + d1, seq![x]);
    lemma_no_brackets_concat(seq!['T'], d2);
    lemma_no_whitespace_concat(seq!['T'], d2);
}

/// The fields of a press or release line are its press field and its time field.
proof fn lemma_event_line_fields(bank: u8, pressed: bool, ts: u32)
    ensures
        fields(strip_brackets(event_line(bank, pressed, ts))) == seq![
            press_field(bank, pressed),
            time_field(ts),
        ],
{
    let f1 = press_field(bank, pressed);
    let f2 = time_field(ts);
    lemma_line_fields_plain(bank, pressed, ts);
    let mid = f1 + seq![' '] + f2;
    assert(event_line(bank, pressed, ts) =~= seq!['<'] + mid + seq!['>']);
    assert(no_brackets(seq![' ']));
    lemma_no_brackets_concat(f1, seq![' ']);
    lemma_no_brackets_concat(f1 + seq![' '], f2);
    lemma_strip_framed(mid);
    lemma_fields_of_two_words(f1, f2);
}

/// A press field sets the press or release and its bank, keeping the time.
proof fn lemma_apply_press_field(e: CringeEvt, bank: u8, pressed: bool)
    ensures
        apply_field(e, press_field(bank, pressed)) == (CringeEvt {
            io_bank_num: bank,
            event_type: if pressed {
                EvtType::ButtonPress
            } else {
                EvtType::ButtonRelease
            },
            timestamp_ms: e.timestamp_ms,
        }),
{
    let d1 = decimal_digits(bank as nat);
    let x = press_letter(pressed);
    let f1 = press_field(bank, pressed);
    lemma_parse_decimal_digits(bank as nat, 255);
    lemma_numeric_chars_concat(seq!['I'] + d1, seq![x]);
    lemma_numeric_chars_concat(seq!['I'], d1);
    lemma_numeric_chars_letter('I');
    lemma_numeric_chars_letter(x);
    assert(Seq::<char>::empty() + d1 + Seq::<char>::empty() =~= d1);
    assert(f1[0] == 'I');
    assert(f1.last() == x);
}

/// A time field sets the timestamp, keeping bank and kind.
proof fn lemma_apply_time_field(e: CringeEvt, ts: u32)
    ensures
        apply_field(e, time_field(ts)) == (CringeEvt {
            io_bank_num: e.io_bank_num,
            event_type: e.event_type,
            timestamp_ms: ts,
        }),
{
    let d2 = decimal_digits(ts as nat);
    lemma_parse_decimal_digits(ts as nat, 0xffff_ffff);
    lemma_numeric_chars_concat(seq!['T'], d2);
    lemma_numeric_chars_letter('T');
    assert(Seq::<char>::empty() + d2 =~= d2);
    assert(time_field(ts)[0] == 'T');
}

/// Reading back the line a board sends for a button press or release gives the
/// event it was sent for: bank, kind and timestamp come back unchanged.
pub proof fn law_event_line_round_trip(bank: u8, pressed: bool, ts: u32)
    ensures
        parse_event_line(event_line(bank, pressed, ts)) == (CringeEvt {
            io_bank_num: bank,
            event_type: if pressed {
                EvtType::ButtonPress
            } else {
                EvtType::ButtonRelease
            },
            timestamp_ms: ts,
        }),
{
    let f1 = press_field(bank, pressed);
    let f2 = time_field(ts);
    lemma_event_line_fields(bank, pressed, ts);
    let fs = seq![f1, f2];
    assert(fs.drop_last() =~= seq![f1]);
    assert(seq![f1].drop_last() =~= Seq::<Seq<char>>::empty());
    assert(read_fields(seq![f1]) == apply_field(read_fields(Seq::empty()), f1));
    assert(read_fields(fs) == apply_field(read_fields(seq![f1]), f2));
    lemma_apply_press_field(unread_event(), bank, pressed);
    lemma_apply_time_field(apply_field(unread_event(), f1), ts);
}

/// Angle brackets anywhere in a line change nothing: a line reads as the same
/// line with its brackets removed.
pub proof fn law_brackets_ignored(s: Seq<char>)
    ensures
        parse_event_line(s) == parse_event_line(strip_brackets(s)),
{
    lemma_strip_idempotent(s);
}

/// Fields are read in order, each acting on what the earlier ones gave: a
/// line followed by a space and one more field reads as the line's event with
/// that field applied.
pub proof fn law_append_field(s: Seq<char>, f: Seq<char>)
    requires
        f.len() > 0,
        no_whitespace(f),
        no_brackets(f),
    ensures
        parse_event_line(s + seq![' '] + f) == apply_field(parse_event_line(s), f),
{
    let t = seq![' '] + f;
    assert(no_brackets(seq![' ']));
    lemma_no_brackets_concat(seq![' '], f);
    assert(s + seq![' '] + f =~= s + t);
    lemma_strip_append_plain(s, t);
    assert(strip_brackets(s) + t =~= strip_brackets(s) + seq![' '] + f);
    lemma_fields_append_word(strip_brackets(s), f);
    let fs = fields(strip_brackets(s));
    assert(fs.push(f).drop_last() =~= fs);
}

/// A time field at the end of a line decides the timestamp, whatever came
/// before; bank and kind stay as the line gave them.
pub proof fn law_last_time_field_wins(s: Seq<char>, ts: u32)
    ensures
        parse_event_line(s + seq![' '] + time_field(ts)) == (CringeEvt {
            io_bank_num: parse_event_line(s).io_bank_num,
            event_type: parse_event_line(s).event_type,
            timestamp_ms: ts,
        }),
{
    lemma_line_fields_plain(0, true, ts);
    law_append_field(s, time_field(ts));
    lemma_apply_time_field(parse_event_line(s), ts);
}

/// A press or release field at the end of a line decides the bank and the kind,
/// whatever came before; the timestamp stays as the line gave it.
pub proof fn law_last_press_field_wins(s: Seq<char>, bank: u8, pressed: bool)
    ensures
        parse_event_line(s + seq![' '] + press_field(bank, pressed)) == (CringeEvt {
            io_bank_num: bank,
            event_type: if pressed {
                EvtType::ButtonPress
            } else {
                EvtType::ButtonRelease
            },
            timestamp_ms: parse_event_line(s).timestamp_ms,
        }),
{
    lemma_line_fields_plain(bank, pressed, 0);
    law_append_field(s, press_field(bank, pressed));
    lemma_apply_press_field(parse_event_line(s), bank, pressed);
}

/// An input field: `I`, a number in decimal, and a kind letter, such as `I3O`.
pub open spec fn input_field(n: nat, x: char) -> Seq<char> {
    seq!['I'] + decimal_digits(n) + seq![x]
}

/// A letter that neither separates fields nor is an angle bracket.
pub open spec fn plain_letter(x: char) -> bool {
    !ascii_whitespace(x) && !is_bracket(x)
}

/// The line a board would send for an input field with kind letter `x`, such as
/// `<I3O T5>`.
pub open spec fn input_line(n: nat, x: char, ts: u32) -> Seq<char> {
    seq!['<'] + input_field(n, x) + seq![' '] + time_field(ts) + seq!['>']
}

/// An input field with a plain kind letter is a word without brackets.
proof fn lemma_input_field_plain(n: nat, x: char)
    requires
        plain_letter(x),
    ensures
        input_field(n, x).len() > 0,
        no_brackets(input_field(n, x)),
        no_whitespace(input_field(n, x)),
{
    let d = decimal_digits(n);
    lemma_decimal_digits(n);
    lemma_digits_plain(d);
    assert(no_brackets(seq!['I']) && no_whitespace(seq!['I']));
    assert(no_brackets(seq![x]) && no_whitespace(seq![x]));
    lemma_no_brackets_concat(seq!['I'], d);
    lemma_no_brackets_concat(seq!['I'] + d, seq![x]);
    lemma_no_whitespace_concat(seq!['I'], d);
    lemma_no_whitespace_concat(seq!['I'] + d, seq![x]);
}

/// An input field counts only when its last letter is `H` or `L`: with any
/// other last letter it leaves the event read so far as it was.
pub proof fn law_input_field_needs_kind(e: CringeEvt, n: nat, x: char)
    requires
        x != 'H',
        x != 'L',
    ensures
        apply_field(e, input_field(n, x)) == e,
{
    let f = input_field(n, x);
    assert(f[0] == 'I');
    assert(f.last() == x);
}

/// A field that is neither an input field ending in `H` or `L` nor a time field
/// is skipped: adding it to a line does not change the event the line gives.
pub proof fn law_other_fields_skipped(s: Seq<char>, f: Seq<char>)
    requires
        f.len() > 0,
        no_whitespace(f),
        no_brackets(f),
        f[0] != 'T',
        !(f[0] == 'I' && (f.last() == 'H' || f.last() == 'L')),
    ensures
        parse_event_line(s + seq![' '] + f) == parse_event_line(s),
{
    law_append_field(s, f);
}

/// Adding an input field whose kind letter is neither `H` nor `L` to a line
/// leaves the event the line gives unchanged.
pub proof fn law_input_field_without_kind_skipped(s: Seq<char>, n: nat, x: char)
    requires
        x != 'H',
        x != 'L',
        plain_letter(x),
    ensures
        parse_event_line(s + seq![' '] + input_field(n, x)) == parse_event_line(s),
{
    lemma_input_field_plain(n, x);
    law_append_field(s, input_field(n, x));
    law_input_field_needs_kind(parse_event_line(s), n, x);
}

/// A time field is a word without brackets.
proof fn lemma_time_field_plain(ts: u32)
    ensures
        no_brackets(time_field(ts)),
        no_whitespace(time_field(ts)),
{
    lemma_line_fields_plain(0, true, ts);
}

/// Two bracket-free words joined by a space are bracket-free.
proof fn lemma_mid_plain(f1: Seq<char>, f2: Seq<char>)
    requires
        no_brackets(f1),
        no_brackets(f2),
    ensures
        no_brackets(f1 + seq![' '] + f2),
{
    assert(no_brackets(seq![' ']));
    lemma_no_brackets_concat(f1, seq![' ']);
    lemma_no_brackets_concat(f1 + seq![' '], f2);
}

/// The fields of an input line are its input field and its time field.
proof fn lemma_input_line_fields(n: nat, x: char, ts: u32)
    requires
        plain_letter(x),
    ensures
        fields(strip_brackets(input_line(n, x, ts))) == seq![input_field(n, x), time_field(ts)],
{
    let f1 = input_field(n, x);
    let f2 = time_field(ts);
    lemma_input_field_plain(n, x);
    lemma_time_field_plain(ts);
    let mid = f1 + seq![' '] + f2;
    assert(input_line(n, x, ts) == seq!['<'] + mid + seq!['>']);
    lemma_mid_plain(f1, f2);
    lemma_strip_framed(mid);
    assert(strip_brackets(input_line(n, x, ts)) == mid);
    lemma_fields_of_two_words(f1, f2);
    assert(fields(mid) == seq![f1, f2]);
}

/// A board line whose input field ends in a letter other than `H` or `L`, such
/// as `<I3O T5>`, gives no button event: the kind stays `ParseError` and the
/// bank 0, and only the timestamp is read.
pub proof fn law_unknown_kind_line(n: nat, x: char, ts: u32)
    requires
        x != 'H',
        x != 'L',
        plain_letter(x),
    ensures
        parse_event_line(input_line(n, x, ts)) == (CringeEvt {
            io_bank_num: 0,
            event_type: EvtType::ParseError,
            timestamp_ms: ts,
        }),
{
    let f1 = input_field(n, x);
    let f2 = time_field(ts);
    lemma_input_line_fields(n, x, ts);
    let fs = seq![f1, f2];
    assert(fs.drop_last() =~= seq![f1]);
    assert(seq![f1].drop_last() =~= Seq::<Seq<char>>::empty());
    assert(read_fields(seq![f1]) == apply_field(read_fields(Seq::empty()), f1));
    assert(read_fields(fs) == apply_field(read_fields(seq![f1]), f2));
    law_input_field_needs_kind(unread_event(), n, x);
    lemma_apply_time_field(unread_event(), ts);
}

/// A bank number past 255 or a timestamp past `u32::MAX` does not wrap: it
/// reads as 0, while the kind of a press or release field is still set.
pub proof fn law_out_of_range_numbers_read_zero(e: CringeEvt, n: nat, pressed: bool, t: nat)
    ensures
        n > 255 ==> apply_field(e, input_field(n, press_letter(pressed))) == (CringeEvt {
            io_bank_num: 0,
            event_type: if pressed {
                EvtType::ButtonPress
            } else {
                EvtType::ButtonRelease
            },
            timestamp_ms: e.timestamp_ms,
        }),
        t > 0xffff_ffff ==> apply_field(e, seq!['T'] + decimal_digits(t)) == (CringeEvt {
            io_bank_num: e.io_bank_num,
            event_type: e.event_type,
            timestamp_ms: 0,
        }),
{
    let d1 = decimal_digits(n);
    let x = press_letter(pressed);
    let f1 = input_field(n, x);
    lemma_decimal_digits(n);
    lemma_numeric_chars_concat(seq!['I'] + d1, seq![x]);
    lemma_numeric_chars_concat(seq!['I'], d1);
    lemma_numeric_chars_letter('I');
    lemma_numeric_chars_letter(x);
    assert(Seq::<char>::empty() + d1 + Seq::<char>::empty() =~= d1);
    assert(f1[0] == 'I');
    assert(f1.last() == x);
    let d2 = decimal_digits(t);
    let f2 = seq!['T'] + d2;
    lemma_decimal_digits(t);
    lemma_numeric_chars_concat(seq!['T'], d2);
    lemma_numeric_chars_letter('T');
    assert(Seq::<char>::empty() + d2 =~= d2);
    assert(f2[0] == 'T');
}

} // verus!
