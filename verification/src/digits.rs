use vstd::prelude::*;

use crate::text::{ascii_digit, is_numeric, numeric_char};

verus! {

/// The value of an ASCII decimal digit.
pub open spec fn digit_value(c: char) -> int {
    (c as u32) - ('0' as u32)
}

/// The number that a string of ASCII digits writes in decimal, most significant
/// digit first; the empty string is 0.
pub open spec fn decimal_value(s: Seq<char>) -> nat
    decreases s.len(),
{
    if s.len() == 0 {
        0
    } else {
        (10 * decimal_value(s.drop_last()) + digit_value(s.last())) as nat
    }
}

/// Every character of `s` is an ASCII digit.
pub open spec fn all_ascii_digits(s: Seq<char>) -> bool {
    forall|i: int| 0 <= i < s.len() ==> ascii_digit(#[trigger] s[i])
}

/// What parsing `s` as an unsigned integer whose largest value is `max` gives,
/// for a string without sign characters: the number when `s` is a non-empty run
/// of ASCII digits whose value fits, and nothing otherwise.
pub open spec fn parse_unsigned(s: Seq<char>, max: nat) -> Option<nat> {
    if s.len() > 0 && all_ascii_digits(s) && decimal_value(s) <= max {
        Some(decimal_value(s))
    } else {
        None
    }
}

/// The numeric characters of `field`, in order.
pub open spec fn numeric_chars(field: Seq<char>) -> Seq<char> {
    field.filter(|c: char| numeric_char(c))
}

/// The number a field carries: its numeric characters gathered into one string
/// and parsed as an unsigned integer up to `max`, or 0 when that parse fails.
pub open spec fn numeric_field(field: Seq<char>, max: nat) -> nat {
    match parse_unsigned(numeric_chars(field), max) {
        Some(v) => v,
        None => 0,
    }
}

/// Appending a character appends it to the numeric characters exactly when it
/// is numeric.
pub proof fn lemma_numeric_chars_push(s: Seq<char>, c: char)
    ensures
        numeric_chars(s.push(c)) == (if numeric_char(c) {
            numeric_chars(s).push(c)
        } else {
            numeric_chars(s)
        }),
{
    s.lemma_filter_push(c, |c: char| numeric_char(c));
}

/// Gathers the numeric characters of `field` and parses them as an unsigned
/// integer no larger than `max`; gives 0 where that parse fails (no numeric
/// character, a numeric character that is not an ASCII digit, or a value past
/// `max`).
pub fn parse_numeric_field(field: &[char], max: u32) -> (r: u32)
    ensures
        r == numeric_field(field@, max as nat),
{
    let n = field.len();
    let mut acc: u64 = 0;
    let mut failed = false;
    let mut seen = false;
    let mut i: usize = 0;
    while i < n
        invariant
            n == field@.len(),
            0 <= i <= n,
            seen == (numeric_chars(field@.take(i as int)).len() > 0),
            !failed ==> all_ascii_digits(numeric_chars(field@.take(i as int))),
            !failed ==> decimal_value(numeric_chars(field@.take(i as int))) <= max,
            !failed ==> acc == decimal_value(numeric_chars(field@.take(i as int))),
            failed ==> !all_ascii_digits(numeric_chars(field@.take(i as int)))
                || decimal_value(numeric_chars(field@.take(i as int))) > max,
        decreases n - i,
    {
        let c = field[i];
        let ghost prev = numeric_chars(field@.take(i as int));
        assert(field@.take(i + 1) =~= field@.take(i as int).push(c));
        proof {
            lemma_numeric_chars_push(field@.take(i as int), c);
        }
        if is_numeric(c) {
            let ghost next = prev.push(c);
            assert(numeric_chars(field@.take(i + 1)) == next);
            assert(next.drop_last() =~= prev);
            seen = true;
            if !failed {
                if '0' <= c && c <= '9' {
                    let d = (c as u32 - '0' as u32) as u64;
                    acc = acc * 10 + d;
                    assert(all_ascii_digits(next)) by {
                        assert forall|j: int| 0 <= j < next.len() implies ascii_digit(
                            #[trigger] next[j],
                        ) by {
                            if j < prev.len() {
                                assert(next[j] == prev[j]);
                            }
                        }
                    }
                    if acc > max as u64 {
                        failed = true;
                    }
                } else {
                    assert(!ascii_digit(next[next.len() - 1]));
                    failed = true;
                }
            } else {
                proof {
                    if !all_ascii_digits(prev) {
                        let k = choose|k: int| 0 <= k < prev.len() && !ascii_digit(#[trigger] prev[k]);
                        assert(next[k] == prev[k]);
                    }
                }
            }
        } else {
            assert(numeric_chars(field@.take(i + 1)) == prev);
        }
        i = i + 1;
    }
    assert(field@.take(n as int) =~= field@);
    if failed || !seen {
        0
    } else {
        acc as u32
    }
}

/// The ASCII digit for a value below ten.
pub open spec fn digit_char(d: nat) -> char {
    if d == 0 {
        '0'
    } else if d == 1 {
        '1'
    } else if d == 2 {
        '2'
    } else if d == 3 {
        '3'
    } else if d == 4 {
        '4'
    } else if d == 5 {
        '5'
    } else if d == 6 {
        '6'
    } else if d == 7 {
        '7'
    } else if d == 8 {
        '8'
    } else {
        '9'
    }
}

/// `n` written in decimal without leading zeros (`0` for zero).
pub open spec fn decimal_digits(n: nat) -> Seq<char>
    decreases n,
{
    if n < 10 {
        seq![digit_char(n)]
    } else {
        decimal_digits(n / 10).push(digit_char(n % 10))
    }
}

/// A string of ASCII digits is its own numeric content.
pub proof fn lemma_numeric_chars_of_digits(s: Seq<char>)
    requires
        all_ascii_digits(s),
    ensures
        numeric_chars(s) == s,
    decreases s.len(),
{
    if s.len() > 0 {
        assert(all_ascii_digits(s.drop_last())) by {
            assert forall|i: int| 0 <= i < s.drop_last().len() implies ascii_digit(
                #[trigger] s.drop_last()[i],
            ) by {
                assert(s.drop_last()[i] == s[i]);
            }
        }
        lemma_numeric_chars_of_digits(s.drop_last());
        assert(ascii_digit(s[s.len() - 1]));
        lemma_numeric_chars_push(s.drop_last(), s.last());
        assert(s.drop_last().push(s.last()) =~= s);
    }
}

/// The decimal digits of `n` are a non-empty run of ASCII digits that reads
/// back as `n`.
pub proof fn lemma_decimal_digits(n: nat)
    ensures
        decimal_digits(n).len() > 0,
        all_ascii_digits(decimal_digits(n)),
        decimal_value(decimal_digits(n)) == n,
        numeric_chars(decimal_digits(n)) == decimal_digits(n),
    decreases n,
{
    if n < 10 {
        let s = decimal_digits(n);
        assert(s.drop_last() =~= Seq::<char>::empty());
        assert(decimal_value(s.drop_last()) == 0);
    } else {
        lemma_decimal_digits(n / 10);
        let p = decimal_digits(n / 10);
        let s = decimal_digits(n);
        assert(s.drop_last() =~= p);
        assert forall|i: int| 0 <= i < s.len() implies ascii_digit(#[trigger] s[i]) by {
            if i < p.len() {
                assert(s[i] == p[i]);
            }
        }
        assert(n == 10 * (n / 10) + n % 10);
    }
    lemma_numeric_chars_of_digits(decimal_digits(n));
}

/// Any value up to `max` written in decimal parses back as itself.
pub proof fn lemma_parse_decimal_digits(n: nat, max: nat)
    requires
        n <= max,
    ensures
        parse_unsigned(decimal_digits(n), max) == Some(n),
        numeric_field(decimal_digits(n), max) == n,
{
    lemma_decimal_digits(n);
}

/// The numeric content of two strings one after the other is theirs one after
/// the other.
pub proof fn lemma_numeric_chars_concat(a: Seq<char>, b: Seq<char>)
    ensures
        numeric_chars(a + b) == numeric_chars(a) + numeric_chars(b),
{
    Seq::filter_distributes_over_add(a, b, |c: char| numeric_char(c));
}

/// A single character that is not numeric has no numeric content.
pub proof fn lemma_numeric_chars_letter(c: char)
    requires
        !numeric_char(c),
    ensures
        numeric_chars(seq![c]) == Seq::<char>::empty(),
{
    let e = Seq::<char>::empty();
    reveal(Seq::filter);
    assert(numeric_chars(e) == e);
    assert(seq![c] =~= e.push(c));
    lemma_numeric_chars_push(e, c);
}

/// Decimal place value: appending an ASCII digit to a string of digits
/// multiplies its value by ten and adds the digit's value, the digit's code
/// minus the code of `0`; the empty string is worth 0.
pub proof fn law_decimal_place_value(s: Seq<char>, c: char)
    requires
        '0' <= c <= '9',
    ensures
        decimal_value(s.push(c)) == 10 * decimal_value(s) + ((c as u32) - 48),
        decimal_value(Seq::<char>::empty()) == 0,
        0 <= (c as u32) - 48 <= 9,
{
    assert(s.push(c).drop_last() =~= s);
}

/// The number a field carries is never past its bound; it is 0 when the field
/// has no numeric character, when one of its numeric characters is not an
/// ASCII digit, or when the digits write a number past the bound; otherwise it
/// is the number the digits write.
pub proof fn law_numeric_field_cases(f: Seq<char>, max: nat)
    ensures
        numeric_field(f, max) <= max,
        numeric_chars(f).len() == 0 ==> numeric_field(f, max) == 0,
        (exists|i: int|
            0 <= i < numeric_chars(f).len() && !('0' <= #[trigger] numeric_chars(f)[i] <= '9'))
            ==> numeric_field(f, max) == 0,
        all_ascii_digits(numeric_chars(f)) && decimal_value(numeric_chars(f)) > max
            ==> numeric_field(f, max) == 0,
        numeric_chars(f).len() > 0 && all_ascii_digits(numeric_chars(f)) && decimal_value(
            numeric_chars(f),
        ) <= max ==> numeric_field(f, max) == decimal_value(numeric_chars(f)),
{
}

} // verus!
