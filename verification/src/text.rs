use vstd::prelude::*;

verus! {

/// Name for what `char::is_numeric` answers for a char outside ASCII: whether its
/// Unicode general category is one of the number categories (Nd, Nl, No).
pub uninterp spec fn char_is_numeric(c: char) -> bool;

/// Name for what `char::is_whitespace` answers for a char outside ASCII: whether it
/// has the Unicode `White_Space` property.
pub uninterp spec fn char_is_whitespace(c: char) -> bool;

/// Whether `c` counts as numeric: within ASCII exactly the digits `0` to `9`,
/// beyond it the Unicode number categories.
pub open spec fn numeric_char(c: char) -> bool {
    if (c as u32) < 128 {
        '0' <= c && c <= '9'
    } else {
        char_is_numeric(c)
    }
}

/// Whether `c` counts as white space: within ASCII the space and the characters
/// from tab to carriage return, beyond it the Unicode `White_Space` property.
pub open spec fn whitespace_char(c: char) -> bool {
    if (c as u32) < 128 {
        c == ' ' || ('\t' <= c && c <= '\r')
    } else {
        char_is_whitespace(c)
    }
}

/// An ASCII decimal digit.
pub open spec fn ascii_digit(c: char) -> bool {
    '0' <= c && c <= '9'
}

/// The white space that splits the fields of a serial line: space, tab, line
/// feed, form feed and carriage return.
pub open spec fn ascii_whitespace(c: char) -> bool {
    c == ' ' || c == '\t' || c == '\n' || c == '\x0C' || c == '\r'
}

/// Calls `char::is_numeric`. Claimed: within ASCII the answer is true exactly for
/// `0` to `9`; beyond ASCII it is the named Unicode property.
#[verifier::external_body]
pub(crate) fn is_numeric(c: char) -> (r: bool)
    ensures
        r == (if (c as u32) < 128 {
            '0' <= c && c <= '9'
        } else {
            char_is_numeric(c)
        }),
{
    c.is_numeric()
}

/// Calls `char::is_whitespace`. Claimed: within ASCII the answer is true exactly
/// for the space and tab through carriage return; beyond ASCII it is the named
/// Unicode property.
#[verifier::external_body]
pub(crate) fn is_whitespace(c: char) -> (r: bool)
    ensures
        r == (if (c as u32) < 128 {
            c == ' ' || ('\t' <= c && c <= '\r')
        } else {
            char_is_whitespace(c)
        }),
{
    c.is_whitespace()
}

/// Whether `c` is one of the five ASCII white space characters.
pub fn is_ascii_whitespace(c: char) -> (r: bool)
    ensures
        r == ascii_whitespace(c),
{
    c == ' ' || c == '\t' || c == '\n' || c == '\x0C' || c == '\r'
}

/// The characters of `s`, in order.
pub fn chars_of(s: &str) -> (v: Vec<char>)
    ensures
        v@ == s@,
{
    let mut v: Vec<char> = Vec::new();
    for c in it: s.chars()
        invariant
            v@ == it.seq().take(it.index() as int),
    {
        v.push(c);
    }
    v
}

/// `s` without its leading white space.
pub open spec fn trim_start_spec(s: Seq<char>) -> Seq<char>
    decreases s.len(),
{
    if s.len() > 0 && whitespace_char(s[0]) {
        trim_start_spec(s.drop_first())
    } else {
        s
    }
}

/// `s` without its trailing white space.
pub open spec fn trim_end_spec(s: Seq<char>) -> Seq<char>
    decreases s.len(),
{
    if s.len() > 0 && whitespace_char(s.last()) {
        trim_end_spec(s.drop_last())
    } else {
        s
    }
}

/// `s` without leading and trailing white space.
pub open spec fn trimmed(s: Seq<char>) -> Seq<char> {
    trim_end_spec(trim_start_spec(s))
}

/// Removing leading white space leaves a suffix that is empty or starts with
/// something else.
pub proof fn lemma_trim_start_shape(s: Seq<char>)
    ensures
        trim_start_spec(s).len() <= s.len(),
        trim_start_spec(s) =~= s.subrange(s.len() - trim_start_spec(s).len(), s.len() as int),
        trim_start_spec(s).len() > 0 ==> !whitespace_char(trim_start_spec(s)[0]),
        forall|k: int|
            0 <= k < s.len() - trim_start_spec(s).len() ==> whitespace_char(#[trigger] s[k]),
    decreases s.len(),
{
    if s.len() > 0 && whitespace_char(s[0]) {
        let t = s.drop_first();
        lemma_trim_start_shape(t);
        assert forall|k: int|
            0 <= k < s.len() - trim_start_spec(s).len() implies whitespace_char(#[trigger] s[k]) by {
            if k > 0 {
                assert(s[k] == t[k - 1]);
            }
        }
    }
}

/// Removing trailing white space leaves a prefix that is empty or ends with
/// something else.
pub proof fn lemma_trim_end_shape(s: Seq<char>)
    ensures
        trim_end_spec(s).len() <= s.len(),
        trim_end_spec(s) =~= s.subrange(0, trim_end_spec(s).len() as int),
        trim_end_spec(s).len() > 0 ==> !whitespace_char(trim_end_spec(s).last()),
        forall|k: int| trim_end_spec(s).len() <= k < s.len() ==> whitespace_char(#[trigger] s[k]),
    decreases s.len(),
{
    if s.len() > 0 && whitespace_char(s.last()) {
        let t = s.drop_last();
        lemma_trim_end_shape(t);
        assert forall|k: int| trim_end_spec(s).len() <= k < s.len() implies whitespace_char(
            #[trigger] s[k],
        ) by {
            if k < s.len() - 1 {
                assert(s[k] == t[k]);
            }
        }
    }
}

/// `s` with leading and trailing white space removed, as `str::trim` does.
pub fn trim(s: &str) -> (r: String)
    ensures
        r@ == trimmed(s@),
{
    let chars = chars_of(s);
    let n = chars.len();
    let mut start: usize = 0;
    assert(s@.subrange(0, n as int) =~= s@);
    while start < n && is_whitespace(chars[start])
        invariant
            n == chars@.len(),
            chars@ == s@,
            0 <= start <= n,
            trim_start_spec(s@) == trim_start_spec(s@.subrange(start as int, n as int)),
        decreases n - start,
    {
        assert(s@.subrange(start as int, n as int).drop_first() =~= s@.subrange(
            start + 1,
            n as int,
        ));
        start = start + 1;
    }
    assert(trim_start_spec(s@) == s@.subrange(start as int, n as int));
    let mut end: usize = n;
    while end > start && is_whitespace(chars[end - 1])
        invariant
            n == chars@.len(),
            chars@ == s@,
            0 <= start <= end <= n,
            trimmed(s@) == trim_end_spec(s@.subrange(start as int, end as int)),
        decreases end,
    {
        assert(s@.subrange(start as int, end as int).drop_last() =~= s@.subrange(
            start as int,
            end - 1,
        ));
        end = end - 1;
    }
    s.substring_char(start, end).to_owned()
}

/// Trimming is idempotent: a trimmed string has nothing more to trim.
pub proof fn law_trim_idempotent(s: Seq<char>)
    ensures
        trimmed(trimmed(s)) == trimmed(s),
        trimmed(s).len() > 0 ==> !whitespace_char(trimmed(s)[0]) && !whitespace_char(
            trimmed(s).last(),
        ),
{
    let a = trim_start_spec(s);
    lemma_trim_start_shape(s);
    let b = trim_end_spec(a);
    lemma_trim_end_shape(a);
    if b.len() > 0 {
        assert(b[0] == a[0]);
    }
    lemma_trim_end_shape(b);
    assert(trim_start_spec(b) == b);
    assert(trim_end_spec(b) == b);
}

/// Trimming removes white space and nothing else: the result is `s` between
/// its first and its last character that is not white space (empty when there
/// is none), everything cut off before and after is white space, and a string
/// that neither starts nor ends with white space is its own trim.
pub proof fn law_trim_removes_only_outer_whitespace(s: Seq<char>)
    ensures
        exists|i: int, j: int|
            #![trigger s.subrange(i, j)]
            0 <= i <= j <= s.len() && trimmed(s) == s.subrange(i, j) && (forall|k: int|
                0 <= k < i ==> whitespace_char(#[trigger] s[k])) && (forall|k: int|
                j <= k < s.len() ==> whitespace_char(#[trigger] s[k])) && (i < j
                ==> !whitespace_char(s[i]) && !whitespace_char(s[j - 1])),
        s.len() > 0 && !whitespace_char(s[0]) && !whitespace_char(s.last()) ==> trimmed(s) == s,
{
    let a = trim_start_spec(s);
    lemma_trim_start_shape(s);
    let b = trim_end_spec(a);
    lemma_trim_end_shape(a);
    let i = s.len() - a.len();
    let j = i + b.len();
    assert(b =~= s.subrange(i, j));
    assert forall|k: int| j <= k < s.len() implies whitespace_char(#[trigger] s[k]) by {
        assert(s[k] == a[k - i]);
    }
    if i < j {
        assert(s[i] == b[0]);
        assert(b[0] == a[0]);
        assert(s[j - 1] == b[b.len() - 1]);
    }
    assert(0 <= i <= j <= s.len() && trimmed(s) == s.subrange(i, j));
    if s.len() > 0 && !whitespace_char(s[0]) && !whitespace_char(s.last()) {
        assert(i == 0);
        if j < s.len() {
            assert(whitespace_char(s[s.len() - 1]));
        }
        assert(s.subrange(0, s.len() as int) =~= s);
    }
}

/// Within ASCII, exactly `0` to `9` are numeric and exactly the space, tab,
/// line feed, vertical tab, form feed and carriage return are white space.
pub proof fn law_ascii_char_classes(c: char)
    requires
        (c as u32) < 128,
    ensures
        numeric_char(c) <==> (c == '0' || c == '1' || c == '2' || c == '3' || c == '4' || c == '5'
            || c == '6' || c == '7' || c == '8' || c == '9'),
        whitespace_char(c) <==> (c == ' ' || c == '\t' || c == '\n' || c == '\x0B' || c
            == '\x0C' || c == '\r'),
{
}

} // verus!
