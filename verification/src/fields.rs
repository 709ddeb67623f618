use vstd::prelude::*;

use crate::text::ascii_whitespace;

verus! {

/// Whether `c` is one of the angle brackets that frame a serial line.
pub open spec fn is_bracket(c: char) -> bool {
    c == '<' || c == '>'
}

/// The line with every `<` and `>` removed.
pub open spec fn strip_brackets(s: Seq<char>) -> Seq<char> {
    s.filter(|c: char| !is_bracket(c))
}

/// Reading `s` from the left: the fields already ended by white space, and the
/// field still being read.
pub open spec fn split_fields(s: Seq<char>) -> (Seq<Seq<char>>, Seq<char>)
    decreases s.len(),
{
    if s.len() == 0 {
        (Seq::empty(), Seq::empty())
    } else {
        let (done, cur) = split_fields(s.drop_last());
        if ascii_whitespace(s.last()) {
            if cur.len() > 0 {
                (done.push(cur), Seq::empty())
            } else {
                (done, Seq::empty())
            }
        } else {
            (done, cur.push(s.last()))
        }
    }
}

/// The maximal runs of characters in `s` that hold no ASCII white space, in
/// order: `s` split at ASCII white space, with empty pieces dropped.
pub open spec fn fields(s: Seq<char>) -> Seq<Seq<char>> {
    let (done, cur) = split_fields(s);
    if cur.len() > 0 {
        done.push(cur)
    } else {
        done
    }
}

/// Holds no ASCII white space.
pub open spec fn no_whitespace(s: Seq<char>) -> bool {
    forall|i: int| 0 <= i < s.len() ==> !ascii_whitespace(#[trigger] s[i])
}

/// Dropping a bracket leaves the stripped line as it was; any other character is
/// kept at its end.
pub proof fn lemma_strip_brackets_push(s: Seq<char>, c: char)
    ensures
        strip_brackets(s.push(c)) == (if is_bracket(c) {
            strip_brackets(s)
        } else {
            strip_brackets(s).push(c)
        }),
{
    s.lemma_filter_push(c, |c: char| !is_bracket(c));
}

/// Every field is non-empty and holds no white space; so is the field being read,
/// apart from being possibly empty.
pub proof fn lemma_split_fields_words(s: Seq<char>)
    ensures
        forall|k: int|
            0 <= k < split_fields(s).0.len() ==> (#[trigger] split_fields(s).0[k]).len() > 0
                && no_whitespace(split_fields(s).0[k]),
        no_whitespace(split_fields(s).1),
    decreases s.len(),
{
    if s.len() > 0 {
        lemma_split_fields_words(s.drop_last());
        let (done, cur) = split_fields(s.drop_last());
        if !ascii_whitespace(s.last()) {
            let next = cur.push(s.last());
            assert forall|i: int| 0 <= i < next.len() implies !ascii_whitespace(
                #[trigger] next[i],
            ) by {
                if i < cur.len() {
                    assert(next[i] == cur[i]);
                }
            }
        } else if cur.len() > 0 {
            let d2 = done.push(cur);
            assert forall|k: int| 0 <= k < d2.len() implies (#[trigger] d2[k]).len() > 0
                && no_whitespace(d2[k]) by {
                if k < done.len() {
                    assert(d2[k] == done[k]);
                }
            }
        }
    }
}

/// Every field of a line is non-empty and holds no ASCII white space.
pub proof fn law_fields_are_words(s: Seq<char>)
    ensures
        forall|k: int|
            0 <= k < fields(s).len() ==> (#[trigger] fields(s)[k]).len() > 0 && no_whitespace(
                fields(s)[k],
            ),
{
    lemma_split_fields_words(s);
    let (done, cur) = split_fields(s);
    if cur.len() > 0 {
        let f = done.push(cur);
        assert forall|k: int| 0 <= k < f.len() implies (#[trigger] f[k]).len() > 0
            && no_whitespace(f[k]) by {
            if k < done.len() {
                assert(f[k] == done[k]);
            }
        }
    }
}

/// Holds no angle bracket.
pub open spec fn no_brackets(s: Seq<char>) -> bool {
    forall|i: int| 0 <= i < s.len() ==> !is_bracket(#[trigger] s[i])
}

/// Stripping a line without brackets leaves it as it is.
pub proof fn lemma_strip_without_brackets(s: Seq<char>)
    requires
        no_brackets(s),
    ensures
        strip_brackets(s) == s,
    decreases s.len(),
{
    if s.len() == 0 {
        reveal(Seq::filter);
    } else {
        let p = s.drop_last();
        assert(no_brackets(p)) by {
            assert forall|i: int| 0 <= i < p.len() implies !is_bracket(#[trigger] p[i]) by {
                assert(p[i] == s[i]);
            }
        }
        lemma_strip_without_brackets(p);
        assert(!is_bracket(s[s.len() - 1]));
        lemma_strip_brackets_push(p, s.last());
        assert(p.push(s.last()) =~= s);
    }
}

/// A line framed by `<` and `>` around a bracket-free middle strips to that
/// middle.
pub proof fn lemma_strip_framed(mid: Seq<char>)
    requires
        no_brackets(mid),
    ensures
        strip_brackets(seq!['<'] + mid + seq!['>']) == mid,
{
    let pred = |c: char| !is_bracket(c);
    reveal(Seq::filter);
    let e = Seq::<char>::empty();
    assert(strip_brackets(e) == e);
    assert(seq!['<'] =~= e.push('<'));
    assert(seq!['>'] =~= e.push('>'));
    lemma_strip_brackets_push(e, '<');
    lemma_strip_brackets_push(e, '>');
    assert(strip_brackets(seq!['<']) =~= Seq::<char>::empty());
    assert(strip_brackets(seq!['>']) =~= Seq::<char>::empty());
    Seq::filter_distributes_over_add(seq!['<'], mid, pred);
    Seq::filter_distributes_over_add(seq!['<'] + mid, seq!['>'], pred);
    lemma_strip_without_brackets(mid);
    assert(Seq::<char>::empty() + mid =~= mid);
    assert(mid + Seq::<char>::empty() =~= mid);
}

/// Reading on through characters that are not white space extends the field
/// being read and closes no field.
pub proof fn lemma_split_fields_extend(a: Seq<char>, w: Seq<char>)
    requires
        no_whitespace(w),
    ensures
        split_fields(a + w) == (split_fields(a).0, split_fields(a).1 + w),
    decreases w.len(),
{
    if w.len() == 0 {
        assert(a + w =~= a);
        assert(split_fields(a).1 + w =~= split_fields(a).1);
    } else {
        let wp = w.drop_last();
        assert(no_whitespace(wp)) by {
            assert forall|i: int| 0 <= i < wp.len() implies !ascii_whitespace(#[trigger] wp[i]) by {
                assert(wp[i] == w[i]);
            }
        }
        lemma_split_fields_extend(a, wp);
        assert((a + w).drop_last() =~= a + wp);
        assert((a + w).last() == w.last());
        assert(!ascii_whitespace(w[w.len() - 1]));
        assert((split_fields(a).1 + wp).push(w.last()) =~= split_fields(a).1 + w);
    }
}

/// Two words separated by one space are the two fields of the line.
pub proof fn lemma_fields_of_two_words(f1: Seq<char>, f2: Seq<char>)
    requires
        f1.len() > 0,
        f2.len() > 0,
        no_whitespace(f1),
        no_whitespace(f2),
    ensures
        fields(f1 + seq![' '] + f2) == seq![f1, f2],
{
    let e = Seq::<char>::empty();
    lemma_split_fields_extend(e, f1);
    assert(e + f1 =~= f1);
    assert(split_fields(e) == (Seq::<Seq<char>>::empty(), e));
    assert(e + f1 =~= f1);
    let a = f1 + seq![' '];
    assert(a.drop_last() =~= f1);
    assert(a.last() == ' ');
    assert(split_fields(a) == (Seq::<Seq<char>>::empty().push(f1), e));
    lemma_split_fields_extend(a, f2);
    assert(e + f2 =~= f2);
    assert(Seq::<Seq<char>>::empty().push(f1).push(f2) =~= seq![f1, f2]);
}

/// Two bracket-free strings one after the other are bracket-free.
pub proof fn lemma_no_brackets_concat(a: Seq<char>, b: Seq<char>)
    requires
        no_brackets(a),
        no_brackets(b),
    ensures
        no_brackets(a + b),
{
    assert forall|i: int| 0 <= i < (a + b).len() implies !is_bracket(#[trigger] (a + b)[i]) by {
        if i < a.len() {
            assert((a + b)[i] == a[i]);
        } else {
            assert((a + b)[i] == b[i - a.len()]);
        }
    }
}

/// Two strings without white space, one after the other, have no white space.
pub proof fn lemma_no_whitespace_concat(a: Seq<char>, b: Seq<char>)
    requires
        no_whitespace(a),
        no_whitespace(b),
    ensures
        no_whitespace(a + b),
{
    assert forall|i: int| 0 <= i < (a + b).len() implies !ascii_whitespace(
        #[trigger] (a + b)[i],
    ) by {
        if i < a.len() {
            assert((a + b)[i] == a[i]);
        } else {
            assert((a + b)[i] == b[i - a.len()]);
        }
    }
}

/// Stripping removes every bracket.
pub proof fn lemma_strip_removes_brackets(s: Seq<char>)
    ensures
        no_brackets(strip_brackets(s)),
{
    let pred = |c: char| !is_bracket(c);
    let t = strip_brackets(s);
    assert forall|i: int| 0 <= i < t.len() implies !is_bracket(#[trigger] t[i]) by {
        s.lemma_filter_pred(pred, i);
    }
}

/// Stripping twice is stripping once.
pub proof fn lemma_strip_idempotent(s: Seq<char>)
    ensures
        strip_brackets(strip_brackets(s)) == strip_brackets(s),
{
    lemma_strip_removes_brackets(s);
    lemma_strip_without_brackets(strip_brackets(s));
}

/// Stripping a line followed by bracket-free text strips the line and keeps the
/// text.
pub proof fn lemma_strip_append_plain(s: Seq<char>, t: Seq<char>)
    requires
        no_brackets(t),
    ensures
        strip_brackets(s + t) == strip_brackets(s) + t,
{
    Seq::filter_distributes_over_add(s, t, |c: char| !is_bracket(c));
    lemma_strip_without_brackets(t);
}

/// A space and then a word after a line add that word as its last field.
pub proof fn lemma_fields_append_word(a: Seq<char>, w: Seq<char>)
    requires
        w.len() > 0,
        no_whitespace(w),
    ensures
        fields(a + seq![' '] + w) == fields(a).push(w),
{
    let b = a + seq![' '];
    assert(b.drop_last() =~= a);
    assert(b.last() == ' ');
    assert(split_fields(b) == (fields(a), Seq::<char>::empty()));
    lemma_split_fields_extend(b, w);
    assert(Seq::<char>::empty() + w =~= w);
}

/// Fields are separated by the space, tab, line feed, form feed and carriage
/// return, and by nothing else: two words joined by one of these are two
/// fields, and joined by any other character they are one field. Angle brackets
/// are dropped and nothing else is: a single character strips to nothing
/// exactly when it is `<` or `>`.
pub proof fn law_field_separators(f1: Seq<char>, f2: Seq<char>, c: char)
    requires
        f1.len() > 0,
        f2.len() > 0,
        no_whitespace(f1),
        no_whitespace(f2),
    ensures
        (c == ' ' || c == '\t' || c == '\n' || c == '\x0C' || c == '\r') ==> fields(
            f1 + seq![c] + f2,
        ) == seq![f1, f2],
        !(c == ' ' || c == '\t' || c == '\n' || c == '\x0C' || c == '\r') ==> fields(
            f1 + seq![c] + f2,
        ) == seq![f1 + seq![c] + f2],
        strip_brackets(seq![c]) == (if c == '<' || c == '>' {
            Seq::<char>::empty()
        } else {
            seq![c]
        }),
{
    let e = Seq::<char>::empty();
    reveal(Seq::filter);
    assert(strip_brackets(e) == e);
    assert(seq![c] =~= e.push(c));
    lemma_strip_brackets_push(e, c);
    lemma_split_fields_extend(e, f1);
    assert(e + f1 =~= f1);
    let a = f1 + seq![c];
    assert(a.drop_last() =~= f1);
    assert(a.last() == c);
    if ascii_whitespace(c) {
        assert(split_fields(a) == (Seq::<Seq<char>>::empty().push(f1), e));
        lemma_split_fields_extend(a, f2);
        assert(e + f2 =~= f2);
        assert(Seq::<Seq<char>>::empty().push(f1).push(f2) =~= seq![f1, f2]);
    } else {
        let w = seq![c] + f2;
        assert(no_whitespace(w)) by {
            assert forall|i: int| 0 <= i < w.len() implies !ascii_whitespace(#[trigger] w[i]) by {
                if i > 0 {
                    assert(w[i] == f2[i - 1]);
                }
            }
        }
        assert(f1 + w =~= f1 + seq![c] + f2);
        assert(f1 + w =~= e + (f1 + w));
        lemma_split_fields_extend(e, f1 + w);
        assert(e + (f1 + w) =~= f1 + w);
        assert(Seq::<Seq<char>>::empty().push(f1 + w) =~= seq![f1 + seq![c] + f2]);
    }
}

} // verus!
