//! Reading numbers and lines out of text: the offsets the collectors store
//! as decimal text, and the lines of a history file.

use vstd::prelude::*;
use crate::text::{chars_of, slice_chars, string_of};

verus! {

/// A decimal digit.
pub open spec fn is_digit(c: char) -> bool {
    '0' <= c && c <= '9'
}

/// The value of a run of decimal digits.
pub open spec fn digits_value(d: Seq<char>) -> nat
    decreases d.len(),
{
    if d.len() == 0 {
        0
    } else {
        digits_value(d.drop_last()) * 10 + ((d.last() as nat) - ('0' as nat)) as nat
    }
}

/// A non-empty run of decimal digits.
pub open spec fn all_digits(d: Seq<char>) -> bool {
    d.len() > 0 && forall|i: int| 0 <= i < d.len() ==> is_digit(#[trigger] d[i])
}

/// `str::parse::<u64>`: an optional `+`, then decimal digits whose value
/// fits.
pub open spec fn parsed_u64(s: Seq<char>) -> Option<u64> {
    let d = if s.len() > 0 && s[0] == '+' { s.skip(1) } else { s };
    if all_digits(d) && digits_value(d) <= u64::MAX {
        Some(digits_value(d) as u64)
    } else {
        None
    }
}

/// `str::parse::<i64>`: an optional sign, then decimal digits whose signed
/// value fits.
pub open spec fn parsed_i64(s: Seq<char>) -> Option<i64> {
    let neg = s.len() > 0 && s[0] == '-';
    let d = if s.len() > 0 && (s[0] == '+' || s[0] == '-') { s.skip(1) } else { s };
    let v: int = if neg { -(digits_value(d) as int) } else { digits_value(d) as int };
    if all_digits(d) && i64::MIN <= v <= i64::MAX {
        Some(v as i64)
    } else {
        None
    }
}

proof fn lemma_digits_prefix(d: Seq<char>, i: int)
    requires
        0 <= i <= d.len(),
        forall|k: int| 0 <= k < d.len() ==> is_digit(#[trigger] d[k]),
    ensures
        digits_value(d.take(i)) <= digits_value(d),
    decreases d.len() - i,
{
    if i < d.len() {
        lemma_digits_prefix(d, i + 1);
        assert(d.take(i + 1).drop_last() =~= d.take(i));
        assert(is_digit(d[i]));
    } else {
        assert(d.take(i) =~= d);
    }
}

/// The value of the digits `d[start..]`, or `None` when one is not a digit,
/// there are none, or the value passes `limit`.
fn digits_up_to(d: &Vec<char>, start: usize, limit: u64) -> (r: Option<u64>)
    requires
        start <= d@.len(),
    ensures
        r matches Some(v) ==> all_digits(d@.skip(start as int)) && v == digits_value(d@.skip(start as int))
            && v <= limit,
        r is None ==> !(all_digits(d@.skip(start as int)) && digits_value(d@.skip(start as int)) <= limit),
{
    let ghost t = d@.skip(start as int);
    if start == d.len() {
        return None;
    }
    let mut v: u64 = 0;
    let mut i: usize = start;
    assert(t.take(0) =~= Seq::<char>::empty());
    while i < d.len()
        invariant
            start <= i <= d@.len(),
            t == d@.skip(start as int),
            forall|k: int| 0 <= k < i - start ==> is_digit(#[trigger] t[k]),
            v == digits_value(t.take(i - start)),
            v <= limit,
        decreases d@.len() - i,
    {
        let c = d[i];
        assert(t[i - start] == c);
        if !('0' <= c && c <= '9') {
            return None;
        }
        let digit: u64 = (c as u64) - 48;
        assert(t.take(i - start + 1).drop_last() =~= t.take(i - start));
        let next = match v.checked_mul(10) {
            Some(m) => m.checked_add(digit),
            None => None,
        };
        match next {
            Some(n) => {
                if n > limit {
                    proof {
                        assert forall|k: int| 0 <= k < i - start + 1 implies is_digit(#[trigger] t[k]) by {}
                        if all_digits(t) {
                            lemma_digits_prefix(t, i - start + 1);
                        }
                    }
                    return None;
                }
                v = n;
            },
            None => {
                proof {
                    if all_digits(t) {
                        lemma_digits_prefix(t, i - start + 1);
                    }
                }
                return None;
            },
        }
        i = i + 1;
    }
    assert(t.take(i - start) =~= t);
    Some(v)
}

/// `str::parse::<u64>` (see `parsed_u64`).
pub fn parse_u64(s: &str) -> (r: Option<u64>)
    ensures
        r == parsed_u64(s@),
{
    let d = chars_of(s);
    let start: usize = if d.len() > 0 && d[0] == '+' { 1 } else { 0 };
    assert(start == 0 ==> d@.skip(0) =~= d@);
    digits_up_to(&d, start, u64::MAX)
}

/// `str::parse::<i64>` (see `parsed_i64`).
pub fn parse_i64(s: &str) -> (r: Option<i64>)
    ensures
        r == parsed_i64(s@),
{
    let d = chars_of(s);
    let neg = d.len() > 0 && d[0] == '-';
    let start: usize = if d.len() > 0 && (d[0] == '+' || d[0] == '-') { 1 } else { 0 };
    assert(start == 0 ==> d@.skip(0) =~= d@);
    if neg {
        match digits_up_to(&d, start, 9_223_372_036_854_775_808u64) {
            Some(v) => {
                if v == 9_223_372_036_854_775_808u64 {
                    Some(i64::MIN)
                } else {
                    Some(-(v as i64))
                }
            },
            None => None,
        }
    } else {
        match digits_up_to(&d, start, 9_223_372_036_854_775_807u64) {
            Some(v) => Some(v as i64),
            None => None,
        }
    }
}

/// The position of the first line feed in `s`, if any.
pub open spec fn first_newline(s: Seq<char>) -> Option<int>
    decreases s.len(),
{
    if s.len() == 0 {
        None
    } else if s[0] == '\n' {
        Some(0)
    } else {
        match first_newline(s.drop_first()) {
            Some(i) => Some(i + 1),
            None => None,
        }
    }
}

/// `first_newline` finds the first line feed, and only when there is one.
pub proof fn lemma_first_newline(s: Seq<char>)
    ensures
        match first_newline(s) {
            Some(i) => 0 <= i < s.len() && s[i] == '\n' && forall|j: int| 0 <= j < i ==> s[j] != '\n',
            None => forall|j: int| 0 <= j < s.len() ==> s[j] != '\n',
        },
    decreases s.len(),
{
    if s.len() > 0 && s[0] != '\n' {
        lemma_first_newline(s.drop_first());
        let t = s.drop_first();
        assert forall|j: int| 1 <= j < s.len() implies s[j] == t[j - 1] by {}
    }
}

/// A line without the carriage return of a `\r\n` ending.
pub open spec fn strip_cr(line: Seq<char>) -> Seq<char> {
    if line.len() > 0 && line.last() == '\r' {
        line.drop_last()
    } else {
        line
    }
}

/// `str::lines`: the text split at each `\n` (a `\r` just before it goes
/// too); a final line ending adds no empty line.
pub open spec fn text_lines(s: Seq<char>) -> Seq<Seq<char>>
    decreases s.len(),
{
    if s.len() == 0 {
        Seq::empty()
    } else {
        match first_newline(s) {
            Some(i) => {
                proof {
                    lemma_first_newline(s);
                }
                seq![strip_cr(s.take(i))] + text_lines(s.skip(i + 1))
            },
            None => seq![s],
        }
    }
}

fn newline_at(v: &Vec<char>) -> (r: Option<usize>)
    ensures
        match r {
            Some(i) => first_newline(v@) == Some(i as int),
            None => first_newline(v@) is None,
        },
{
    let mut i: usize = 0;
    while i < v.len()
        invariant
            i <= v@.len(),
            forall|j: int| 0 <= j < i ==> v@[j] != '\n',
        decreases v@.len() - i,
    {
        if v[i] == '\n' {
            proof {
                lemma_first_newline(v@);
                match first_newline(v@) {
                    Some(k) => {
                        if k > i {
                            assert(v@[i as int] == '\n');
                        }
                    },
                    None => {
                        assert(v@[i as int] == '\n');
                    },
                }
            }
            return Some(i);
        }
        i = i + 1;
    }
    proof {
        lemma_first_newline(v@);
    }
    None
}

/// The lines of a text (see `text_lines`).
pub fn lines_of(s: &str) -> (r: Vec<String>)
    ensures
        r@.len() == text_lines(s@).len(),
        forall|i: int| 0 <= i < r@.len() ==> (#[trigger] r@[i])@ == text_lines(s@)[i],
{
    let mut rest = chars_of(s);
    let mut out: Vec<String> = Vec::new();
    let ghost done: Seq<Seq<char>> = Seq::empty();
    while rest.len() > 0
        invariant
            out@.len() == done.len(),
            forall|i: int| 0 <= i < out@.len() ==> (#[trigger] out@[i])@ == done[i],
            done + text_lines(rest@) == text_lines(s@),
        decreases rest@.len(),
    {
        let found = newline_at(&rest);
        proof {
            lemma_first_newline(rest@);
        }
        match found {
            Some(i) => {
                let end: usize = if i > 0 && rest[i - 1] == '\r' { i - 1 } else { i };
                let line = slice_chars(&rest, 0, end);
                assert(line@ =~= strip_cr(rest@.take(i as int)));
                let next = slice_chars(&rest, i + 1, rest.len());
                assert(next@ =~= rest@.skip(i + 1));
                proof {
                    done = done.push(line@);
                }
                out.push(string_of(&line));
                rest = next;
            },
            None => {
                proof {
                    done = done.push(rest@);
                }
                out.push(string_of(&rest));
                rest = Vec::new();
            },
        }
    }
    assert(done + text_lines(rest@) =~= done);
    out
}

/// The text a byte string stands for, as `String::from_utf8_lossy`
/// decodes it (an invalid sequence becomes U+FFFD).
pub uninterp spec fn lossy_text(bytes: Seq<u8>) -> Seq<char>;

/// `String::from_utf8_lossy`: its result is named `lossy_text` of the
/// bytes.
#[verifier::external_body]
pub(crate) fn utf8_lossy(bytes: &[u8]) -> (s: String)
    ensures
        s@ == lossy_text(bytes@),
{
    String::from_utf8_lossy(bytes).into_owned()
}


/// The position of the first `c` in `s`, if any.
pub open spec fn first_of(s: Seq<char>, c: char) -> Option<int>
    decreases s.len(),
{
    if s.len() == 0 {
        None
    } else if s[0] == c {
        Some(0)
    } else {
        match first_of(s.drop_first(), c) {
            Some(i) => Some(i + 1),
            None => None,
        }
    }
}

/// `first_of` finds the first `c`, and only when there is one.
pub proof fn lemma_first_of(s: Seq<char>, c: char)
    ensures
        match first_of(s, c) {
            Some(i) => 0 <= i < s.len() && s[i] == c && forall|j: int| 0 <= j < i ==> s[j] != c,
            None => forall|j: int| 0 <= j < s.len() ==> s[j] != c,
        },
    decreases s.len(),
{
    if s.len() > 0 && s[0] != c {
        lemma_first_of(s.drop_first(), c);
        let t = s.drop_first();
        assert forall|j: int| 1 <= j < s.len() implies s[j] == t[j - 1] by {}
    }
}

/// `str::split` with a one-character separator: the pieces between the
/// separators, empty ones included.
pub open spec fn split_on(s: Seq<char>, c: char) -> Seq<Seq<char>>
    decreases s.len(),
{
    match first_of(s, c) {
        Some(i) => {
            proof {
                lemma_first_of(s, c);
            }
            seq![s.take(i)] + split_on(s.skip(i + 1), c)
        },
        None => seq![s],
    }
}

/// Pieces joined with a one-character separator (`join`).
pub open spec fn join_on(pieces: Seq<Seq<char>>, c: char) -> Seq<char>
    decreases pieces.len(),
{
    if pieces.len() == 0 {
        Seq::empty()
    } else if pieces.len() == 1 {
        pieces[0]
    } else {
        pieces[0] + seq![c] + join_on(pieces.drop_first(), c)
    }
}

/// Splitting undoes joining, for at least one piece and pieces that do not
/// hold the separator.
pub proof fn lemma_split_join(pieces: Seq<Seq<char>>, c: char)
    requires
        pieces.len() > 0,
        forall|i: int| 0 <= i < pieces.len() ==> !(#[trigger] pieces[i]).contains(c),
    ensures
        split_on(join_on(pieces, c), c) == pieces,
    decreases pieces.len(),
{
    let p0 = pieces[0];
    if pieces.len() == 1 {
        lemma_first_of(p0, c);
        if first_of(p0, c) is Some {
            let i = first_of(p0, c)->0;
            assert(p0.contains(c)) by {
                assert(p0[i] == c);
            }
        }
        assert(split_on(p0, c) =~= seq![p0]);
    } else {
        let rest = pieces.drop_first();
        assert forall|i: int| 0 <= i < rest.len() implies !(#[trigger] rest[i]).contains(c) by {
            assert(rest[i] == pieces[i + 1]);
        }
        lemma_split_join(rest, c);
        let s = join_on(pieces, c);
        assert(s == p0 + seq![c] + join_on(rest, c));
        lemma_first_of(s, c);
        assert(s[p0.len() as int] == c);
        assert forall|j: int| 0 <= j < p0.len() implies s[j] != c by {
            assert(s[j] == p0[j]);
            if s[j] == c {
                assert(p0.contains(c));
            }
        }
        let i = first_of(s, c)->0;
        assert(i == p0.len());
        assert(s.take(i) =~= p0);
        assert(s.skip(i + 1) =~= join_on(rest, c));
        assert(split_on(s, c) =~= seq![p0] + rest);
        assert(seq![p0] + rest =~= pieces);
    }
}

/// Pieces joined with a separator (see `join_on`).
pub fn join_with(pieces: &Vec<String>, c: char) -> (r: String)
    ensures
        r@ == join_on(Seq::new(pieces@.len(), |i: int| pieces@[i]@), c),
{
    let ghost pv = Seq::new(pieces@.len(), |i: int| pieces@[i]@);
    let mut v: Vec<char> = Vec::new();
    if pieces.len() == 0 {
        return string_of(&v);
    }
    let mut i: usize = pieces.len();
    let last = chars_of(pieces[i - 1].as_str());
    crate::text::push_chars(&mut v, &last);
    assert(pv.skip(i - 1) =~= seq![pv[i - 1]]);
    while i > 1
        invariant
            1 <= i <= pieces@.len(),
            pv == Seq::new(pieces@.len(), |i: int| pieces@[i]@),
            v@ == join_on(pv.skip(i - 1), c),
        decreases i,
    {
        let mut w = chars_of(pieces[i - 2].as_str());
        w.push(c);
        crate::text::push_chars(&mut w, &v);
        v = w;
        proof {
            let t = pv.skip(i - 2);
            assert(t.drop_first() =~= pv.skip(i - 1));
            assert(t[0] == pv[i - 2]);
        }
        i = i - 1;
    }
    assert(pv.skip(0) =~= pv);
    string_of(&v)
}

/// The pieces of a text between separators (see `split_on`).
pub fn split_with(s: &str, c: char) -> (r: Vec<String>)
    ensures
        r@.len() == split_on(s@, c).len(),
        forall|i: int| 0 <= i < r@.len() ==> (#[trigger] r@[i])@ == split_on(s@, c)[i],
{
    let mut rest = chars_of(s);
    let mut out: Vec<String> = Vec::new();
    let ghost mut done: Seq<Seq<char>> = Seq::empty();
    loop
        invariant
            out@.len() == done.len(),
            forall|i: int| 0 <= i < out@.len() ==> (#[trigger] out@[i])@ == done[i],
            done + split_on(rest@, c) == split_on(s@, c),
        decreases rest@.len(),
    {
        let mut i: usize = 0;
        while i < rest.len() && rest[i] != c
            invariant
                i <= rest@.len(),
                forall|j: int| 0 <= j < i ==> rest@[j] != c,
            decreases rest@.len() - i,
        {
            i = i + 1;
        }
        proof {
            lemma_first_of(rest@, c);
        }
        if i == rest.len() {
            proof {
                if first_of(rest@, c) is Some {
                    let k = first_of(rest@, c)->0;
                    assert(rest@[k] == c);
                }
                done = done.push(rest@);
            }
            out.push(string_of(&rest));
            assert(done =~= split_on(s@, c));
            return out;
        }
        proof {
            let k = first_of(rest@, c)->0;
            if k < i {
                assert(rest@[k] != c);
            }
            if k > i {
                assert(rest@[i as int] == c);
            }
        }
        let piece = slice_chars(&rest, 0, i);
        let next = slice_chars(&rest, i + 1, rest.len());
        assert(piece@ =~= rest@.take(i as int));
        assert(next@ =~= rest@.skip(i + 1));
        proof {
            done = done.push(piece@);
        }
        out.push(string_of(&piece));
        rest = next;
    }
}

} // verus!
