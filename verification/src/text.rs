//! Positions in the source text, and the conversions from source bytes to
//! the strings and numbers held by the tree.
use vstd::prelude::*;
use crate::grammar::is_digit;

verus! {

/// The line and column reached after the bytes `t`, both starting at 1.
///
/// A carriage return, a line feed, and a carriage return directly followed
/// by a line feed each end a line; every other character (counted once,
/// however many bytes its UTF-8 encoding takes) moves one column on.
pub open spec fn line_col(t: Seq<u8>) -> (int, int)
    decreases t.len(),
{
    if t.len() == 0 {
        (1, 1)
    } else {
        let prev = t.drop_last();
        let lc = line_col(prev);
        let b = t.last();
        if b == 13u8 {
            (lc.0 + 1, 1)
        } else if b == 10u8 {
            if prev.len() > 0 && prev.last() == 13u8 {
                lc
            } else {
                (lc.0 + 1, 1)
            }
        } else if 128u8 <= b < 192u8 {
            lc
        } else {
            (lc.0, lc.1 + 1)
        }
    }
}

/// Lines and columns start at 1, and together grow by at most one per byte.
pub proof fn lemma_line_col_bounds(t: Seq<u8>)
    ensures
        line_col(t).0 >= 1,
        line_col(t).1 >= 1,
        line_col(t).0 + line_col(t).1 <= t.len() + 2,
    decreases t.len(),
{
    if t.len() > 0 {
        lemma_line_col_bounds(t.drop_last());
    }
}

/// `a` does not come after `b`: an earlier line, or the same line and a
/// column that is not greater.
pub open spec fn lc_le(a: (int, int), b: (int, int)) -> bool {
    a.0 < b.0 || (a.0 == b.0 && a.1 <= b.1)
}

/// `a` comes before `b`.
pub open spec fn lc_lt(a: (int, int), b: (int, int)) -> bool {
    a.0 < b.0 || (a.0 == b.0 && a.1 < b.1)
}

/// Reading more bytes never moves the line and column back.
pub proof fn lemma_line_col_monotone(s: Seq<u8>, p: int, q: int)
    requires
        0 <= p <= q <= s.len(),
    ensures
        lc_le(line_col(s.take(p)), line_col(s.take(q))),
    decreases q - p,
{
    if p < q {
        lemma_line_col_monotone(s, p, q - 1);
        assert(s.take(q).drop_last() =~= s.take(q - 1));
    }
}

/// Reading an ASCII byte other than a line feed moves the line and column on.
pub proof fn lemma_line_col_step(s: Seq<u8>, p: int)
    requires
        0 <= p < s.len(),
        s[p] < 128u8,
        s[p] != 10u8,
    ensures
        lc_lt(line_col(s.take(p)), line_col(s.take(p + 1))),
{
    assert(s.take(p + 1).drop_last() =~= s.take(p));
    assert(s.take(p + 1).last() == s[p]);
}

/// The line and column of byte position `p` of `s`.
pub fn line_col_exec(s: &Vec<u8>, p: usize) -> (r: (usize, usize))
    requires
        p < s@.len(),
    ensures
        r.0 == line_col(s@.take(p as int)).0,
        r.1 == line_col(s@.take(p as int)).1,
{
    let slen = s.len();
    let mut line: usize = 1;
    let mut col: usize = 1;
    let mut i: usize = 0;
    assert(s@.take(0) =~= Seq::<u8>::empty());
    while i < p
        invariant
            slen == s@.len(),
            p < slen,
            0 <= i <= p,
            line == line_col(s@.take(i as int)).0,
            col == line_col(s@.take(i as int)).1,
        decreases p - i,
    {
        proof {
            lemma_line_col_bounds(s@.take(i as int));
            assert(s@.take(i + 1).drop_last() =~= s@.take(i as int));
        }
        let b = s[i];
        if b == 13u8 {
            line = line + 1;
            col = 1;
        } else if b == 10u8 {
            if i > 0 && s[i - 1] == 13u8 {
            } else {
                line = line + 1;
                col = 1;
            }
        } else if 128u8 <= b && b < 192u8 {
        } else {
            col = col + 1;
        }
        i = i + 1;
    }
    (line, col)
}

/// The characters of ASCII bytes.
pub open spec fn ascii_chars(b: Seq<u8>) -> Seq<char> {
    Seq::new(b.len(), |i: int| b[i] as char)
}

/// Appends a character to a string with std's `String::push`. Trusted, not
/// proved: the string's characters afterwards are the old ones followed by `c`,
/// as std documents.
#[verifier::external_body]
pub(crate) fn push_char(s: &mut String, c: char)
    ensures
        final(s)@ == old(s)@.push(c),
{
    s.push(c);
}

/// Appends a string slice to a string with std's `String::push_str`. Trusted,
/// not proved: the string's characters afterwards are the old ones followed by
/// those of `t`, as std documents.
#[verifier::external_body]
pub(crate) fn push_str(s: &mut String, t: &str)
    ensures
        final(s)@ == old(s)@ + t@,
{
    s.push_str(t);
}

/// The string made of the bytes `start..end` of `s`, each taken as a character.
pub fn ascii_string(s: &Vec<u8>, start: usize, end: usize) -> (r: String)
    requires
        start <= end <= s@.len(),
    ensures
        r@ == ascii_chars(s@.subrange(start as int, end as int)),
{
    let mut r = String::new();
    let mut i = start;
    while i < end
        invariant
            start <= i <= end <= s@.len(),
            r@ =~= ascii_chars(s@.subrange(start as int, i as int)),
        decreases end - i,
    {
        let c = s[i] as char;
        push_char(&mut r, c);
        i = i + 1;
        assert(r@ =~= ascii_chars(s@.subrange(start as int, i as int)));
    }
    r
}

/// The value of a run of decimal digits.
pub open spec fn digits_value(t: Seq<u8>) -> int
    decreases t.len(),
{
    if t.len() == 0 {
        0
    } else {
        digits_value(t.drop_last()) * 10 + (t.last() - 48)
    }
}

pub open spec fn all_digits(t: Seq<u8>) -> bool {
    forall|i: int| 0 <= i < t.len() ==> is_digit(#[trigger] t[i])
}

pub proof fn lemma_digits_value_prefix(t: Seq<u8>, i: int)
    requires
        all_digits(t),
        0 <= i <= t.len(),
    ensures
        0 <= digits_value(t.take(i)) <= digits_value(t),
    decreases t.len(),
{
    if i == t.len() {
        assert(t.take(i) =~= t);
        lemma_digits_value_nonneg(t);
    } else {
        let d = t.drop_last();
        assert(all_digits(d));
        lemma_digits_value_prefix(d, i);
        assert(d.take(i) =~= t.take(i));
        lemma_digits_value_nonneg(d);
        assert(is_digit(t[t.len() - 1]));
    }
}

proof fn lemma_digits_value_nonneg(t: Seq<u8>)
    requires
        all_digits(t),
    ensures
        digits_value(t) >= 0,
    decreases t.len(),
{
    if t.len() > 0 {
        let d = t.drop_last();
        assert(all_digits(d));
        lemma_digits_value_nonneg(d);
        assert(is_digit(t[t.len() - 1]));
    }
}

/// The value of the digits `start..end` of `s`, which fits in an `i32`.
pub fn digits_value_exec(s: &Vec<u8>, start: usize, end: usize) -> (r: i32)
    requires
        start <= end <= s@.len(),
        all_digits(s@.subrange(start as int, end as int)),
        digits_value(s@.subrange(start as int, end as int)) <= i32::MAX,
    ensures
        r == digits_value(s@.subrange(start as int, end as int)),
{
    let ghost t = s@.subrange(start as int, end as int);
    let mut v: i32 = 0;
    let mut i = start;
    assert(t.take(0) =~= Seq::<u8>::empty());
    while i < end
        invariant
            start <= i <= end <= s@.len(),
            t == s@.subrange(start as int, end as int),
            all_digits(t),
            digits_value(t) <= i32::MAX,
            v == digits_value(t.take(i - start)),
        decreases end - i,
    {
        proof {
            lemma_digits_value_prefix(t, i - start + 1);
            assert(t.take(i - start + 1).drop_last() =~= t.take(i - start));
            assert(t[i - start] == s@[i as int]);
            assert(is_digit(t[i - start]));
        }
        let d = s[i] - 48u8;
        v = v * 10 + d as i32;
        i = i + 1;
    }
    assert(t.take(end - start) =~= t);
    v
}

/// Whether the digits `start..end` of `s` have a value that fits in an `i32`.
pub fn digits_fit_i32(s: &Vec<u8>, start: usize, end: usize) -> (b: bool)
    requires
        start <= end <= s@.len(),
        all_digits(s@.subrange(start as int, end as int)),
    ensures
        b == (digits_value(s@.subrange(start as int, end as int)) <= i32::MAX),
{
    let ghost t = s@.subrange(start as int, end as int);
    let mut v: i64 = 0;
    let mut i = start;
    assert(t.take(0) =~= Seq::<u8>::empty());
    while i < end
        invariant
            start <= i <= end <= s@.len(),
            t == s@.subrange(start as int, end as int),
            all_digits(t),
            v == digits_value(t.take(i - start)),
            0 <= v <= i32::MAX,
        decreases end - i,
    {
        proof {
            lemma_digits_value_prefix(t, i - start + 1);
            assert(t.take(i - start + 1).drop_last() =~= t.take(i - start));
            assert(t[i - start] == s@[i as int]);
            assert(is_digit(t[i - start]));
        }
        let d = s[i] - 48u8;
        v = v * 10 + d as i64;
        i = i + 1;
        if v > 2147483647i64 {
            proof {
                lemma_digits_value_prefix(t, i - start);
            }
            return false;
        }
    }
    assert(t.take(end - start) =~= t);
    true
}

/// The decimal digit character for `d < 10`.
pub open spec fn digit_char(d: int) -> char {
    (48 + d) as char
}

/// The decimal notation of `n`.
pub open spec fn decimal(n: nat) -> Seq<char>
    decreases n,
{
    if n < 10 {
        seq![digit_char(n as int)]
    } else {
        decimal(n / 10).push(digit_char((n % 10) as int))
    }
}

/// Appends the decimal notation of `n`.
pub fn push_decimal(out: &mut String, n: usize)
    ensures
        final(out)@ == old(out)@ + decimal(n as nat),
    decreases n,
{
    if n >= 10 {
        push_decimal(out, n / 10);
    }
    let d: u8 = (n % 10) as u8;
    let c = (48u8 + d) as char;
    push_char(out, c);
    assert(final(out)@ =~= old(out)@ + decimal(n as nat));
}

} // verus!
