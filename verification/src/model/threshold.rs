//! The share of rows that must satisfy a rule.
use crate::text::{append_char, append_chars, chars_of, digits_end, scan_digits};
use vstd::prelude::*;

verus! {

/// `w` without the zeros in front of it; the last digit always stays.
pub open spec fn trim_leading_zeros(w: Seq<char>) -> Seq<char>
    decreases w.len(),
{
    if w.len() > 1 && w[0] == '0' {
        trim_leading_zeros(w.drop_first())
    } else {
        w
    }
}

/// `f` without the zeros at its end.
pub open spec fn trim_trailing_zeros(f: Seq<char>) -> Seq<char>
    decreases f.len(),
{
    if f.len() > 0 && f.last() == '0' {
        trim_trailing_zeros(f.drop_last())
    } else {
        f
    }
}

/// The whole part and the fractional part of a literal made of one or more
/// digits, then, if anything follows, a point and any number of digits.
/// `None` for any other text.
pub open spec fn literal_parts(s: Seq<char>) -> Option<(Seq<char>, Seq<char>)> {
    let d = digits_end(s, 0);
    if d == 0 {
        None
    } else if d == s.len() {
        Some((s, Seq::empty()))
    } else if s[d] == '.' && digits_end(s, d + 1) == s.len() {
        Some((s.take(d), s.skip(d + 1)))
    } else {
        None
    }
}

/// The shortest numeral with the value of the literal `s`: no zeros in
/// front but the last, none at the end of the fraction, and no point where
/// no fraction is left. `None` where `s` is no literal.
pub open spec fn canonical(s: Seq<char>) -> Option<Seq<char>> {
    match literal_parts(s) {
        Some((w, f)) => {
            let t = trim_trailing_zeros(f);
            if t.len() == 0 {
                Some(trim_leading_zeros(w))
            } else {
                Some(trim_leading_zeros(w) + seq!['.'] + t)
            }
        },
        None => None,
    }
}

/// A threshold, held as the shortest decimal numeral of its value.
///
/// The numeral is exact: `0.5` and `0.50` are the same threshold and print
/// as `0.5`; the threshold one prints as `1`.
#[derive(Debug, PartialEq, Eq)]
pub struct Threshold {
    text: String,
}

impl View for Threshold {
    type V = Seq<char>;

    closed spec fn view(&self) -> Seq<char> {
        self.text@
    }
}

impl Threshold {
    /// The threshold that a rule has where none is written: every row.
    pub fn one() -> (r: Self)
        ensures
            r@ == "1"@,
    {
        Threshold { text: "1".to_owned() }
    }

    /// The threshold that the literal `s` stands for, if it is one.
    pub fn from_literal(s: &str) -> (r: Option<Self>)
        ensures
            match r {
                Some(t) => canonical(s@) == Some(t@),
                None => canonical(s@).is_none(),
            },
    {
        let cs = chars_of(s);
        let n = cs.len();
        let d = scan_digits(&cs, 0);
        if d == 0 {
            return None;
        }
        let mut e: usize = n;
        if d < n {
            if cs[d] != '.' {
                return None;
            }
            e = scan_digits(&cs, d + 1);
            if e != n {
                return None;
            }
        }
        let ghost w = if d == n { cs@ } else { cs@.take(d as int) };
        let ghost f = if d == n { Seq::<char>::empty() } else { cs@.skip(d + 1) };
        assert(literal_parts(cs@) == Some((w, f)));
        let mut start: usize = 0;
        assert(w.skip(0) == w);
        while start + 1 < d && cs[start] == '0'
            invariant
                start < d <= n,
                n == cs.len(),
                w.len() == d,
                forall|i: int| 0 <= i < d ==> w[i] == cs@[i],
                trim_leading_zeros(w) == trim_leading_zeros(w.skip(start as int)),
            decreases d - start,
        {
            assert(w.skip(start as int).drop_first() == w.skip(start + 1));
            start += 1;
        }
        assert(trim_leading_zeros(w) == w.skip(start as int));
        let mut fend: usize = n;
        assert(f.take(f.len() as int) == f);
        while d < n && fend > d + 1 && cs[fend - 1] == '0'
            invariant
                d <= n,
                n == cs.len(),
                d < n ==> d + 1 <= fend <= n,
                d < n ==> f.len() == n - d - 1,
                d == n ==> f.len() == 0,
                forall|i: int| 0 <= i < f.len() ==> f[i] == cs@[d + 1 + i],
                d < n ==> trim_trailing_zeros(f) == trim_trailing_zeros(f.take(fend - d - 1)),
            decreases fend,
        {
            assert(f.take(fend - d - 1).drop_last() == f.take(fend - d - 2));
            fend -= 1;
        }
        let mut text = String::new();
        append_chars(&mut text, &cs, start, d);
        assert(cs@.subrange(start as int, d as int) == w.skip(start as int));
        if d < n && fend > d + 1 {
            append_char(&mut text, '.');
            append_chars(&mut text, &cs, d + 1, fend);
            assert(cs@.subrange(d + 1, fend as int) == f.take(fend - d - 1));
            assert(trim_trailing_zeros(f) == f.take(fend - d - 1));
            assert(text@ == w.skip(start as int) + seq!['.'] + f.take(fend - d - 1));
        } else {
            assert(trim_trailing_zeros(f).len() == 0) by {
                if d < n {
                    assert(f.take(0).len() == 0);
                }
            }
        }
        Some(Threshold { text })
    }

    /// The numeral of the threshold.
    pub fn to_string(&self) -> (s: String)
        ensures
            s@ == self@,
    {
        self.text.clone()
    }
}

impl Default for Threshold {
    fn default() -> (r: Self)
        ensures
            r@ == "1"@,
    {
        Threshold::one()
    }
}

impl Clone for Threshold {
    fn clone(&self) -> (r: Self)
        ensures
            r@ == self@,
    {
        Threshold { text: self.text.clone() }
    }
}

} // verus!
