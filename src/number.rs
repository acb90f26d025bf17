//! Numeric text: integers as `str::parse` reads them, and floating-point
//! literals, which the library keeps as checked text.
use vstd::prelude::*;
use crate::text::{find_char, lemma_find_char};

verus! {

pub open spec fn is_digit(c: char) -> bool {
    48 <= (c as u32) <= 57
}

pub open spec fn all_digits(s: Seq<char>) -> bool {
    forall|i: int| 0 <= i < s.len() ==> is_digit(#[trigger] s[i])
}

pub open spec fn digits_value(s: Seq<char>) -> int
    decreases s.len(),
{
    if s.len() == 0 {
        0
    } else {
        digits_value(s.drop_last()) * 10 + (s.last() as u32 - 48)
    }
}

/// One or more ASCII digits, read in base ten.
pub open spec fn unsigned_value(d: Seq<char>) -> Option<int> {
    if d.len() > 0 && all_digits(d) {
        Some(digits_value(d))
    } else {
        None
    }
}

/// The integer that `s` spells: an optional `+` (or `-` where `signed`)
/// followed by one or more ASCII digits; `None` for any other text.
pub open spec fn int_value(s: Seq<char>, signed: bool) -> Option<int> {
    if s.len() > 0 && s[0] == '+' {
        unsigned_value(s.drop_first())
    } else if s.len() > 0 && s[0] == '-' && signed {
        match unsigned_value(s.drop_first()) {
            Some(v) => Some(-v),
            None => None,
        }
    } else {
        unsigned_value(s)
    }
}

/// The integer that `s` spells, where it lies in `lo..=hi`.
pub open spec fn int_in_range(s: Seq<char>, signed: bool, lo: int, hi: int) -> Option<int> {
    match int_value(s, signed) {
        Some(v) => if lo <= v <= hi {
            Some(v)
        } else {
            None
        },
        None => None,
    }
}

/// The integer that `s` spells where it lies in `lo..=hi`, and 0 otherwise.
pub open spec fn int_or_zero(s: Seq<char>, signed: bool, lo: int, hi: int) -> int {
    match int_in_range(s, signed, lo, hi) {
        Some(v) => v,
        None => 0,
    }
}

pub proof fn lemma_digits_nonneg(d: Seq<char>)
    requires
        all_digits(d),
    ensures
        digits_value(d) >= 0,
    decreases d.len(),
{
    if d.len() > 0 {
        assert(is_digit(d[d.len() - 1]));
        lemma_digits_nonneg(d.drop_last());
    }
}

/// A prefix of a digit string never reads larger than the whole.
pub proof fn lemma_digits_prefix(d: Seq<char>, k: int)
    requires
        all_digits(d),
        0 <= k <= d.len(),
    ensures
        digits_value(d.subrange(0, k)) <= digits_value(d),
    decreases d.len(),
{
    if k == d.len() {
        assert(d.subrange(0, k) =~= d);
    } else {
        let e = d.drop_last();
        assert(e.subrange(0, k) =~= d.subrange(0, k));
        assert(is_digit(d[d.len() - 1]));
        lemma_digits_nonneg(e);
        lemma_digits_prefix(e, k);
    }
}

/// Reads `s` as an integer of `lo..=hi` in the way `str::parse` does for an
/// integer type with those bounds; `None` where the text is no integer or the
/// value lies outside.
pub fn parse_int(s: &str, signed: bool, lo: i64, hi: i64) -> (r: Option<i64>)
    requires
        lo <= 0 <= hi,
    ensures
        match r {
            Some(x) => int_in_range(s@, signed, lo as int, hi as int) == Some(x as int),
            None => int_in_range(s@, signed, lo as int, hi as int) is None,
        },
{
    let n = s.unicode_len();
    let mut start: usize = 0;
    let mut negative = false;
    if n > 0 {
        let c = s.get_char(0);
        if c == '+' {
            start = 1;
        } else if c == '-' && signed {
            start = 1;
            negative = true;
        }
    }
    let ghost d = s@.subrange(start as int, n as int);
    proof {
        if start == 1 {
            assert(d =~= s@.drop_first());
        } else {
            assert(d =~= s@);
        }
    }
    if start == n {
        return None;
    }
    let limit: u128 = if negative {
        (0 - (lo as i128)) as u128
    } else {
        hi as u128
    };
    let mut acc: u128 = 0;
    let mut i: usize = start;
    assert(d.subrange(0, 0) =~= Seq::<char>::empty());
    while i < n
        invariant
            start <= i <= n,
            n == s@.len(),
            d == s@.subrange(start as int, n as int),
            all_digits(d.subrange(0, i - start)),
            acc == digits_value(d.subrange(0, i - start)),
            acc <= limit,
            limit <= 0x8000_0000_0000_0000u128,
            negative ==> limit == -lo,
            !negative ==> limit == hi,
            int_value(s@, signed) == (if negative {
                match unsigned_value(d) {
                    Some(v) => Some(-v),
                    None => None,
                }
            } else {
                unsigned_value(d)
            }),
        decreases n - i,
    {
        let c = s.get_char(i);
        let v = c as u32;
        if v < 48 || v > 57 {
            assert(d[i - start] == c);
            return None;
        }
        let ghost p = d.subrange(0, i - start);
        let ghost q = d.subrange(0, i - start + 1);
        assert(q.drop_last() =~= p);
        assert(q.last() == c);
        acc = acc * 10 + (v - 48) as u128;
        assert(all_digits(q)) by {
            assert forall|j: int| 0 <= j < q.len() implies is_digit(#[trigger] q[j]) by {
                if j < q.len() - 1 {
                    assert(q[j] == p[j]);
                }
            }
        }
        i += 1;
        if acc > limit {
            proof {
                if all_digits(d) {
                    lemma_digits_prefix(d, i - start);
                }
            }
            return None;
        }
    }
    assert(d.subrange(0, i - start) =~= d);
    if negative {
        Some((0 - (acc as i128)) as i64)
    } else {
        Some(acc as i64)
    }
}

/// `c` equals the lower-case letter `l`, or its upper-case form.
pub open spec fn same_letter(c: char, l: char) -> bool {
    c == l || (c as u32) + 32 == (l as u32)
}

/// `s` spells the lower-case word `w` in any mix of cases.
pub open spec fn word_ci(s: Seq<char>, w: Seq<char>) -> bool {
    s.len() == w.len() && forall|i: int| 0 <= i < s.len() ==> same_letter(#[trigger] s[i], w[i])
}

pub open spec fn is_sign(c: char) -> bool {
    c == '+' || c == '-'
}

pub open spec fn without_sign(s: Seq<char>) -> Seq<char> {
    if s.len() > 0 && is_sign(s[0]) {
        s.drop_first()
    } else {
        s
    }
}

/// `s` with each `E` read as `e`, so that one search finds the exponent.
pub open spec fn fold_exp(s: Seq<char>) -> Seq<char> {
    s.map_values(|c: char| if c == 'E' { 'e' } else { c })
}

/// Digits with at most one `.`, holding at least one digit.
pub open spec fn mantissa_ok(m: Seq<char>) -> bool {
    let p = find_char(m, '.');
    if p < m.len() {
        all_digits(m.subrange(0, p as int)) && all_digits(m.subrange(p as int + 1, m.len() as int))
            && m.len() > 1
    } else {
        m.len() > 0 && all_digits(m)
    }
}

/// A decimal number: a mantissa, then optionally `e` or `E`, a sign and one
/// or more digits.
pub open spec fn decimal_ok(b: Seq<char>) -> bool {
    let k = find_char(fold_exp(b), 'e');
    mantissa_ok(b.subrange(0, k as int)) && (k == b.len() || {
        let x = without_sign(b.subrange(k as int + 1, b.len() as int));
        x.len() > 0 && all_digits(x)
    })
}

/// The grammar of `f64::from_str` (and `f32::from_str`): an optional sign,
/// then `inf`, `infinity` or `nan` in any case, or a decimal number.
pub open spec fn float_syntax(s: Seq<char>) -> bool {
    let b = without_sign(s);
    word_ci(b, "inf"@) || word_ci(b, "infinity"@) || word_ci(b, "nan"@) || decimal_ok(b)
}

/// Whether every character of `s` is an ASCII digit.
pub fn all_digits_text(s: &str) -> (r: bool)
    ensures
        r == all_digits(s@),
{
    let n = s.unicode_len();
    let mut i: usize = 0;
    while i < n
        invariant
            i <= n,
            n == s@.len(),
            forall|j: int| 0 <= j < i ==> is_digit(#[trigger] s@[j]),
        decreases n - i,
    {
        let v = s.get_char(i) as u32;
        if v < 48 || v > 57 {
            return false;
        }
        i += 1;
    }
    true
}

/// Whether `s` spells the lower-case word `w` in any mix of cases.
pub fn word_ci_text(s: &str, w: &str) -> (r: bool)
    ensures
        r == word_ci(s@, w@),
{
    let n = s.unicode_len();
    if n != w.unicode_len() {
        return false;
    }
    let mut i: usize = 0;
    while i < n
        invariant
            i <= n,
            n == s@.len(),
            n == w@.len(),
            forall|j: int| 0 <= j < i ==> same_letter(#[trigger] s@[j], w@[j]),
        decreases n - i,
    {
        let c = s.get_char(i);
        let l = w.get_char(i);
        if !(c == l || (c as u32) + 32 == (l as u32)) {
            return false;
        }
        i += 1;
    }
    true
}

fn strip_sign(s: &str) -> (r: &str)
    ensures
        r@ == without_sign(s@),
{
    let n = s.unicode_len();
    if n > 0 {
        let c = s.get_char(0);
        if c == '+' || c == '-' {
            assert(s@.subrange(1, n as int) =~= s@.drop_first());
            return s.substring_char(1, n);
        }
    }
    s
}

fn mantissa_text_ok(m: &str) -> (r: bool)
    ensures
        r == mantissa_ok(m@),
{
    let n = m.unicode_len();
    let p = crate::text::find_from(m, n, 0, '.');
    assert(m@.subrange(0, n as int) =~= m@);
    if p < n {
        all_digits_text(m.substring_char(0, p)) && all_digits_text(m.substring_char(p + 1, n))
            && n > 1
    } else {
        n > 0 && all_digits_text(m)
    }
}

fn decimal_text_ok(b: &str) -> (r: bool)
    ensures
        r == decimal_ok(b@),
{
    let n = b.unicode_len();
    let mut k: usize = 0;
    while k < n && b.get_char(k) != 'e' && b.get_char(k) != 'E'
        invariant
            k <= n,
            n == b@.len(),
            forall|j: int| 0 <= j < k ==> b@[j] != 'e' && b@[j] != 'E',
        decreases n - k,
    {
        k += 1;
    }
    proof {
        let f = fold_exp(b@);
        assert forall|j: int| 0 <= j < k implies f[j] != 'e' by {}
        lemma_find_char(f, 'e', k as int);
    }
    if !mantissa_text_ok(b.substring_char(0, k)) {
        return false;
    }
    if k == n {
        return true;
    }
    let x = strip_sign(b.substring_char(k + 1, n));
    x.unicode_len() > 0 && all_digits_text(x)
}

/// Whether `s` is a floating-point literal that `f64::from_str` accepts.
pub fn is_float_text(s: &str) -> (r: bool)
    ensures
        r == float_syntax(s@),
{
    let b = strip_sign(s);
    word_ci_text(b, "inf") || word_ci_text(b, "infinity") || word_ci_text(b, "nan")
        || decimal_text_ok(b)
}

/// The text that stands for zero where a value is absent or unreadable.
pub open spec fn zero_text() -> Seq<char> {
    seq!['0']
}

/// `s` where it is a floating-point literal, and zero otherwise.
pub open spec fn float_or_zero(s: Seq<char>) -> Seq<char> {
    if float_syntax(s) {
        s
    } else {
        zero_text()
    }
}

/// A floating-point value as the daemon wrote it: text that `f64::from_str`
/// (and `f32::from_str`) accepts, kept exactly so that the host converts it
/// to the machine float of its choice.
#[derive(Clone, Debug, PartialEq)]
pub struct FloatText {
    text: String,
}

impl View for FloatText {
    type V = Seq<char>;

    closed spec fn view(&self) -> Seq<char> {
        self.text@
    }
}

impl FloatText {
    /// Every value of the type is a floating-point literal.
    pub closed spec fn wf(&self) -> bool {
        float_syntax(self.text@)
    }

    pub proof fn lemma_wf(&self)
        requires
            self.wf(),
        ensures
            float_syntax(self@),
    {
    }

    /// The value zero.
    pub fn zero() -> (r: FloatText)
        ensures
            r@ == zero_text(),
            r.wf(),
    {
        proof {
            reveal_strlit("0");
            assert("0"@ =~= seq!['0']);
            assert(find_char(seq!['0'], '.') == 1) by {
                lemma_find_char(seq!['0'], '.', 1);
            }
            assert(fold_exp(seq!['0']) =~= seq!['0']);
            lemma_find_char(seq!['0'], 'e', 1);
            assert(seq!['0'].subrange(0, 1) =~= seq!['0']);
            assert(decimal_ok(seq!['0']));
        }
        FloatText { text: String::from_str("0") }
    }

    /// `s` as a float where it is a floating-point literal.
    pub fn parse(s: &str) -> (r: Option<FloatText>)
        ensures
            r is Some <==> float_syntax(s@),
            r matches Some(f) ==> f@ == s@ && f.wf(),
    {
        if is_float_text(s) {
            Some(FloatText { text: String::from_str(s) })
        } else {
            None
        }
    }

    /// `s` as a float where it is a floating-point literal, zero otherwise.
    pub fn parse_or_zero(s: &str) -> (r: FloatText)
        ensures
            r@ == float_or_zero(s@),
            r.wf(),
    {
        match FloatText::parse(s) {
            Some(f) => f,
            None => FloatText::zero(),
        }
    }

    /// The literal's text.
    pub fn as_str(&self) -> (r: &str)
        ensures
            r@ == self@,
    {
        self.text.as_str()
    }
}

} // verus!
