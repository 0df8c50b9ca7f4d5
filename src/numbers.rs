//! The textual forms of numbers that values of type `Int` and `Float` take.
use vstd::prelude::*;
use vstd::string::StrSliceExecFns;

verus! {

pub open spec fn is_digit(c: char) -> bool {
    48 <= c as u32 && c as u32 <= 57
}

pub open spec fn all_digits(s: Seq<char>) -> bool {
    forall|i: int| 0 <= i < s.len() ==> is_digit(#[trigger] s[i])
}

/// The number that the decimal digits `s` denote.
pub open spec fn digits_value(s: Seq<char>) -> int
    decreases s.len(),
{
    if s.len() == 0 {
        0
    } else {
        digits_value(s.drop_last()) * 10 + (s.last() as u32 - 48)
    }
}

pub open spec fn has_sign(s: Seq<char>) -> bool {
    s.len() > 0 && (s[0] == '+' || s[0] == '-')
}

/// `s` without one leading sign.
pub open spec fn unsigned_part(s: Seq<char>) -> Seq<char> {
    if has_sign(s) {
        s.drop_first()
    } else {
        s
    }
}

/// The text of a 32-bit signed integer: an optional sign, then one or more
/// decimal digits, with a value in range.
pub open spec fn is_int_text(s: Seq<char>) -> bool {
    let body = unsigned_part(s);
    let limit: int = if s.len() > 0 && s[0] == '-' { 0x8000_0000 } else { 0x7fff_ffff };
    body.len() > 0 && all_digits(body) && digits_value(body) <= limit
}

/// `a` equals `w` when ASCII letters of `a` are taken in lower case
/// (`w` being lower case).
pub open spec fn same_word(a: Seq<char>, w: Seq<char>) -> bool {
    a.len() == w.len() && forall|i: int|
        0 <= i < a.len() ==> #[trigger] a[i] == w[i] || (is_upper(a[i]) && a[i] as u32 + 32 == w[i] as u32)
}

pub open spec fn is_upper(c: char) -> bool {
    65 <= c as u32 && c as u32 <= 90
}

/// Index of the first exponent marker (`e` or `E`) at or after `from`, or the length.
pub open spec fn exp_pos(s: Seq<char>, from: int) -> int
    decreases s.len() - from,
{
    if from >= s.len() {
        s.len() as int
    } else if s[from] == 'e' || s[from] == 'E' {
        from
    } else {
        exp_pos(s, from + 1)
    }
}

/// Index of the first `.` at or after `from`, or the length.
pub open spec fn dot_pos(s: Seq<char>, from: int) -> int
    decreases s.len() - from,
{
    if from >= s.len() {
        s.len() as int
    } else if s[from] == '.' {
        from
    } else {
        dot_pos(s, from + 1)
    }
}

/// Digits with at most one `.` among them, and at least one digit.
pub open spec fn is_mantissa(m: Seq<char>) -> bool {
    let d = dot_pos(m, 0);
    if d < m.len() {
        all_digits(m.subrange(0, d)) && all_digits(m.subrange(d + 1, m.len() as int)) && m.len() >= 2
    } else {
        all_digits(m) && m.len() >= 1
    }
}

/// The text of a floating-point number as Rust reads one: an optional sign,
/// then `inf`, `infinity` or `nan` in any case, or a mantissa with an
/// optional exponent (`e` or `E`, an optional sign, one or more digits).
pub open spec fn is_float_text(s: Seq<char>) -> bool {
    let b = unsigned_part(s);
    let p = exp_pos(b, 0);
    let x = b.subrange(p + 1, b.len() as int);
    same_word(b, "inf"@) || same_word(b, "infinity"@) || same_word(b, "nan"@) || (
    is_mantissa(b.subrange(0, p)) && (p == b.len() || (unsigned_part(x).len() > 0 && all_digits(
        unsigned_part(x),
    ))))
}

/// Whether `s[lo..hi]` holds decimal digits only.
fn digits_between(s: &str, lo: usize, hi: usize) -> (r: bool)
    requires
        lo <= hi <= s@.len(),
    ensures
        r == all_digits(s@.subrange(lo as int, hi as int)),
{
    let mut i = lo;
    while i < hi
        invariant
            lo <= i <= hi <= s@.len(),
            forall|j: int| lo <= j < i ==> is_digit(#[trigger] s@[j]),
        decreases hi - i,
    {
        let c = s.get_char(i) as u32;
        if !(48 <= c && c <= 57) {
            assert(!is_digit(s@.subrange(lo as int, hi as int)[i - lo]));
            return false;
        }
        i = i + 1;
    }
    assert forall|j: int| 0 <= j < hi - lo implies is_digit(#[trigger] s@.subrange(lo as int, hi as int)[j]) by {
        assert(is_digit(s@[lo + j]));
    }
    true
}

/// Number of leading sign characters of `s` (zero or one).
fn sign_len(s: &str) -> (r: usize)
    ensures
        r == (if has_sign(s@) { 1usize } else { 0usize }),
{
    if s.unicode_len() > 0 {
        let c = s.get_char(0);
        if c == '+' || c == '-' {
            return 1;
        }
    }
    0
}

/// Whether `s` reads as a 32-bit signed integer.
pub fn is_int(s: &str) -> (r: bool)
    ensures
        r == is_int_text(s@),
{
    let n = s.unicode_len();
    let k = sign_len(s);
    let body = s.substring_char(k, n);
    assert(body@ =~= unsigned_part(s@));
    let neg = n > 0 && s.get_char(0) == '-';
    let limit: u64 = if neg { 0x8000_0000 } else { 0x7fff_ffff };
    let m = body.unicode_len();
    if m == 0 {
        return false;
    }
    let cap: u64 = 0x8000_0001;
    let mut v: u64 = 0;
    let mut i: usize = 0;
    while i < m
        invariant
            m == body@.len(),
            body@ == unsigned_part(s@),
            cap == 0x8000_0001,
            limit == if s@.len() > 0 && s@[0] == '-' { 0x8000_0000u64 } else { 0x7fff_ffffu64 },
            i <= m,
            all_digits(body@.take(i as int)),
            v <= cap,
            v == if digits_value(body@.take(i as int)) < cap { digits_value(body@.take(i as int)) } else { cap as int },
            digits_value(body@.take(i as int)) >= 0,
        decreases m - i,
    {
        let c = body.get_char(i) as u32;
        assert(body@.take(i as int + 1).drop_last() =~= body@.take(i as int));
        if !(48 <= c && c <= 57) {
            assert(!is_digit(body@[i as int]));
            assert(!all_digits(body@));
            return false;
        }
        let d = (c - 48) as u64;
        let ghost old_val = digits_value(body@.take(i as int));
        assert(digits_value(body@.take(i as int + 1)) == old_val * 10 + d);
        if v < cap {
            assert(v * 10 + d <= 0x8000_0001 * 10 + 9) by (nonlinear_arith)
                requires v < 0x8000_0001, d <= 9;
            v = v * 10 + d;
            if v > cap {
                v = cap;
            }
        } else {
            assert(old_val * 10 + d >= old_val) by (nonlinear_arith)
                requires old_val >= 0, d >= 0;
        }
        assert(all_digits(body@.take(i as int + 1))) by {
            assert forall|j: int| 0 <= j < i + 1 implies is_digit(#[trigger] body@.take(i as int + 1)[j]) by {
                if j < i {
                    assert(body@.take(i as int + 1)[j] == body@.take(i as int)[j]);
                }
            }
        }
        i = i + 1;
    }
    assert(body@.take(m as int) =~= body@);
    v <= limit
}


/// Whether `a` is the lower-case word `w` in any case of ASCII letters.
fn is_word(a: &str, w: &str) -> (r: bool)
    ensures
        r == same_word(a@, w@),
{
    let n = a.unicode_len();
    if n != w.unicode_len() {
        return false;
    }
    let mut i: usize = 0;
    while i < n
        invariant
            n == a@.len(),
            n == w@.len(),
            i <= n,
            forall|j: int|
                0 <= j < i ==> #[trigger] a@[j] == w@[j] || (is_upper(a@[j]) && a@[j] as u32 + 32 == w@[j] as u32),
        decreases n - i,
    {
        let c = a.get_char(i);
        let d = w.get_char(i);
        let cu = c as u32;
        if !(c == d || (65 <= cu && cu <= 90 && cu + 32 == d as u32)) {
            return false;
        }
        i = i + 1;
    }
    true
}

/// Whether `s` is one or more digits after an optional sign.
fn signed_digits(s: &str) -> (r: bool)
    ensures
        r == (unsigned_part(s@).len() > 0 && all_digits(unsigned_part(s@))),
{
    let k = sign_len(s);
    let n = s.unicode_len();
    assert(s@.subrange(k as int, n as int) =~= unsigned_part(s@));
    k < n && digits_between(s, k, n)
}

/// Whether `m` is digits with at most one `.` and at least one digit.
fn is_mantissa_str(m: &str) -> (r: bool)
    ensures
        r == is_mantissa(m@),
{
    let n = m.unicode_len();
    let mut d: usize = 0;
    while d < n && m.get_char(d) != '.'
        invariant
            n == m@.len(),
            d <= n,
            dot_pos(m@, 0) == dot_pos(m@, d as int),
        decreases n - d,
    {
        d = d + 1;
    }
    if d < n {
        digits_between(m, 0, d) && digits_between(m, d + 1, n) && n >= 2
    } else {
        assert(m@.subrange(0, n as int) =~= m@);
        digits_between(m, 0, n) && n >= 1
    }
}

/// Whether `s` reads as a floating-point number.
pub fn is_float(s: &str) -> (r: bool)
    ensures
        r == is_float_text(s@),
{
    let n = s.unicode_len();
    let k = sign_len(s);
    let b = s.substring_char(k, n);
    assert(b@ =~= unsigned_part(s@));
    if is_word(b, "inf") || is_word(b, "infinity") || is_word(b, "nan") {
        return true;
    }
    let bn = b.unicode_len();
    let mut p: usize = 0;
    while p < bn && b.get_char(p) != 'e' && b.get_char(p) != 'E'
        invariant
            bn == b@.len(),
            p <= bn,
            exp_pos(b@, 0) == exp_pos(b@, p as int),
        decreases bn - p,
    {
        p = p + 1;
    }
    if !is_mantissa_str(b.substring_char(0, p)) {
        return false;
    }
    if p == bn {
        return true;
    }
    signed_digits(b.substring_char(p + 1, bn))
}

} // verus!
