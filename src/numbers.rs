use vstd::prelude::*;

verus! {

pub open spec fn is_digit(c: char) -> bool {
    '0' as u32 <= c as u32 <= '9' as u32
}

/// One or more decimal digits.
pub open spec fn is_digits(s: Seq<char>) -> bool {
    s.len() > 0 && forall|i: int| 0 <= i < s.len() ==> is_digit(#[trigger] s[i])
}

pub open spec fn is_sign(c: char) -> bool {
    c == '+' || c == '-'
}

/// `s` without its leading sign, if it has one.
pub open spec fn unsigned(s: Seq<char>) -> Seq<char> {
    if s.len() > 0 && is_sign(s[0]) {
        s.drop_first()
    } else {
        s
    }
}

/// Digits with at most one decimal point among them, and at least one digit.
pub open spec fn is_mantissa(m: Seq<char>) -> bool {
    &&& forall|i: int| 0 <= i < m.len() ==> is_digit(#[trigger] m[i]) || m[i] == '.'
    &&& forall|i: int, j: int|
        0 <= i < m.len() && 0 <= j < m.len() && #[trigger] m[i] == '.' && #[trigger] m[j] == '.'
            ==> i == j
    &&& exists|i: int| 0 <= i < m.len() && is_digit(#[trigger] m[i])
}

pub open spec fn is_exp_mark(c: char) -> bool {
    c == 'e' || c == 'E'
}

/// A decimal number: an optional sign, a mantissa, and optionally `e` or `E` followed
/// by a signed or unsigned integer exponent.
pub open spec fn is_decimal(s: Seq<char>) -> bool {
    let u = unsigned(s);
    ||| is_mantissa(u)
    ||| exists|k: int|
        0 <= k < u.len() && #[trigger] is_exp_mark(u[k]) && is_mantissa(u.take(k)) && is_digits(
            unsigned(u.skip(k + 1)),
        )
}

/// `c` is the lowercase letter `l` or its uppercase form.
pub open spec fn letter_ci(c: char, l: char) -> bool {
    c == l || c as u32 + 32 == l as u32
}

/// `s` is the lowercase word `w`, in any mix of letter cases.
pub open spec fn is_word_ci(s: Seq<char>, w: Seq<char>) -> bool {
    s.len() == w.len() && forall|i: int| 0 <= i < s.len() ==> letter_ci(#[trigger] s[i], w[i])
}

/// Infinity or not-a-number, spelled `inf`, `infinity` or `nan` in any letter case.
pub open spec fn is_special(u: Seq<char>) -> bool {
    is_word_ci(u, "inf"@) || is_word_ci(u, "infinity"@) || is_word_ci(u, "nan"@)
}

/// A real number as the text formats write it: a decimal number, or an optionally
/// signed infinity or not-a-number.
pub open spec fn is_real(s: Seq<char>) -> bool {
    is_decimal(s) || is_special(unsigned(s))
}

/// The value of a non-empty run of decimal digits.
pub open spec fn digits_value(s: Seq<char>) -> int
    decreases s.len(),
{
    if s.len() == 0 {
        0
    } else {
        digits_value(s.drop_last()) * 10 + (s.last() as int - '0' as int)
    }
}

/// The integer that `s` denotes when it is an optional sign followed by digits and the
/// value fits in an `i64`.
pub open spec fn i64_of(s: Seq<char>) -> Option<i64> {
    let d = unsigned(s);
    let v = if s.len() > 0 && s[0] == '-' {
        -digits_value(d)
    } else {
        digits_value(d)
    };
    if is_digits(d) && i64::MIN <= v <= i64::MAX {
        Some(v as i64)
    } else {
        None
    }
}

/// Relies on `FromIterator<char>` for `String`: the string holds the characters in order.
#[verifier::external_body]
pub(crate) fn string_of(v: &[char]) -> (r: String)
    ensures
        r@ == v@,
{
    v.iter().collect()
}

/// Relies on `str::parse::<i64>`: it accepts exactly an optional `+` or `-` followed by
/// ASCII digits whose value fits in an `i64`.
#[verifier::external_body]
fn parse_i64(s: &str) -> (r: Option<i64>)
    ensures
        r == i64_of(s@),
{
    s.parse::<i64>().ok()
}

/// Reads an integer token.
pub fn int_of(tok: &[char]) -> (r: Option<i64>)
    ensures
        r == i64_of(tok@),
{
    let s = string_of(tok);
    parse_i64(s.as_str())
}

pub fn is_digit_char(c: char) -> (r: bool)
    ensures
        r == is_digit(c),
{
    '0' <= c && c <= '9'
}

/// Tells whether `m` is a mantissa.
fn check_mantissa(m: &[char], lo: usize, hi: usize) -> (r: bool)
    requires
        lo <= hi <= m.len(),
    ensures
        r == is_mantissa(m@.subrange(lo as int, hi as int)),
{
    let ghost s = m@.subrange(lo as int, hi as int);
    let mut seen_point = false;
    let mut seen_digit = false;
    let mut point_at: usize = 0;
    let mut i: usize = lo;
    while i < hi
        invariant
            lo <= i <= hi <= m.len(),
            s == m@.subrange(lo as int, hi as int),
            forall|k: int| lo <= k < i ==> is_digit(#[trigger] m@[k]) || m@[k] == '.',
            seen_point <==> exists|k: int| lo <= k < i && #[trigger] m@[k] == '.',
            seen_point ==> lo <= point_at < i && m@[point_at as int] == '.',
            seen_point ==> forall|k: int| lo <= k < i && #[trigger] m@[k] == '.' ==> k
                == point_at,
            seen_digit <==> exists|k: int| lo <= k < i && is_digit(#[trigger] m@[k]),
        decreases hi - i,
    {
        let c = m[i];
        if is_digit_char(c) {
            seen_digit = true;
        } else if c == '.' {
            if seen_point {
                assert(s[point_at - lo] == '.' && s[i - lo] == '.');
                return false;
            }
            seen_point = true;
            point_at = i;
        } else {
            assert(!(is_digit(s[i - lo]) || s[i - lo] == '.'));
            return false;
        }
        i = i + 1;
    }
    if !seen_digit {
        assert forall|k: int| 0 <= k < s.len() implies !is_digit(#[trigger] s[k]) by {
            assert(s[k] == m@[lo + k]);
        }
        return false;
    }
    assert forall|k: int| 0 <= k < s.len() implies is_digit(#[trigger] s[k]) || s[k] == '.' by {
        assert(s[k] == m@[lo + k]);
    }
    assert forall|a: int, b: int|
        0 <= a < s.len() && 0 <= b < s.len() && #[trigger] s[a] == '.' && #[trigger] s[b]
            == '.' implies a == b by {
        assert(s[a] == m@[lo + a] && s[b] == m@[lo + b]);
    }
    let ghost wk = choose|k: int| lo <= k < i && is_digit(#[trigger] m@[k]);
    assert(is_digit(s[wk - lo]));
    true
}

/// Tells whether `m[lo..hi]` is a sign followed by digits, or digits alone.
fn check_exponent(m: &[char], lo: usize, hi: usize) -> (r: bool)
    requires
        lo <= hi <= m.len(),
    ensures
        r == is_digits(unsigned(m@.subrange(lo as int, hi as int))),
{
    let ghost s = m@.subrange(lo as int, hi as int);
    let mut start = lo;
    if lo < hi && (m[lo] == '+' || m[lo] == '-') {
        start = lo + 1;
    }
    assert(unsigned(s) =~= m@.subrange(start as int, hi as int));
    if start == hi {
        return false;
    }
    let mut i: usize = start;
    while i < hi
        invariant
            start <= i <= hi <= m.len(),
            start < hi,
            s == m@.subrange(lo as int, hi as int),
            unsigned(s) == m@.subrange(start as int, hi as int),
            forall|k: int| start <= k < i ==> is_digit(#[trigger] m@[k]),
        decreases hi - i,
    {
        if !is_digit_char(m[i]) {
            assert(!is_digit(unsigned(s)[i - start]));
            return false;
        }
        i = i + 1;
    }
    assert forall|k: int| 0 <= k < unsigned(s).len() implies is_digit(#[trigger] unsigned(s)[k]) by {
        assert(unsigned(s)[k] == m@[start + k]);
    }
    true
}

/// Tells whether `m[lo..]` is the lowercase word `w` in any letter case.
fn check_word_ci(m: &[char], lo: usize, w: &[char]) -> (r: bool)
    requires
        lo <= m.len(),
    ensures
        r == is_word_ci(m@.subrange(lo as int, m.len() as int), w@),
{
    let ghost s = m@.subrange(lo as int, m.len() as int);
    if m.len() - lo != w.len() {
        return false;
    }
    let mut i: usize = 0;
    while i < w.len()
        invariant
            i <= w.len() == m.len() - lo,
            s == m@.subrange(lo as int, m.len() as int),
            forall|j: int| 0 <= j < i ==> letter_ci(#[trigger] s[j], w@[j]),
        decreases w.len() - i,
    {
        let c = m[lo + i];
        let l = w[i];
        assert(s[i as int] == c);
        if !(c == l || ((l as u32) >= 32 && (c as u32) == (l as u32) - 32)) {
            return false;
        }
        i = i + 1;
    }
    true
}

/// Tells whether a token is a real number.
pub fn check_real(tok: &[char]) -> (r: bool)
    ensures
        r == is_real(tok@),
{
    if check_decimal(tok) {
        return true;
    }
    let mut start: usize = 0;
    if tok.len() > 0 && (tok[0] == '+' || tok[0] == '-') {
        start = 1;
    }
    assert(unsigned(tok@) =~= tok@.subrange(start as int, tok.len() as int));
    let inf = crate::text::chars_of("inf");
    let infinity = crate::text::chars_of("infinity");
    let nan = crate::text::chars_of("nan");
    check_word_ci(tok, start, inf.as_slice()) || check_word_ci(tok, start, infinity.as_slice())
        || check_word_ci(tok, start, nan.as_slice())
}

/// Tells whether a token is a decimal number.
fn check_decimal(tok: &[char]) -> (r: bool)
    ensures
        r == is_decimal(tok@),
{
    let n = tok.len();
    let mut start: usize = 0;
    if n > 0 && (tok[0] == '+' || tok[0] == '-') {
        start = 1;
    }
    let ghost u = unsigned(tok@);
    assert(u =~= tok@.subrange(start as int, n as int));
    let mut k: usize = start;
    while k < n && !(tok[k] == 'e' || tok[k] == 'E')
        invariant
            start <= k <= n == tok@.len(),
            u == tok@.subrange(start as int, n as int),
            forall|j: int| start <= j < k ==> !is_exp_mark(#[trigger] tok@[j]),
        decreases n - k,
    {
        k = k + 1;
    }
    if k == n {
        let r = check_mantissa(tok, start, n);
        if !r {
            assert forall|j: int| 0 <= j < u.len() implies !#[trigger] is_exp_mark(u[j]) by {
                assert(u[j] == tok@[start + j]);
            }
        }
        r
    } else {
        let ghost ke = k - start;
        assert(u[ke] == tok@[k as int]);
        assert(is_exp_mark(u[ke]));
        assert(u.take(ke) =~= tok@.subrange(start as int, k as int));
        assert(u.skip(ke + 1) =~= tok@.subrange(k + 1, n as int));
        let a = check_mantissa(tok, start, k);
        let b = check_exponent(tok, k + 1, n);
        if !(a && b) {
            // the mantissa holds no exponent mark, so only the first one can split
            assert forall|j: int|
                0 <= j < u.len() && #[trigger] is_exp_mark(u[j]) implies !(is_mantissa(u.take(j))
                && is_digits(unsigned(u.skip(j + 1)))) by {
                assert(u[j] == tok@[start + j]);
                if j > ke {
                    assert(u.take(j)[ke] == u[ke]);
                }
            }
            // and the whole of it holds the mark
            assert(u[ke] == tok@[k as int]);
            assert(!is_mantissa(u));
        }
        a && b
    }
}

} // verus!
