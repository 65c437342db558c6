//! Which words of a netlist are numeric values.
//!
//! A value is a decimal number in the syntax that `str::parse::<f64>`
//! documents (optional sign; `inf`, `infinity` or `nan` in any case; or
//! digits with an optional point and exponent), optionally followed by one
//! engineering suffix. Turning the text into a number is the host's part.

use vstd::prelude::*;
use crate::ast::{eq_ascii_ci, eq_ignore_ascii_case};
use crate::lexer::{digits_end, is_digit, is_sign, is_unit_suffix, lemma_scan_bounds};

verus! {

/// Whether `b` (no sign) is `digits[.digits][e[sign]digits]` with at least
/// one digit in the mantissa.
pub open spec fn is_decimal(b: Seq<char>) -> bool {
    let a = digits_end(b, 0);
    let has_point = a < b.len() && b[a] == '.';
    let c = if has_point {
        digits_end(b, a + 1)
    } else {
        a
    };
    let mantissa_ok = a > 0 || (has_point && c > a + 1);
    mantissa_ok && (c == b.len() || (c < b.len() && (b[c] == 'e' || b[c] == 'E') && {
        let q = if c + 1 < b.len() && is_sign(b[c + 1]) {
            c + 2
        } else {
            c + 1
        };
        digits_end(b, q) > q && digits_end(b, q) == b.len()
    }))
}

/// Whether `t` is in the syntax that `str::parse::<f64>` accepts.
pub open spec fn is_float_syntax(t: Seq<char>) -> bool {
    let b = if t.len() > 0 && is_sign(t[0]) {
        t.subrange(1, t.len() as int)
    } else {
        t
    };
    eq_ascii_ci(b, "inf"@) || eq_ascii_ci(b, "infinity"@) || eq_ascii_ci(b, "nan"@) || is_decimal(b)
}

/// Whether a word is a value: a float, or a float followed by one unit
/// suffix (the last character is read as a suffix whenever it is one).
pub open spec fn is_value_text(t: Seq<char>) -> bool {
    t.len() > 0 && if is_unit_suffix(t[t.len() - 1]) {
        is_float_syntax(t.drop_last())
    } else {
        is_float_syntax(t)
    }
}

fn scan_digits(b: &Vec<char>, p: usize) -> (r: usize)
    requires
        p <= b.len(),
    ensures
        r == digits_end(b@, p as int),
{
    let mut i: usize = p;
    while i < b.len() && '0' <= b[i] && b[i] <= '9'
        invariant
            p <= i <= b.len(),
            digits_end(b@, p as int) == digits_end(b@, i as int),
        decreases b.len() - i,
    {
        i = i + 1;
    }
    i
}

fn decimal_check(b: &Vec<char>) -> (r: bool)
    ensures
        r == is_decimal(b@),
{
    proof {
        lemma_scan_bounds(b@, 0);
    }
    let a = scan_digits(b, 0);
    let has_point = a < b.len() && b[a] == '.';
    proof {
        if a + 1 <= b.len() {
            lemma_scan_bounds(b@, a + 1);
        }
    }
    let c = if has_point {
        scan_digits(b, a + 1)
    } else {
        a
    };
    let mantissa_ok = a > 0 || (has_point && c > a + 1);
    if !mantissa_ok {
        return false;
    }
    if c == b.len() {
        return true;
    }
    if !(b[c] == 'e' || b[c] == 'E') {
        return false;
    }
    let q = if c + 1 < b.len() && (b[c + 1] == '-' || b[c + 1] == '+') {
        c + 2
    } else {
        c + 1
    };
    let d = scan_digits(b, q);
    d > q && d == b.len()
}

/// The characters of `t` from position `from` on.
fn chars_from(t: &str, from: usize) -> (r: Vec<char>)
    requires
        from <= t@.len(),
    ensures
        r@ == t@.subrange(from as int, t@.len() as int),
{
    let n = t.unicode_len();
    let mut r: Vec<char> = Vec::new();
    let mut i: usize = from;
    while i < n
        invariant
            from <= i <= n,
            n == t@.len(),
            r@ == t@.subrange(from as int, i as int),
        decreases n - i,
    {
        r.push(t.get_char(i));
        i = i + 1;
        assert(r@ =~= t@.subrange(from as int, i as int));
    }
    r
}

/// Whether `t` is in the syntax that `str::parse::<f64>` accepts.
pub fn float_syntax(t: &str) -> (r: bool)
    ensures
        r == is_float_syntax(t@),
{
    let n = t.unicode_len();
    let start: usize = if n > 0 && (t.get_char(0) == '-' || t.get_char(0) == '+') {
        1
    } else {
        0
    };
    let b = chars_from(t, start);
    let body = t.substring_char(start, n);
    proof {
        if start == 0 {
            assert(t@.subrange(0, t@.len() as int) =~= t@);
        }
    }
    eq_ignore_ascii_case(body, "inf") || eq_ignore_ascii_case(body, "infinity")
        || eq_ignore_ascii_case(body, "nan") || decimal_check(&b)
}

/// Whether a word is a value: a float, optionally followed by one unit
/// suffix.
pub fn is_value(t: &str) -> (r: bool)
    ensures
        r == is_value_text(t@),
{
    let n = t.unicode_len();
    if n == 0 {
        return false;
    }
    let last = t.get_char(n - 1);
    if last == 'p' || last == 'n' || last == 'u' || last == 'µ' || last == 'm' || last == 'k'
        || last == 'K' || last == 'M' || last == 'G' {
        let body = t.substring_char(0, n - 1);
        assert(body@ =~= t@.drop_last());
        float_syntax(body)
    } else {
        float_syntax(t)
    }
}

} // verus!
