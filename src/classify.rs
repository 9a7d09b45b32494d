//! Lexical classification of a raw cell value.

use vstd::prelude::*;

verus! {

/// The lexical category of a non-empty raw value.
#[derive(Clone, Copy, Debug, PartialEq, Eq, Structural)]
pub enum ValueClass {
    Integer,
    Float,
    Boolean,
    Text,
}

pub open spec fn is_digit(c: char) -> bool {
    '0' <= c && c <= '9'
}

pub open spec fn is_sign(c: char) -> bool {
    c == '+' || c == '-'
}

pub open spec fn is_exp_mark(c: char) -> bool {
    c == 'e' || c == 'E'
}

/// Numeric value of a decimal digit character.
pub open spec fn digit_value(c: char) -> nat {
    ((c as u32) - 48) as nat
}

/// Length of an optional leading sign: 1 or 0.
pub open spec fn sign_len(s: Seq<char>) -> int {
    if s.len() > 0 && is_sign(s[0]) {
        1
    } else {
        0
    }
}

/// Every character in `s[lo..hi]` is a decimal digit.
pub open spec fn digits_between(s: Seq<char>, lo: int, hi: int) -> bool {
    forall|k: int| lo <= k < hi ==> is_digit(#[trigger] s[k])
}

/// The natural number written by the digits `s[lo..hi]`.
pub open spec fn digits_value(s: Seq<char>, lo: int, hi: int) -> nat
    decreases hi - lo,
{
    if hi <= lo {
        0
    } else {
        digits_value(s, lo, hi - 1) * 10 + digit_value(s[hi - 1])
    }
}

/// `s` is a 64-bit signed integer literal: an optional sign, at least one
/// digit, and a value in range.
pub open spec fn is_i64_literal(s: Seq<char>) -> bool {
    let start = sign_len(s);
    &&& start < s.len()
    &&& digits_between(s, start, s.len() as int)
    &&& digits_value(s, start, s.len() as int) <= if start == 1 && s[0] == '-' {
        9223372036854775808nat
    } else {
        9223372036854775807nat
    }
}

/// `c` is the ASCII letter `l` (given in lower case) in either case.
pub open spec fn same_letter(c: char, l: char) -> bool {
    c == l || (c as u32) + 32 == (l as u32)
}

/// `s[lo..]` spells the lower-case word `w`, ignoring ASCII case.
pub open spec fn word_at(s: Seq<char>, lo: int, w: Seq<char>) -> bool {
    &&& 0 <= lo <= s.len()
    &&& s.len() - lo == w.len()
    &&& forall|k: int| 0 <= k < w.len() ==> same_letter(#[trigger] s[lo + k], w[k])
}

/// `s[lo..hi]` is a decimal mantissa: digits with at most one point, and at
/// least one digit.
pub open spec fn mantissa_between(s: Seq<char>, lo: int, hi: int) -> bool {
    ||| (lo < hi && digits_between(s, lo, hi))
    ||| exists|d: int|
        #![trigger s[d]]
        lo <= d < hi && s[d] == '.' && hi - lo >= 2 && digits_between(s, lo, d)
            && digits_between(s, d + 1, hi)
}

/// `s[lo..hi]` is an exponent after its mark: an optional sign and at least
/// one digit.
pub open spec fn exponent_between(s: Seq<char>, lo: int, hi: int) -> bool {
    let start = if lo < hi && is_sign(s[lo]) {
        lo + 1
    } else {
        lo
    };
    start < hi && digits_between(s, start, hi)
}

/// `s[lo..hi]` is a decimal number: a mantissa, optionally followed by an
/// exponent mark and an exponent.
pub open spec fn number_between(s: Seq<char>, lo: int, hi: int) -> bool {
    ||| mantissa_between(s, lo, hi)
    ||| exists|e: int|
        #![trigger s[e]]
        lo < e < hi && is_exp_mark(s[e]) && mantissa_between(s, lo, e) && exponent_between(
            s,
            e + 1,
            hi,
        )
}

/// `s` is accepted by the standard library as a 64-bit float: an optional
/// sign followed by `inf`, `infinity` or `nan` in any case, or by a decimal
/// number.
pub open spec fn is_f64_literal(s: Seq<char>) -> bool {
    let start = sign_len(s);
    ||| word_at(s, start, seq!['i', 'n', 'f'])
    ||| word_at(s, start, seq!['i', 'n', 'f', 'i', 'n', 'i', 't', 'y'])
    ||| word_at(s, start, seq!['n', 'a', 'n'])
    ||| number_between(s, start, s.len() as int)
}

/// `s` is `true` or `false`, ignoring ASCII case.
pub open spec fn is_bool_literal(s: Seq<char>) -> bool {
    word_at(s, 0, seq!['t', 'r', 'u', 'e']) || word_at(s, 0, seq!['f', 'a', 'l', 's', 'e'])
}

/// The category of a raw value: integer first, then float, then boolean.
pub open spec fn class_of(s: Seq<char>) -> ValueClass {
    if is_i64_literal(s) {
        ValueClass::Integer
    } else if is_f64_literal(s) {
        ValueClass::Float
    } else if is_bool_literal(s) {
        ValueClass::Boolean
    } else {
        ValueClass::Text
    }
}

/// A value whose category is numeric.
pub open spec fn is_numeric_class(c: ValueClass) -> bool {
    c == ValueClass::Integer || c == ValueClass::Float
}

/// Every integer literal is also a float literal.
pub proof fn lemma_integer_is_float(s: Seq<char>)
    requires
        is_i64_literal(s),
    ensures
        is_f64_literal(s),
{
    assert(mantissa_between(s, sign_len(s), s.len() as int));
}

/// The first index in `[lo, hi)` that does not hold a digit, or `hi`.
fn scan_digits(s: &str, lo: usize, hi: usize) -> (k: usize)
    requires
        lo <= hi <= s@.len(),
    ensures
        lo <= k <= hi,
        digits_between(s@, lo as int, k as int),
        k < hi ==> !is_digit(s@[k as int]),
{
    let mut k = lo;
    while k < hi
        invariant
            lo <= k <= hi <= s@.len(),
            digits_between(s@, lo as int, k as int),
        decreases hi - k,
    {
        let c = s.get_char(k);
        if !('0' <= c && c <= '9') {
            return k;
        }
        k = k + 1;
    }
    k
}

/// Whether `s` is a 64-bit signed integer literal.
pub fn parses_as_i64(s: &str) -> (r: bool)
    ensures
        r == is_i64_literal(s@),
{
    let n = s.unicode_len();
    let mut start: usize = 0;
    let mut negative = false;
    if n > 0 {
        let c = s.get_char(0);
        if c == '+' || c == '-' {
            start = 1;
            negative = c == '-';
        }
    }
    if start >= n {
        return false;
    }
    let limit: u128 = if negative {
        9223372036854775808
    } else {
        9223372036854775807
    };
    let mut acc: u128 = 0;
    let mut i = start;
    while i < n
        invariant
            start == sign_len(s@),
            negative == (start == 1 && s@[0] == '-'),
            limit == (if negative { 9223372036854775808u128 } else { 9223372036854775807u128 }),
            n == s@.len(),
            start <= i <= n,
            digits_between(s@, start as int, i as int),
            acc <= limit ==> acc == digits_value(s@, start as int, i as int),
            acc > limit ==> digits_value(s@, start as int, i as int) > limit,
            acc <= limit + 9,
        decreases n - i,
    {
        let c = s.get_char(i);
        if !('0' <= c && c <= '9') {
            return false;
        }
        let d = (c as u32 - 48) as u128;
        if acc <= limit {
            acc = acc * 10 + d;
            if acc > limit {
                acc = limit + 1;
            }
        }
        i = i + 1;
    }
    acc <= limit
}

/// Whether `s[lo..]` spells the lower-case word `w`, ignoring ASCII case.
fn matches_word(s: &str, lo: usize, w: &str) -> (r: bool)
    requires
        lo <= s@.len(),
        forall|k: int| 0 <= k < w@.len() ==> 'a' <= #[trigger] w@[k] <= 'z',
    ensures
        r == word_at(s@, lo as int, w@),
{
    let n = s.unicode_len();
    let m = w.unicode_len();
    if n - lo != m {
        return false;
    }
    let mut k: usize = 0;
    while k < m
        invariant
            n == s@.len(),
            m == w@.len(),
            n - lo == m,
            k <= m,
            forall|j: int| 0 <= j < w@.len() ==> 'a' <= #[trigger] w@[j] <= 'z',
            forall|j: int| 0 <= j < k ==> same_letter(#[trigger] s@[lo + j], w@[j]),
        decreases m - k,
    {
        let c = s.get_char(lo + k);
        let l = w.get_char(k);
        if !(c == l || (c as u32) + 32 == (l as u32)) {
            return false;
        }
        k = k + 1;
    }
    true
}

/// Whether `s[lo..hi]` is a decimal mantissa; when it is, also where the
/// longest mantissa starting at `lo` ends.
fn scan_mantissa(s: &str, lo: usize, hi: usize) -> (r: (bool, usize))
    requires
        lo <= hi <= s@.len(),
    ensures
        lo <= r.1 <= hi,
        r.0 ==> mantissa_between(s@, lo as int, r.1 as int),
        r.1 < hi ==> !is_digit(s@[r.1 as int]),
        forall|e: int|
            #![trigger mantissa_between(s@, lo as int, e)]
            lo <= e <= hi && (e == hi || (!is_digit(s@[e]) && s@[e] != '.'))
                && mantissa_between(s@, lo as int, e) ==> e == r.1 && r.0,
{
    let k1 = scan_digits(s, lo, hi);
    if k1 < hi && s.get_char(k1) == '.' {
        let k2 = scan_digits(s, k1 + 1, hi);
        let ok = k2 - lo >= 2;
        proof {
            assert forall|e: int|
                lo <= e <= hi && (e == hi || (!is_digit(s@[e]) && s@[e] != '.'))
                    && mantissa_between(s@, lo as int, e) implies e == k2 && ok by {
                if lo < e && digits_between(s@, lo as int, e) {
                    assert(is_digit(s@[k1 as int]));
                } else {
                    let d = choose|d: int|
                        #![trigger s@[d]]
                        lo <= d < e && s@[d] == '.' && e - lo >= 2 && digits_between(
                            s@,
                            lo as int,
                            d,
                        ) && digits_between(s@, d + 1, e);
                    assert(d == k1);
                    if e < k2 {
                        assert(is_digit(s@[e]));
                    } else if e > k2 {
                        assert(is_digit(s@[k2 as int]));
                    }
                }
            }
        }
        (ok, k2)
    } else {
        proof {
            assert forall|e: int|
                lo <= e <= hi && (e == hi || (!is_digit(s@[e]) && s@[e] != '.'))
                    && mantissa_between(s@, lo as int, e) implies e == k1 && k1 > lo by {
                if lo < e && digits_between(s@, lo as int, e) {
                    if e < k1 {
                        assert(is_digit(s@[e]));
                    } else if e > k1 {
                        assert(is_digit(s@[k1 as int]));
                    }
                } else {
                    let d = choose|d: int|
                        #![trigger s@[d]]
                        lo <= d < e && s@[d] == '.' && e - lo >= 2 && digits_between(
                            s@,
                            lo as int,
                            d,
                        ) && digits_between(s@, d + 1, e);
                    if d < k1 {
                        assert(is_digit(s@[d]));
                    } else if d > k1 {
                        assert(is_digit(s@[k1 as int]));
                    }
                }
            }
        }
        (k1 > lo, k1)
    }
}

/// Whether `s[lo..hi]` is an exponent after its mark.
fn scan_exponent(s: &str, lo: usize, hi: usize) -> (r: bool)
    requires
        lo <= hi <= s@.len(),
    ensures
        r == exponent_between(s@, lo as int, hi as int),
{
    let mut start = lo;
    if lo < hi {
        let c = s.get_char(lo);
        if c == '+' || c == '-' {
            start = lo + 1;
        }
    }
    let k = scan_digits(s, start, hi);
    start < hi && k == hi
}

/// Whether `s[lo..]` is a decimal number.
fn scan_number(s: &str, lo: usize) -> (r: bool)
    requires
        lo <= s@.len(),
    ensures
        r == number_between(s@, lo as int, s@.len() as int),
{
    let n = s.unicode_len();
    let (ok, m) = scan_mantissa(s, lo, n);
    if !ok {
        proof {
            assert(!mantissa_between(s@, lo as int, n as int));
            assert forall|e: int|
                lo < e < n && is_exp_mark(#[trigger] s@[e]) implies !mantissa_between(
                s@,
                lo as int,
                e,
            ) by {}
        }
        return false;
    }
    if m == n {
        return true;
    }
    let c = s.get_char(m);
    if c == 'e' || c == 'E' {
        let r = scan_exponent(s, m + 1, n);
        proof {
            if m == lo {
                assert(!mantissa_between(s@, lo as int, lo as int));
            }
            assert forall|e: int|
                lo < e < n && is_exp_mark(#[trigger] s@[e]) && mantissa_between(s@, lo as int, e)
                    implies e == m by {}
            if !r {
                assert(!mantissa_between(s@, lo as int, n as int));
            }
        }
        r
    } else {
        proof {
            assert(!mantissa_between(s@, lo as int, n as int));
            assert forall|e: int|
                lo < e < n && is_exp_mark(#[trigger] s@[e]) implies !mantissa_between(
                s@,
                lo as int,
                e,
            ) by {}
        }
        false
    }
}

/// Whether `s` is accepted by the standard library as a 64-bit float.
pub fn parses_as_f64(s: &str) -> (r: bool)
    ensures
        r == is_f64_literal(s@),
{
    let n = s.unicode_len();
    let mut start: usize = 0;
    if n > 0 {
        let c = s.get_char(0);
        if c == '+' || c == '-' {
            start = 1;
        }
    }
    let inf = "inf";
    let infinity = "infinity";
    let nan = "nan";
    proof {
        reveal_strlit("inf");
        reveal_strlit("infinity");
        reveal_strlit("nan");
        assert(inf@ =~= seq!['i', 'n', 'f']);
        assert(infinity@ =~= seq!['i', 'n', 'f', 'i', 'n', 'i', 't', 'y']);
        assert(nan@ =~= seq!['n', 'a', 'n']);
    }
    matches_word(s, start, inf) || matches_word(s, start, infinity) || matches_word(s, start, nan)
        || scan_number(s, start)
}

/// Whether `s` is `true` or `false`, ignoring ASCII case.
pub fn parses_as_bool(s: &str) -> (r: bool)
    ensures
        r == is_bool_literal(s@),
{
    let t = "true";
    let f = "false";
    proof {
        reveal_strlit("true");
        reveal_strlit("false");
        assert(t@ =~= seq!['t', 'r', 'u', 'e']);
        assert(f@ =~= seq!['f', 'a', 'l', 's', 'e']);
    }
    matches_word(s, 0, t) || matches_word(s, 0, f)
}

/// The lexical category of `value`: integer, else float, else boolean, else
/// text.
pub fn classify(value: &str) -> (r: ValueClass)
    ensures
        r == class_of(value@),
{
    if parses_as_i64(value) {
        ValueClass::Integer
    } else if parses_as_f64(value) {
        ValueClass::Float
    } else if parses_as_bool(value) {
        ValueClass::Boolean
    } else {
        ValueClass::Text
    }
}

/// The name of a category, as reported for inferred types.
pub open spec fn class_name(c: ValueClass) -> Seq<char> {
    match c {
        ValueClass::Integer => "integer"@,
        ValueClass::Float => "float"@,
        ValueClass::Boolean => "boolean"@,
        ValueClass::Text => "string"@,
    }
}

/// The name of the lexical category of `value`: `integer`, `float`,
/// `boolean` or `string`.
pub fn infer_type(value: &str) -> (r: &'static str)
    ensures
        r@ == class_name(class_of(value@)),
{
    match classify(value) {
        ValueClass::Integer => "integer",
        ValueClass::Float => "float",
        ValueClass::Boolean => "boolean",
        ValueClass::Text => "string",
    }
}

} // verus!
