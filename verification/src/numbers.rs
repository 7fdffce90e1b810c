//! Numeric token shapes and values.
//!
//! The decoders never compute with fractional numbers; they only decide
//! whether a raw token *is* numeric text and, for integers, what value it
//! holds. The predicates here state the token grammars that the standard
//! library's integer and floating-point `from_str` parsers document, so a
//! caller (or the serialization layer around the library) may re-parse an
//! accepted token without a surprise.
use vstd::prelude::*;


verus! {

/// A decimal digit.
pub open spec fn is_digit(c: char) -> bool {
    '0' <= c && c <= '9'
}

/// The value of a decimal digit.
pub open spec fn digit_val(c: char) -> int {
    c as int - '0' as int
}

/// Every character of `s` is a decimal digit.
pub open spec fn all_digits(s: Seq<char>) -> bool {
    forall|i: int| 0 <= i < s.len() ==> is_digit(s[i])
}

/// The value of a run of decimal digits, most significant first.
pub open spec fn digits_val(s: Seq<char>) -> int
    decreases s.len(),
{
    if s.len() == 0 {
        0
    } else {
        digits_val(s.drop_last()) * 10 + digit_val(s[s.len() - 1])
    }
}

/// An integer token: an optional sign, then one or more digits. This is
/// the grammar the standard library's integer `from_str` accepts.
pub open spec fn is_int_token(s: Seq<char>) -> bool {
    let digits = if s.len() > 0 && (s[0] == '+' || s[0] == '-') {
        s.drop_first()
    } else {
        s
    };
    digits.len() >= 1 && all_digits(digits)
}

/// The value of an integer token.
pub open spec fn int_token_val(s: Seq<char>) -> int {
    if s.len() > 0 && s[0] == '-' {
        -digits_val(s.drop_first())
    } else if s.len() > 0 && s[0] == '+' {
        digits_val(s.drop_first())
    } else {
        digits_val(s)
    }
}

/// What parsing `s` as a 64-bit signed integer yields: the token's value
/// when the shape is right and the value representable, and nothing
/// otherwise (a malformed token and an overflowing one are both rejected,
/// as the standard library's parser rejects them).
pub open spec fn spec_parse_i64(s: Seq<char>) -> Option<i64> {
    if is_int_token(s) && i64::MIN <= int_token_val(s) <= i64::MAX {
        Some(int_token_val(s) as i64)
    } else {
        None
    }
}

proof fn lemma_digits_val_bounds(s: Seq<char>)
    requires
        all_digits(s),
    ensures
        digits_val(s) >= 0,
        s.len() >= 1 ==> digits_val(s) >= digit_val(s[s.len() - 1]),
    decreases s.len(),
{
    if s.len() > 0 {
        assert(all_digits(s.drop_last()));
        lemma_digits_val_bounds(s.drop_last());
    }
}

/// Parse a signed decimal integer, exactly as [`spec_parse_i64`] states.
#[verifier::loop_isolation(false)]
pub fn parse_i64(s: &[char]) -> (r: Option<i64>)
    ensures
        r == spec_parse_i64(s@),
{
    let mut i: usize = 0;
    let mut neg: bool = false;
    if s.len() > 0 && (s[0] == '+' || s[0] == '-') {
        neg = s[0] == '-';
        i = 1;
    }
    let ghost digits = if s@.len() > 0 && (s@[0] == '+' || s@[0] == '-') {
        s@.drop_first()
    } else {
        s@
    };
    if i >= s.len() {
        assert(!is_int_token(s@));
        return None;
    }
    // Accumulate the magnitude, bailing out as soon as it can no longer
    // be a representable value; the magnitude of i64::MIN is the one
    // value that needs the extra care below.
    let mut mag: u64 = 0;
    while i < s.len()
        invariant
            (if s@.len() > 0 && (s@[0] == '+' || s@[0] == '-') {
                1int
            } else {
                0int
            }) <= i <= s@.len(),
            digits == (if s@.len() > 0 && (s@[0] == '+' || s@[0] == '-') {
                s@.drop_first()
            } else {
                s@
            }),
            all_digits(digits.subrange(0, i - (s@.len() - digits.len()))),
            mag == digits_val(digits.subrange(0, i - (s@.len() - digits.len()))),
            mag <= 0x8000_0000_0000_0000u64,
        decreases s@.len() - i,
    {
        let c = s[i];
        if c < '0' || c > '9' {
            proof {
                let off = s@.len() - digits.len();
                assert(digits[i - off] == s@[i as int]);
                assert(!is_digit(digits[i - off]));
            }
            assert(!all_digits(digits));
            assert(!is_int_token(s@));
            return None;
        }
        let d: u64 = (c as u32 as u64) - 48;
        let ghost prefix = digits.subrange(0, i - (s@.len() - digits.len()));
        if mag > 922_337_203_685_477_580u64 || (mag == 922_337_203_685_477_580u64 && d > 8) {
            // The value exceeds the magnitude of every i64; any further
            // digits only increase it.
            proof {
                if is_int_token(s@) {
                    let whole = digits;
                    let off = s@.len() - whole.len();
                    assert(whole.subrange(0, i + 1 - off).drop_last() =~= prefix);
                    assert(whole.subrange(0, i + 1 - off)[i - off] == whole[i - off]);
                    assert(digits_val(whole.subrange(0, i + 1 - off)) == mag * 10 + d);
                    lemma_digits_prefix_monotone(whole, i + 1 - off);
                    assert(digits_val(whole) >= mag * 10 + d);
                }
            }
            return None;
        }
        mag = mag * 10 + d;
        proof {
            assert(digits.subrange(0, i + 1 - (s@.len() - digits.len())) =~= digits.subrange(
                0,
                i - (s@.len() - digits.len()),
            ).push(digits[i - (s@.len() - digits.len())]));
            assert(digits.subrange(0, i + 1 - (s@.len() - digits.len())).drop_last() =~= digits
                .subrange(0, i - (s@.len() - digits.len())));
        }
        i += 1;
    }
    proof {
        assert(digits.subrange(0, digits.len() as int) =~= digits);
        assert(is_int_token(s@));
    }
    if neg {
        if mag == 0x8000_0000_0000_0000u64 {
            Some(i64::MIN)
        } else {
            Some(-(mag as i64))
        }
    } else {
        if mag == 0x8000_0000_0000_0000u64 {
            proof {
                assert(int_token_val(s@) > i64::MAX);
            }
            None
        } else {
            Some(mag as i64)
        }
    }
}

/// A digit prefix of a digit run never exceeds the whole run's value.
proof fn lemma_digits_prefix_monotone(s: Seq<char>, n: int)
    requires
        all_digits(s),
        0 <= n <= s.len(),
    ensures
        digits_val(s) >= digits_val(s.subrange(0, n)),
    decreases s.len() - n,
{
    if n < s.len() {
        lemma_digits_prefix_monotone(s, n + 1);
        assert(s.subrange(0, n + 1).drop_last() =~= s.subrange(0, n));
        assert(all_digits(s.subrange(0, n))) by {
            assert(forall|i: int|
                0 <= i < n ==> #[trigger] s.subrange(0, n)[i] == s[i] && is_digit(s[i]));
        };
        lemma_digits_val_bounds(s.subrange(0, n));
        assert(s.subrange(0, n + 1)[n] == s[n]);
        assert(is_digit(s[n]));
        assert(digits_val(s.subrange(0, n + 1)) == digits_val(s.subrange(0, n)) * 10 + digit_val(
            s[n],
        ));
    } else {
        assert(s.subrange(0, n) =~= s);
    }
}

/// Lower-case an ASCII letter; other characters pass through.
pub open spec fn lower(c: char) -> char {
    if 'A' <= c && c <= 'Z' {
        ((c as u8) + 32) as char
    } else {
        c
    }
}

/// `s`, lower-cased letter by letter, equals the literal `t`.
pub open spec fn eq_ignore_case(s: Seq<char>, t: Seq<char>) -> bool {
    s.len() == t.len() && (forall|i: int| 0 <= i < s.len() ==> lower(s[i]) == t[i])
}

/// The special floating-point words: `inf`, `infinity` and `nan` in any
/// letter case.
pub open spec fn is_float_special(s: Seq<char>) -> bool {
    eq_ignore_case(s, "inf"@) || eq_ignore_case(s, "infinity"@) || eq_ignore_case(s, "nan"@)
}

/// The end of the run of decimal digits that starts at `i`.
pub open spec fn digit_run_end(s: Seq<char>, i: int) -> int
    decreases s.len() - i,
{
    if 0 <= i < s.len() && is_digit(s[i]) {
        digit_run_end(s, i + 1)
    } else {
        i
    }
}

/// An exponent part: `e` or `E`, an optional sign, one or more digits.
pub open spec fn is_exponent(s: Seq<char>) -> bool {
    s.len() >= 2 && (s[0] == 'e' || s[0] == 'E') && is_int_token(s.drop_first())
}

/// The body of a float token after the optional sign: a special word, or
/// digits with at most one point and at least one digit (the mantissa),
/// then an optional exponent.
pub open spec fn is_float_body(s: Seq<char>) -> bool {
    is_float_special(s) || {
        let p = digit_run_end(s, 0);
        let q = if p < s.len() && s[p] == '.' {
            digit_run_end(s, p + 1)
        } else {
            p
        };
        let some_digit = p > 0 || (p < s.len() && s[p] == '.' && q > p + 1);
        some_digit && (q == s.len() || is_exponent(s.subrange(q, s.len() as int)))
    }
}

/// A token the standard library's floating-point `from_str` accepts: an
/// optional sign, then `inf`, `infinity` or `nan` in any case, or digits
/// with an optional point and an optional exponent. Out-of-range values
/// round or saturate there, so the shape alone decides acceptance.
pub open spec fn is_float_token(s: Seq<char>) -> bool {
    if s.len() > 0 && (s[0] == '+' || s[0] == '-') {
        is_float_body(s.drop_first())
    } else {
        is_float_body(s)
    }
}

/// Decide [`eq_ignore_case`] against a literal.
fn eq_ignore_case_exec(s: &[char], t: &str) -> (r: bool)
    ensures
        r == eq_ignore_case(s@, t@),
{
    let n = t.unicode_len();
    if s.len() != n {
        return false;
    }
    let mut i: usize = 0;
    while i < n
        invariant
            0 <= i <= n,
            n == s@.len(),
            n == t@.len(),
            forall|j: int| 0 <= j < i ==> lower(s@[j]) == t@[j],
        decreases n - i,
    {
        let c = s[i];
        let l: char = if c >= 'A' && c <= 'Z' {
            ((c as u8) + 32) as char
        } else {
            c
        };
        assert(l == lower(s@[i as int]));
        if l != t.get_char(i) {
            return false;
        }
        i += 1;
    }
    true
}

/// Decide [`is_float_token`].
#[verifier::loop_isolation(false)]
pub fn float_token(s: &[char]) -> (r: bool)
    ensures
        r == is_float_token(s@),
{
    let body: &[char] = if s.len() > 0 && (s[0] == '+' || s[0] == '-') {
        vstd::slice::slice_subrange(s, 1, s.len())
    } else {
        s
    };
    proof {
        if s@.len() > 0 && (s@[0] == '+' || s@[0] == '-') {
            assert(body@ =~= s@.drop_first());
        }
    }
    if eq_ignore_case_exec(body, "inf") || eq_ignore_case_exec(body, "infinity")
        || eq_ignore_case_exec(body, "nan") {
        return true;
    }
    // Scan the mantissa: digits, at most one point, at least one digit.
    let n = body.len();
    let mut i: usize = 0;
    while i < n && body[i] >= '0' && body[i] <= '9'
        invariant
            0 <= i <= n,
            n == body@.len(),
            digit_run_end(body@, 0) == digit_run_end(body@, i as int),
        decreases n - i,
    {
        i += 1;
    }
    let p = i;
    assert(p == digit_run_end(body@, 0));
    let mut q = p;
    if p < n && body[p] == '.' {
        i = p + 1;
        while i < n && body[i] >= '0' && body[i] <= '9'
            invariant
                p + 1 <= i <= n,
                n == body@.len(),
                digit_run_end(body@, p + 1) == digit_run_end(body@, i as int),
            decreases n - i,
        {
            i += 1;
        }
        q = i;
        assert(q == digit_run_end(body@, p + 1));
    }
    let some_digit = p > 0 || (p < n && body[p] == '.' && q > p + 1);
    if !some_digit {
        return false;
    }
    if q == n {
        return true;
    }
    // What remains from q on must be an exponent.
    let es = vstd::slice::slice_subrange(body, q, n);
    proof {
        assert(es@ =~= body@.subrange(q as int, n as int));
    }
    if es.len() < 2 || (es[0] != 'e' && es[0] != 'E') {
        return false;
    }
    let digits: &[char] = if es[1] == '+' || es[1] == '-' {
        vstd::slice::slice_subrange(es, 2, es.len())
    } else {
        vstd::slice::slice_subrange(es, 1, es.len())
    };
    proof {
        let tail = es@.drop_first();
        if es@[1] == '+' || es@[1] == '-' {
            assert(digits@ =~= tail.drop_first());
        } else {
            assert(digits@ =~= tail);
        }
    }
    if digits.len() == 0 {
        return false;
    }
    let mut j: usize = 0;
    while j < digits.len()
        invariant
            0 <= j <= digits@.len(),
            forall|k: int| 0 <= k < j ==> is_digit(digits@[k]),
        decreases digits@.len() - j,
    {
        if digits[j] < '0' || digits[j] > '9' {
            return false;
        }
        j += 1;
    }
    true
}

/// A catalog numeric cell: the raw token when it has floating-point
/// shape, and the canonical zero otherwise (a bad number never rejects a
/// catalog row, it only defaults).
pub open spec fn spec_float_or_zero(s: Seq<char>) -> Seq<char> {
    if is_float_token(s) {
        s
    } else {
        "0"@
    }
}

/// A value cell of the observation report: numeric if the token parses as
/// floating point once the decimal comma is replaced by a point.
pub open spec fn spec_decomma(s: Seq<char>) -> Seq<char> {
    s.map_values(|c: char| if c == ',' { '.' } else { c })
}

/// Executable twin of [`spec_decomma`].
pub fn decomma(s: &[char]) -> (r: Vec<char>)
    ensures
        r@ == spec_decomma(s@),
{
    let mut r: Vec<char> = Vec::new();
    let mut i: usize = 0;
    while i < s.len()
        invariant
            0 <= i <= s@.len(),
            r@ =~= s@.subrange(0, i as int).map_values(
                |c: char| if c == ',' { '.' } else { c },
            ),
        decreases s@.len() - i,
    {
        if s[i] == ',' {
            r.push('.');
        } else {
            r.push(s[i]);
        }
        proof {
            assert(r@ =~= s@.subrange(0, i + 1).map_values(
                |c: char| if c == ',' { '.' } else { c },
            ));
        }
        i += 1;
    }
    proof {
        assert(s@.subrange(0, s@.len() as int) =~= s@);
        assert(r@ =~= spec_decomma(s@));
    }
    r
}

} // verus!
