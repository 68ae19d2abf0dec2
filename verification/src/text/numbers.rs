//! Decimal numbers as text: unsigned integers, fixed-point numbers, and
//! the names of what is not finite.

use crate::fixed::{saturate, saturated, ONE};
use crate::graph::data::Sample;
use crate::text::{ascii, is_keyword, same_ignoring_case};
use vstd::prelude::*;

verus! {

/// An ASCII decimal digit.
pub open spec fn is_digit(b: u8) -> bool {
    48 <= b <= 57
}

/// Every byte is a decimal digit.
pub open spec fn all_digits(s: Seq<u8>) -> bool {
    forall|i: int| 0 <= i < s.len() ==> is_digit(#[trigger] s[i])
}

/// The number that a sequence of decimal digits writes.
pub open spec fn number(s: Seq<u8>) -> nat
    decreases s.len(),
{
    if s.len() == 0 {
        0
    } else {
        number(s.drop_last()) * 10 + (s.last() - 48) as nat
    }
}

/// The digits of a non-negative number: the word without a leading `+`.
pub open spec fn unsigned_digits(word: Seq<u8>) -> Seq<u8> {
    if word.len() > 0 && word[0] == '+' as u8 {
        word.skip(1)
    } else {
        word
    }
}

/// The non-negative number that a word writes, if it writes one that does
/// not exceed `max`: an optional `+`, then one or more decimal digits.
pub open spec fn unsigned_of(word: Seq<u8>, max: nat) -> Option<nat> {
    let digits = unsigned_digits(word);
    if digits.len() > 0 && all_digits(digits) && number(digits) <= max {
        Some(number(digits))
    } else {
        None
    }
}

/// The digits written so far never exceed the whole number.
pub proof fn lemma_number_prefix(s: Seq<u8>, i: int)
    requires
        0 <= i <= s.len(),
    ensures
        number(s.take(i)) <= number(s),
    decreases s.len() - i,
{
    if i < s.len() {
        lemma_number_prefix(s, i + 1);
        assert(s.take(i + 1).drop_last() =~= s.take(i));
    } else {
        assert(s.take(i) =~= s);
    }
}

/// Parse a non-negative integer: an optional `+`, then one or more decimal
/// digits, whose value must fit.
pub fn parse_u64(word: &[u8]) -> (r: Option<u64>)
    ensures
        match r {
            Some(v) => unsigned_of(word@, u64::MAX as nat) == Some(v as nat),
            None => unsigned_of(word@, u64::MAX as nat) is None,
        },
{
    let start: usize = if word.len() > 0 && word[0] == '+' as u8 {
        1
    } else {
        0
    };
    let ghost digits = unsigned_digits(word@);
    assert(digits =~= word@.skip(start as int));
    if start == word.len() {
        return None;
    }
    let mut acc: u64 = 0;
    let mut i: usize = start;
    while i < word.len()
        invariant
            start <= i <= word.len(),
            digits == word@.skip(start as int),
            digits == unsigned_digits(word@),
            all_digits(digits.take(i - start)),
            acc == number(digits.take(i - start)),
        decreases word.len() - i,
    {
        let b: u8 = word[i];
        let ghost k = i - start;
        proof {
            assert(digits[k] == b);
            assert(digits.take(k + 1).drop_last() =~= digits.take(k));
        }
        if b < 48 || b > 57 {
            return None;
        }
        let d: u64 = (b - 48) as u64;
        assert(number(digits.take(k + 1)) == acc * 10 + d);
        if acc > (u64::MAX - d) / 10 {
            proof {
                lemma_number_prefix(digits, k + 1);
            }
            return None;
        }
        acc = acc * 10 + d;
        proof {
            assert forall|j: int| 0 <= j < k + 1 implies is_digit(
                #[trigger] digits.take(k + 1)[j],
            ) by {
                if j < k {
                    assert(digits.take(k)[j] == digits.take(k + 1)[j]);
                }
            }
        }
        i = i + 1;
    }
    assert(digits.take(i - start) =~= digits);
    Some(acc)
}

/// Parse a zero-based index: an optional `+`, then one or more decimal
/// digits, whose value must fit.
pub fn parse_index(word: &[u8]) -> (r: Option<usize>)
    ensures
        match r {
            Some(v) => unsigned_of(word@, usize::MAX as nat) == Some(v as nat),
            None => unsigned_of(word@, usize::MAX as nat) is None,
        },
{
    match parse_u64(word) {
        Some(v) => if v <= usize::MAX as u64 {
            Some(v as usize)
        } else {
            None
        },
        None => None,
    }
}

/// Ten to the power `k`.
pub open spec fn pow10(k: nat) -> nat
    decreases k,
{
    if k == 0 {
        1
    } else {
        10 * pow10((k - 1) as nat)
    }
}

/// The index of the first byte of `s` that is `a` or `b`, or the length of
/// `s` if it holds neither.
pub open spec fn first_of(s: Seq<u8>, a: u8, b: u8) -> int
    decreases s.len(),
{
    if s.len() == 0 || s[0] == a || s[0] == b {
        0
    } else {
        1 + first_of(s.drop_first(), a, b)
    }
}

/// Where the exponent mark of a numeral stands: at its first `e` or `E`.
pub open spec fn mark_index(body: Seq<u8>) -> int {
    first_of(body, 'e' as u8, 'E' as u8)
}

/// `m` is digits, a decimal point at index `i`, and digits, with at least
/// one digit in all.
pub open spec fn is_point_at(m: Seq<u8>, i: int) -> bool {
    &&& 0 <= i < m.len()
    &&& m[i] == '.' as u8
    &&& all_digits(m.take(i))
    &&& all_digits(m.skip(i + 1))
    &&& m.len() >= 2
}

/// The digits that a mantissa writes and how many of them stand after the
/// decimal point: one or more digits, or digits with a decimal point among
/// or around them.
pub open spec fn mantissa_of(m: Seq<u8>) -> Option<(Seq<u8>, nat)> {
    if m.len() > 0 && all_digits(m) {
        Some((m, 0nat))
    } else if exists|i: int| is_point_at(m, i) {
        let i = choose|i: int| is_point_at(m, i);
        Some((m.take(i) + m.skip(i + 1), (m.len() - i - 1) as nat))
    } else {
        None
    }
}

/// The power of ten that an exponent writes: an optional sign, then one or
/// more digits.
pub open spec fn exponent_of(part: Seq<u8>) -> Option<int> {
    let digits = unsigned_part(part);
    if digits.len() > 0 && all_digits(digits) {
        Some(
            if is_negative(part) {
                -(number(digits) as int)
            } else {
                number(digits) as int
            },
        )
    } else {
        None
    }
}

/// The number that `digits` write, times ten to the power `shift`; what
/// falls below one is dropped.
pub open spec fn shifted(digits: Seq<u8>, shift: int) -> nat {
    if shift >= 0 {
        number(digits) * pow10(shift as nat)
    } else if -shift >= digits.len() {
        0
    } else {
        number(digits.take(digits.len() + shift))
    }
}

/// The count of millionths that an unsigned numeral writes. The numeral is
/// a mantissa (one or more digits, or digits with a decimal point among or
/// around them) and, optionally, an exponent: `e` or `E`, an optional
/// sign, and one or more digits. Its value is the mantissa times that
/// power of ten; what falls below a millionth is dropped.
pub open spec fn magnitude_of(body: Seq<u8>) -> Option<nat> {
    let cut = mark_index(body);
    match mantissa_of(body.take(cut)) {
        None => None,
        Some((digits, after)) => if cut >= body.len() {
            Some(shifted(digits, 6 - after))
        } else {
            match exponent_of(body.skip(cut + 1)) {
                None => None,
                Some(e) => Some(shifted(digits, e + 6 - after)),
            }
        },
    }
}

/// The word starts with a minus sign.
pub open spec fn is_negative(word: Seq<u8>) -> bool {
    word.len() > 0 && word[0] == '-' as u8
}

/// The word without its sign, if it has one.
pub open spec fn unsigned_part(word: Seq<u8>) -> Seq<u8> {
    if word.len() > 0 && (word[0] == '+' as u8 || word[0] == '-' as u8) {
        word.skip(1)
    } else {
        word
    }
}

/// The fixed-point number that a word writes, if it writes one: an
/// optional sign and an unsigned decimal numeral. A number beyond the
/// fixed-point range is taken as the nearest end of the range.
pub open spec fn fixed_of(word: Seq<u8>) -> Option<i64> {
    match magnitude_of(unsigned_part(word)) {
        Some(m) => Some(
            saturated(
                if is_negative(word) {
                    -(m as int)
                } else {
                    m as int
                },
            ) as i64,
        ),
        None => None,
    }
}

/// The word, without its sign, names an infinity.
pub open spec fn names_infinity(body: Seq<u8>) -> bool {
    ||| same_ignoring_case(body, ascii("inf"@))
    ||| same_ignoring_case(body, ascii("infinity"@))
}

/// The word, without its sign, names a value that is not a number.
pub open spec fn names_nan(body: Seq<u8>) -> bool {
    same_ignoring_case(body, ascii("nan"@))
}

/// The word, without its sign, names an infinity or a value that is not a
/// number.
pub open spec fn names_non_finite(body: Seq<u8>) -> bool {
    ||| names_infinity(body)
    ||| names_nan(body)
}

/// The fixed-point number that a word stands for where a number is
/// needed: the number it writes, an infinity taken as the nearest end of
/// the fixed-point range, and `nan` taken as zero.
pub open spec fn extended_of(word: Seq<u8>) -> Option<i64> {
    if names_infinity(unsigned_part(word)) {
        Some(
            if is_negative(word) {
                i64::MIN
            } else {
                i64::MAX
            },
        )
    } else if names_nan(unsigned_part(word)) {
        Some(0i64)
    } else {
        fixed_of(word)
    }
}

/// The sample that a word writes, if it writes one: a fixed-point number,
/// or, with an optional sign, `inf`, `infinity` or `nan` in any case.
pub open spec fn sample_of(word: Seq<u8>) -> Option<Sample> {
    if names_non_finite(unsigned_part(word)) {
        Some(Sample::NonFinite)
    } else {
        match fixed_of(word) {
            Some(v) => Some(Sample::Finite(v)),
            None => None,
        }
    }
}

/// A numeral has its decimal point in one place only.
proof fn lemma_point_unique(m: Seq<u8>, i: int, j: int)
    requires
        is_point_at(m, i),
        is_point_at(m, j),
    ensures
        i == j,
{
    if i < j {
        assert(m.take(j)[i] == m[i]);
    } else if j < i {
        assert(m.take(i)[j] == m[j]);
    }
}

/// The first of two bytes is found where neither stands before and one of
/// them stands, or at the end.
proof fn lemma_first_of(s: Seq<u8>, a: u8, b: u8, n: int)
    requires
        0 <= n <= s.len(),
        forall|k: int| 0 <= k < n ==> #[trigger] s[k] != a && s[k] != b,
        n == s.len() || s[n] == a || s[n] == b,
    ensures
        first_of(s, a, b) == n,
    decreases s.len(),
{
    if n > 0 {
        let rest = s.drop_first();
        assert forall|k: int| 0 <= k < n - 1 implies #[trigger] rest[k] != a && rest[k] != b by {
            assert(rest[k] == s[k + 1]);
        }
        lemma_first_of(rest, a, b, n - 1);
    }
}

/// The limit up to which numbers are told apart while a numeral is read:
/// any larger one is beyond the fixed-point range just the same.
pub const NUMBER_LIMIT: i128 = 0x8000_0000_0000_0000;

/// The limit up to which exponents are told apart: no numeral is long
/// enough for a larger one to make a difference.
pub const EXPONENT_LIMIT: i128 = 0x10_0000_0000_0000_0000_0000_0000;

/// `v`, but no more than `limit`.
pub open spec fn at_most(v: int, limit: int) -> int {
    if v >= limit {
        limit
    } else {
        v
    }
}

/// `v`, but no further from zero than `limit`.
pub open spec fn within(v: int, limit: int) -> int {
    if v >= limit {
        limit
    } else if v <= -limit {
        -limit
    } else {
        v
    }
}

/// The first powers of ten.
proof fn lemma_pow10_small()
    ensures
        pow10(0) == 1,
        pow10(1) == 10,
        pow10(20) == 100_000_000_000_000_000_000,
{
    reveal_with_fuel(pow10, 21);
}

/// Powers of ten grow with the exponent.
proof fn lemma_pow10_grows(a: nat, b: nat)
    requires
        a <= b,
    ensures
        1 <= pow10(a) <= pow10(b),
    decreases b,
{
    if a < b {
        lemma_pow10_grows(a, (b - 1) as nat);
    } else if a > 0 {
        lemma_pow10_grows((a - 1) as nat, (a - 1) as nat);
    }
}

/// Twenty powers of ten take every number but zero beyond the limit, so a
/// larger shift changes nothing below it.
proof fn lemma_large_shift(digits: Seq<u8>, shift: int)
    requires
        shift >= 20,
    ensures
        at_most(shifted(digits, shift) as int, NUMBER_LIMIT as int) == at_most(
            shifted(digits, 20) as int,
            NUMBER_LIMIT as int,
        ),
{
    let n = number(digits);
    lemma_pow10_small();
    lemma_pow10_grows(20, shift as nat);
    if n == 0 {
        assert(n * pow10(shift as nat) == 0) by (nonlinear_arith)
            requires
                n == 0,
        ;
        assert(n * pow10(20) == 0) by (nonlinear_arith)
            requires
                n == 0,
        ;
    } else {
        assert(n * pow10(shift as nat) >= pow10(20) && n * pow10(20) >= pow10(20))
            by (nonlinear_arith)
            requires
                n >= 1,
                pow10(shift as nat) >= pow10(20),
                pow10(20) >= 1,
        ;
    }
}

/// Where the first of two bytes stands in a byte string, or its length.
fn find_first(s: &[u8], a: u8, b: u8) -> (n: usize)
    ensures
        n == first_of(s@, a, b),
        n <= s@.len(),
        forall|k: int| 0 <= k < n ==> #[trigger] s@[k] != a && s@[k] != b,
        n == s@.len() || s@[n as int] == a || s@[n as int] == b,
{
    let mut n: usize = 0;
    while n < s.len() && s[n] != a && s[n] != b
        invariant
            n <= s@.len(),
            forall|k: int| 0 <= k < n ==> #[trigger] s@[k] != a && s@[k] != b,
        decreases s.len() - n,
    {
        n = n + 1;
    }
    proof {
        lemma_first_of(s@, a, b, n as int);
    }
    n
}

/// A copy of the bytes from `from` up to `to`.
fn copy_range(s: &[u8], from: usize, to: usize) -> (out: Vec<u8>)
    requires
        from <= to <= s@.len(),
    ensures
        out@ == s@.subrange(from as int, to as int),
{
    let mut out: Vec<u8> = Vec::new();
    let mut i: usize = from;
    while i < to
        invariant
            from <= i <= to <= s@.len(),
            out@ == s@.subrange(from as int, i as int),
        decreases to - i,
    {
        out.push(s[i]);
        i = i + 1;
    }
    out
}

/// Whether every byte is a decimal digit.
fn only_digits(s: &[u8]) -> (r: bool)
    ensures
        r == all_digits(s@),
{
    let mut i: usize = 0;
    while i < s.len()
        invariant
            i <= s@.len(),
            forall|k: int| 0 <= k < i ==> is_digit(#[trigger] s@[k]),
        decreases s.len() - i,
    {
        if s[i] < 48 || s[i] > 57 {
            return false;
        }
        i = i + 1;
    }
    true
}

/// The number that the first `keep` digits write, as far as `limit`.
fn accumulate(digits: &[u8], keep: usize, limit: i128) -> (r: i128)
    requires
        keep <= digits@.len(),
        all_digits(digits@),
        0 < limit <= EXPONENT_LIMIT,
    ensures
        r == at_most(number(digits@.take(keep as int)) as int, limit as int),
{
    let mut acc: i128 = 0;
    let mut i: usize = 0;
    while i < keep
        invariant
            i <= keep <= digits@.len(),
            all_digits(digits@),
            0 < limit <= EXPONENT_LIMIT,
            acc == at_most(number(digits@.take(i as int)) as int, limit as int),
        decreases keep - i,
    {
        let d: i128 = (digits[i] - 48) as i128;
        proof {
            let before = digits@.take(i as int);
            let after = digits@.take(i + 1);
            assert(after.drop_last() =~= before);
        }
        acc = if acc * 10 + d >= limit {
            limit
        } else {
            acc * 10 + d
        };
        i = i + 1;
    }
    acc
}

/// Read a mantissa: its digits, and how many of them stand after the
/// decimal point.
fn parse_mantissa(m: &[u8]) -> (r: Option<(Vec<u8>, usize)>)
    ensures
        match r {
            Some((digits, after)) => mantissa_of(m@) == Some((digits@, after as nat))
                && all_digits(digits@),
            None => mantissa_of(m@) is None,
        },
{
    let n: usize = m.len();
    let dot: usize = find_first(m, '.' as u8, '.' as u8);
    if dot == n {
        assert forall|i: int| !is_point_at(m@, i) by {}
        if n > 0 && only_digits(m) {
            let digits: Vec<u8> = copy_range(m, 0, n);
            assert(digits@ =~= m@);
            Some((digits, 0))
        } else {
            None
        }
    } else {
        let mut digits: Vec<u8> = copy_range(m, 0, dot);
        let mut rest: Vec<u8> = copy_range(m, dot + 1, n);
        if n >= 2 && only_digits(digits.as_slice()) && only_digits(rest.as_slice()) {
            proof {
                assert(is_point_at(m@, dot as int));
                let chosen = choose|i: int| is_point_at(m@, i);
                lemma_point_unique(m@, chosen, dot as int);
            }
            let after: usize = n - dot - 1;
            digits.append(&mut rest);
            assert forall|k: int| 0 <= k < digits@.len() implies is_digit(#[trigger] digits@[k]) by {
                if k < dot {
                    assert(digits@[k] == m@.take(dot as int)[k]);
                } else {
                    assert(digits@[k] == m@.skip(dot + 1)[k - dot]);
                }
            }
            Some((digits, after))
        } else {
            assert forall|i: int| !is_point_at(m@, i) by {
                if is_point_at(m@, i) && i > dot {
                    assert(m@.take(i)[dot as int] == m@[dot as int]);
                }
            }
            None
        }
    }
}

/// Read an exponent: an optional sign, then one or more digits. The
/// result is told apart as far as `EXPONENT_LIMIT` either way.
fn parse_exponent(part: &[u8]) -> (r: Option<i128>)
    ensures
        match exponent_of(part@) {
            Some(e) => r == Some(within(e, EXPONENT_LIMIT as int) as i128),
            None => r is None,
        },
{
    let digits: Vec<u8> = strip_sign(part);
    if digits.len() == 0 || !only_digits(digits.as_slice()) {
        return None;
    }
    let size: i128 = accumulate(digits.as_slice(), digits.len(), EXPONENT_LIMIT);
    assert(digits@.take(digits@.len() as int) =~= digits@);
    if part.len() > 0 && part[0] == '-' as u8 {
        Some(-size)
    } else {
        Some(size)
    }
}

/// The number that `digits` write, times ten to the power `shift`, as far
/// as `NUMBER_LIMIT`; what falls below one is dropped.
fn shift_digits(digits: &[u8], shift: i128) -> (r: i128)
    requires
        all_digits(digits@),
        shift > i128::MIN,
    ensures
        r == at_most(shifted(digits@, shift as int) as int, NUMBER_LIMIT as int),
{
    let n: usize = digits.len();
    if shift < 0 {
        if -shift >= n as i128 {
            0
        } else {
            let keep: usize = (n as i128 + shift) as usize;
            accumulate(digits, keep, NUMBER_LIMIT)
        }
    } else {
        let mut acc: i128 = accumulate(digits, n, NUMBER_LIMIT);
        assert(digits@.take(n as int) =~= digits@);
        let steps: i128 = if shift > 20 {
            20
        } else {
            shift
        };
        let mut j: i128 = 0;
        proof {
            lemma_pow10_small();
            assert(number(digits@) * pow10(0) == number(digits@));
        }
        while j < steps
            invariant
                0 <= j <= steps <= 20,
                acc == at_most((number(digits@) * pow10(j as nat)) as int, NUMBER_LIMIT as int),
            decreases steps - j,
        {
            proof {
                let before = number(digits@) * pow10(j as nat);
                assert(pow10((j + 1) as nat) == 10 * pow10(j as nat));
                assert(number(digits@) * pow10((j + 1) as nat) == before * 10) by (nonlinear_arith)
                    requires
                        before == number(digits@) * pow10(j as nat),
                        pow10((j + 1) as nat) == 10 * pow10(j as nat),
                ;
            }
            acc = if acc * 10 >= NUMBER_LIMIT {
                NUMBER_LIMIT
            } else {
                acc * 10
            };
            j = j + 1;
        }
        proof {
            if shift > 20 {
                lemma_large_shift(digits@, shift as int);
            }
        }
        acc
    }
}

/// Parse a fixed-point number: an optional sign, then digits with at most
/// one decimal point among or around them and at least one digit, then
/// optionally an exponent, which is `e` or `E`, an optional sign and one
/// or more digits. What falls below a millionth is dropped; a number
/// beyond the fixed-point range is taken as the nearest end of the range.
pub fn parse_fixed(word: &[u8]) -> (r: Option<i64>)
    ensures
        r == fixed_of(word@),
{
    let negative: bool = word.len() > 0 && word[0] == '-' as u8;
    let body: Vec<u8> = strip_sign(word);
    let n: usize = body.len();
    let cut: usize = find_first(body.as_slice(), 'e' as u8, 'E' as u8);
    let mantissa: Vec<u8> = copy_range(body.as_slice(), 0, cut);
    assert(mantissa@ =~= body@.take(cut as int));
    let (digits, after) = match parse_mantissa(mantissa.as_slice()) {
        Some(found) => found,
        None => {
            return None;
        },
    };
    let exponent: i128 = if cut == n {
        0
    } else {
        let part: Vec<u8> = copy_range(body.as_slice(), cut + 1, n);
        assert(part@ =~= body@.skip(cut + 1));
        match parse_exponent(part.as_slice()) {
            Some(e) => e,
            None => {
                return None;
            },
        }
    };
    let shift: i128 = exponent + 6 - after as i128;
    let magnitude: i128 = shift_digits(digits.as_slice(), shift);
    proof {
        let exact: int = if cut == n {
            0
        } else {
            exponent_of(body@.skip(cut + 1))->0
        };
        let exact_shift = exact + 6 - after;
        assert(magnitude_of(body@) == Some(shifted(digits@, exact_shift)));
        if exact >= EXPONENT_LIMIT {
            lemma_large_shift(digits@, exact_shift);
            lemma_large_shift(digits@, shift as int);
        }
    }
    if negative {
        Some(saturate(-magnitude))
    } else {
        Some(saturate(magnitude))
    }
}

/// The word without its sign, if it has one.
fn strip_sign(word: &[u8]) -> (body: Vec<u8>)
    ensures
        body@ == unsigned_part(word@),
{
    let n: usize = word.len();
    let start: usize = if n > 0 && (word[0] == '+' as u8 || word[0] == '-' as u8) {
        1
    } else {
        0
    };
    let mut body: Vec<u8> = Vec::new();
    let mut i: usize = start;
    while i < n
        invariant
            start <= i <= n,
            n == word@.len(),
            body@ == word@.subrange(start as int, i as int),
        decreases n - i,
    {
        body.push(word[i]);
        i = i + 1;
    }
    body
}

/// Whether a word, without its sign, names an infinity.
fn is_infinity(body: &[u8]) -> (r: bool)
    ensures
        r == names_infinity(body@),
{
    proof {
        reveal_strlit("inf");
        reveal_strlit("infinity");
    }
    is_keyword(body, "inf") || is_keyword(body, "infinity")
}

/// Parse a sample: a fixed-point number, or, with an optional sign, `inf`,
/// `infinity` or `nan` in any case.
pub fn parse_sample(word: &[u8]) -> (r: Option<Sample>)
    ensures
        r == sample_of(word@),
{
    let body: Vec<u8> = strip_sign(word);
    proof {
        reveal_strlit("nan");
    }
    if is_infinity(body.as_slice()) || is_keyword(body.as_slice(), "nan") {
        Some(Sample::NonFinite)
    } else {
        match parse_fixed(word) {
            Some(v) => Some(Sample::Finite(v)),
            None => None,
        }
    }
}

/// Parse a word where a number is needed: a fixed-point number, or, in any
/// case and with an optional sign, `inf` or `infinity`, taken as the
/// nearest end of the fixed-point range, or `nan`, taken as zero.
pub fn parse_extended(word: &[u8]) -> (r: Option<i64>)
    ensures
        r == extended_of(word@),
{
    let body: Vec<u8> = strip_sign(word);
    proof {
        reveal_strlit("nan");
    }
    if is_infinity(body.as_slice()) {
        if word.len() > 0 && word[0] == '-' as u8 {
            Some(i64::MIN)
        } else {
            Some(i64::MAX)
        }
    } else if is_keyword(body.as_slice(), "nan") {
        Some(0)
    } else {
        parse_fixed(word)
    }
}

/// The decimal digits of a number, without leading zeros.
pub open spec fn decimal(n: nat) -> Seq<u8>
    decreases n,
{
    if n < 10 {
        seq![(48 + n) as u8]
    } else {
        decimal(n / 10).push((48 + n % 10) as u8)
    }
}

/// The decimal digits of a number are digits, and they write that number.
pub proof fn lemma_decimal_round_trip(n: nat)
    ensures
        decimal(n).len() > 0,
        all_digits(decimal(n)),
        number(decimal(n)) == n,
        n <= usize::MAX ==> unsigned_of(decimal(n), usize::MAX as nat) == Some(n),
    decreases n,
{
    if n < 10 {
        let s = decimal(n);
        assert(s.drop_last() =~= Seq::<u8>::empty());
        assert(number(s.drop_last()) == 0);
    } else {
        lemma_decimal_round_trip(n / 10);
        let s = decimal(n);
        assert(s.drop_last() =~= decimal(n / 10));
        assert forall|i: int| 0 <= i < s.len() implies is_digit(#[trigger] s[i]) by {
            if i < s.len() - 1 {
                assert(s[i] == decimal(n / 10)[i]);
            }
        }
    }
}

/// Append the decimal digits of `n`.
pub fn push_decimal(out: &mut Vec<u8>, n: usize)
    ensures
        final(out)@ == old(out)@ + decimal(n as nat),
    decreases n,
{
    if n >= 10 {
        push_decimal(out, n / 10);
    }
    let digit: u8 = 48 + (n % 10) as u8;
    out.push(digit);
}

} // verus!
