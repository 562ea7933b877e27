//! Decimal numerals: their grammar, their exact value, and the rounding of a
//! gain to a whole percentage.
//!
//! A gain is written as a decimal numeral (`0.45`, `1`, `.5`, `4.5e-1`). Its
//! value is taken exactly, as the rational number that the numeral denotes:
//! no binary fraction stands between the numeral and its percentage. The
//! percentage of a numeral is the nearest integer to a hundred times that
//! number, with halves rounded away from zero, kept within 0 and 100.
//!
//! Numerals of any length are read. The digits are never gathered into one
//! machine number: rounding looks at the digit where the hundredths end.

use vstd::prelude::*;
use vstd::arithmetic::div_mod::{lemma_fundamental_div_mod, lemma_fundamental_div_mod_converse};
use vstd::slice::slice_subrange;
use crate::text::{char_is_digit, chars_of, is_digit};

verus! {

/// Ten to the power `n`.
pub open spec fn pow10(n: nat) -> nat
    decreases n,
{
    if n == 0 {
        1
    } else {
        10 * pow10((n - 1) as nat)
    }
}

/// The number a decimal digit stands for.
pub open spec fn digit_value(c: char) -> nat {
    (c as int - '0' as int) as nat
}

/// Every character of `s` is a decimal digit.
pub open spec fn all_digits(s: Seq<char>) -> bool {
    forall|i: int| 0 <= i < s.len() ==> is_digit(#[trigger] s[i])
}

/// The natural number written by the digits `s`, most significant first.
/// The empty numeral is zero.
pub open spec fn digits_value(s: Seq<char>) -> nat
    decreases s.len(),
{
    if s.len() == 0 {
        0
    } else {
        digits_value(s.drop_last()) * 10 + digit_value(s.last())
    }
}

/// The integer nearest to `num / den`, a half rounding up.
pub open spec fn round_ratio(num: nat, den: nat) -> nat {
    (2 * num + den) / (2 * den)
}

/// A decimal numeral taken apart.
pub struct Decimal {
    /// The numeral starts with a minus sign.
    pub negative: bool,
    /// The digits before the decimal point.
    pub whole: Seq<char>,
    /// The digits after the decimal point.
    pub fraction: Seq<char>,
    /// The power of ten written behind `e`, zero where none is written.
    pub exponent: int,
}

/// A plus or a minus sign.
pub open spec fn is_sign(c: char) -> bool {
    c == '+' || c == '-'
}

/// The letter that opens an exponent.
pub open spec fn is_exponent_mark(c: char) -> bool {
    c == 'e' || c == 'E'
}

/// The first index at or after `from` that holds no digit.
pub open spec fn digit_run_end(s: Seq<char>, from: int) -> int
    decreases s.len() - from,
{
    if 0 <= from < s.len() && is_digit(s[from]) {
        digit_run_end(s, from + 1)
    } else {
        from
    }
}

/// The exponent written from index `from` to the end of `s`: nothing, which
/// stands for zero, or `e` or `E`, an optional sign and at least one digit.
pub open spec fn exponent_part(s: Seq<char>, from: int) -> Option<int> {
    if from == s.len() {
        Some(0)
    } else if is_exponent_mark(s[from]) {
        let f = if from + 1 < s.len() && is_sign(s[from + 1]) { from + 2 } else { from + 1 };
        let g = digit_run_end(s, f);
        if f < g && g == s.len() {
            let size = digits_value(s.subrange(f, g)) as int;
            Some(if f == from + 2 && s[from + 1] == '-' { -size } else { size })
        } else {
            None
        }
    } else {
        None
    }
}

/// Reads `s` as a decimal numeral:
/// an optional sign; digits, with an optional point among, before or after
/// them, and at least one digit in all; then an optional exponent. Nothing
/// may precede or follow.
pub open spec fn numeral(s: Seq<char>) -> Option<Decimal> {
    let a = if s.len() > 0 && is_sign(s[0]) { 1int } else { 0int };
    let b = digit_run_end(s, a);
    let c = if b < s.len() && s[b] == '.' { b + 1 } else { b };
    let d = digit_run_end(s, c);
    let whole = s.subrange(a, b);
    let fraction = s.subrange(c, d);
    if whole.len() + fraction.len() == 0 {
        None
    } else {
        match exponent_part(s, d) {
            Some(exponent) => Some(
                Decimal { negative: a == 1 && s[0] == '-', whole, fraction, exponent },
            ),
            None => None,
        }
    }
}

/// The numerator of the magnitude of `d`, which is
/// `numerator(d) / denominator(d)`: the digits of `d` as one number, times
/// the power of ten that a positive exponent gives.
pub open spec fn numerator(d: Decimal) -> nat {
    digits_value(d.whole + d.fraction) * pow10(
        if d.exponent > 0 {
            d.exponent as nat
        } else {
            0
        },
    )
}

/// The denominator of the magnitude of `d`: one power of ten for each digit
/// behind the point, and those that a negative exponent gives.
pub open spec fn denominator(d: Decimal) -> nat {
    pow10(
        d.fraction.len() + if d.exponent < 0 {
            (-d.exponent) as nat
        } else {
            0
        },
    )
}

/// A hundred times the magnitude of `d`, rounded to the nearest integer, a
/// half rounding up.
pub open spec fn hundredths(d: Decimal) -> nat {
    round_ratio(100 * numerator(d), denominator(d))
}

/// `m` times ten to the power `k`, rounded to the nearest integer, a half
/// rounding up.
pub open spec fn shifted(m: nat, k: int) -> nat {
    if k >= 0 {
        m * pow10(k as nat)
    } else {
        round_ratio(m, pow10((-k) as nat))
    }
}

/// The percentage of the gain `d`: a hundred times its value, rounded to the
/// nearest integer with halves away from zero, and kept within 0 and 100.
pub open spec fn percent(d: Decimal) -> nat {
    if d.negative {
        0
    } else if hundredths(d) > 100 {
        100
    } else {
        hundredths(d)
    }
}

/// The percentage that the token `s` reports, if `s` is a decimal numeral.
pub open spec fn token_gain(s: Seq<char>) -> Option<nat> {
    match numeral(s) {
        Some(d) => Some(percent(d)),
        None => None,
    }
}

/// No power of ten is zero.
pub proof fn lemma_pow10_positive(n: nat)
    ensures
        pow10(n) >= 1,
    decreases n,
{
    if n > 0 {
        lemma_pow10_positive((n - 1) as nat);
    }
}

/// Powers of ten multiply by adding their exponents.
pub proof fn lemma_pow10_sum(a: nat, b: nat)
    ensures
        pow10(a + b) == pow10(a) * pow10(b),
    decreases a,
{
    if a == 0 {
        assert(1 * pow10(b) == pow10(b));
    } else {
        lemma_pow10_sum((a - 1) as nat, b);
        let p = pow10((a - 1) as nat);
        let q = pow10(b);
        assert(10 * (p * q) == (10 * p) * q) by (nonlinear_arith);
    }
}

/// A greater exponent gives no lesser power of ten.
pub proof fn lemma_pow10_monotonic(a: nat, b: nat)
    requires
        a <= b,
    ensures
        pow10(a) <= pow10(b),
    decreases b,
{
    if a < b {
        lemma_pow10_monotonic(a, (b - 1) as nat);
    }
}

/// A numeral of `n` digits is below ten to the `n`.
pub proof fn lemma_digits_value_bound(s: Seq<char>)
    requires
        all_digits(s),
    ensures
        digits_value(s) < pow10(s.len()),
    decreases s.len(),
{
    if s.len() > 0 {
        let front = s.drop_last();
        lemma_digits_value_bound(front);
    }
}

/// Writing `b` behind `a` shifts `a` left by the length of `b`.
pub proof fn lemma_digits_value_concat(a: Seq<char>, b: Seq<char>)
    ensures
        digits_value(a + b) == digits_value(a) * pow10(b.len()) + digits_value(b),
    decreases b.len(),
{
    if b.len() == 0 {
        assert(digits_value(a) * 1 == digits_value(a));
    } else {
        let front = b.drop_last();
        assert((a + b).drop_last() =~= a + front);
        lemma_digits_value_concat(a, front);
        let x = digits_value(a);
        let p = pow10(front.len());
        let y = digits_value(front);
        let d = digit_value(b.last());
        assert((x * p + y) * 10 + d == x * (10 * p) + (y * 10 + d)) by (nonlinear_arith);
    }
}

/// `round_ratio` gives the nearest integer: the ratio lies within a half of
/// it, and an exact half rounds up.
pub proof fn lemma_round_ratio_nearest(num: nat, den: nat)
    requires
        den > 0,
    ensures
        2 * den * round_ratio(num, den) - den <= 2 * num,
        2 * num < 2 * den * round_ratio(num, den) + den,
{
    let x = (2 * num + den) as int;
    let d = (2 * den) as int;
    lemma_fundamental_div_mod(x, d);
}

/// Rounding a numeral at a digit: cut the numeral before digit `q`, and add
/// one if that digit is five or more.
pub proof fn lemma_round_at_digit(s: Seq<char>, q: int)
    requires
        all_digits(s),
        0 <= q < s.len(),
    ensures
        round_ratio(digits_value(s), pow10((s.len() - q) as nat)) == digits_value(s.take(q)) + (if digit_value(
            s[q],
        ) >= 5 {
            1nat
        } else {
            0nat
        }),
{
    let head = s.take(q);
    let tail = s.skip(q);
    let first = seq![s[q]];
    let rest = tail.skip(1);
    assert(s =~= head + tail);
    assert(tail =~= first + rest);
    lemma_digits_value_concat(head, tail);
    lemma_digits_value_concat(first, rest);
    assert(digits_value(first) == digit_value(s[q])) by {
        reveal_with_fuel(digits_value, 2);
    }
    lemma_digits_value_bound(rest);

    let m = digits_value(s) as int;
    let a = digits_value(head) as int;
    let r = digits_value(tail) as int;
    let d = digit_value(s[q]) as int;
    let below = digits_value(rest) as int;
    let lower = pow10(rest.len()) as int;
    let p = pow10(tail.len()) as int;
    let bit: int = if d >= 5 { 1 } else { 0 };
    let rem = 2 * r + p - bit * (2 * p);
    assert(0 <= rem < 2 * p) by (nonlinear_arith)
        requires
            rem == 2 * r + p - bit * (2 * p),
            r == d * lower + below,
            p == 10 * lower,
            0 <= below < lower,
            0 <= d <= 9,
            bit == (if d >= 5 { 1int } else { 0int }),
    ;
    assert(2 * m + p == (a + bit) * (2 * p) + rem) by (nonlinear_arith)
        requires
            m == a * p + r,
            rem == 2 * r + p - bit * (2 * p),
    ;
    lemma_fundamental_div_mod_converse(2 * m + p, 2 * p, a + bit, rem);
}

/// A numeral shifted right past all of its digits, and one place more,
/// rounds to zero.
pub proof fn lemma_round_past_digits(s: Seq<char>, j: nat)
    requires
        all_digits(s),
        j > s.len(),
    ensures
        round_ratio(digits_value(s), pow10(j)) == 0,
{
    lemma_digits_value_bound(s);
    lemma_pow10_monotonic(s.len(), (j - 1) as nat);
    let m = digits_value(s) as int;
    let p = pow10(j) as int;
    lemma_fundamental_div_mod_converse(2 * m + p, 2 * p, 0, 2 * m + p);
}

/// Where a run of digits ends before the end of the text, no digit stands.
pub proof fn lemma_digit_run_stops(s: Seq<char>, from: int)
    requires
        0 <= from <= s.len(),
    ensures
        from <= digit_run_end(s, from) <= s.len(),
        digit_run_end(s, from) < s.len() ==> !is_digit(s[digit_run_end(s, from)]),
    decreases s.len() - from,
{
    if from < s.len() && is_digit(s[from]) {
        lemma_digit_run_stops(s, from + 1);
    }
}

/// A run of digits ends where the digits end.
pub proof fn lemma_digit_run(s: Seq<char>, from: int, to: int)
    requires
        0 <= from <= to <= s.len(),
        forall|i: int| from <= i < to ==> is_digit(#[trigger] s[i]),
        to == s.len() || !is_digit(s[to]),
    ensures
        digit_run_end(s, from) == to,
    decreases to - from,
{
    if from < to {
        lemma_digit_run(s, from + 1, to);
    }
}

/// A ratio keeps its rounding when both of its terms are multiplied alike.
pub proof fn lemma_round_ratio_cancel(num: nat, den: nat, by: nat)
    requires
        den > 0,
        by > 0,
    ensures
        round_ratio(num * by, den * by) == round_ratio(num, den),
{
    let x = (2 * num + den) as int;
    let d = (2 * den) as int;
    lemma_fundamental_div_mod(x, d);
    let q = x / d;
    let r = x % d;
    assert(2 * (num * by) + den * by == q * (2 * (den * by)) + r * by) by (nonlinear_arith)
        requires
            2 * num + den == d * q + r,
            d == 2 * den,
    ;
    assert(0 <= r * by < 2 * (den * by)) by (nonlinear_arith)
        requires
            0 <= r < 2 * den,
            by > 0,
    ;
    lemma_fundamental_div_mod_converse(
        (2 * (num * by) + den * by) as int,
        (2 * (den * by)) as int,
        q,
        r * by,
    );
}

/// A multiple of the denominator rounds to the factor.
pub proof fn lemma_round_ratio_multiple(factor: nat, den: nat)
    requires
        den > 0,
    ensures
        round_ratio(factor * den, den) == factor,
{
    assert(2 * (factor * den) + den == factor * (2 * den) + den) by (nonlinear_arith);
    lemma_fundamental_div_mod_converse(
        (2 * (factor * den) + den) as int,
        (2 * den) as int,
        factor as int,
        den as int,
    );
}

/// The hundredths of a numeral are its digits, shifted by its exponent, by
/// two places for the hundred, and back by one place for each digit behind
/// the point.
pub proof fn lemma_hundredths_by_shift(d: Decimal)
    ensures
        hundredths(d) == shifted(
            digits_value(d.whole + d.fraction),
            d.exponent + 2 - d.fraction.len(),
        ),
{
    let m = digits_value(d.whole + d.fraction);
    let up: nat = if d.exponent > 0 { d.exponent as nat } else { 0 };
    let down: nat = d.fraction.len() + if d.exponent < 0 { (-d.exponent) as nat } else { 0 };
    let k = d.exponent + 2 - d.fraction.len();
    let den = pow10(down);
    lemma_pow10_positive(down);
    lemma_pow10_sum(2, up);
    assert(pow10(2) == 100) by {
        reveal_with_fuel(pow10, 3);
    }
    let raised = pow10(2 + up);
    assert(100 * (m * pow10(up)) == m * raised) by (nonlinear_arith)
        requires
            raised == 100 * pow10(up),
    ;
    if k >= 0 {
        lemma_pow10_sum(k as nat, down);
        assert(m * raised == (m * pow10(k as nat)) * den) by (nonlinear_arith)
            requires
                raised == pow10(k as nat) * den,
        ;
        lemma_round_ratio_multiple(m * pow10(k as nat), den);
    } else {
        lemma_pow10_sum((-k) as nat, 2 + up);
        lemma_round_ratio_cancel(m, pow10((-k) as nat), raised);
    }
}

/// Rounding keeps order: a ratio of at most `bound` rounds to at most `bound`.
pub proof fn lemma_round_ratio_at_most(num: nat, den: nat, bound: nat)
    requires
        den > 0,
        num <= bound * den,
    ensures
        round_ratio(num, den) <= bound,
{
    lemma_round_ratio_nearest(num, den);
    let r = round_ratio(num, den);
    if r > bound {
        assert(2 * den * r >= 2 * den * (bound + 1)) by (nonlinear_arith)
            requires
                r >= bound + 1,
                den > 0,
        ;
        assert(2 * den * (bound + 1) == 2 * (bound * den) + 2 * den) by (nonlinear_arith);
    }
}

/// The numeral `whole.fraction`, written without sign or exponent, is read
/// as those digits, and reports a hundred times its value, rounded, and at
/// most 100.
pub proof fn lemma_plain_numeral(whole: Seq<char>, fraction: Seq<char>)
    requires
        all_digits(whole),
        all_digits(fraction),
        whole.len() + fraction.len() >= 1,
    ensures
        numeral(whole + seq!['.'] + fraction) == Some(
            Decimal { negative: false, whole, fraction, exponent: 0 },
        ),
        token_gain(whole + seq!['.'] + fraction) == Some(
            at_most(round_ratio(100 * digits_value(whole + fraction), pow10(fraction.len())), 100),
        ),
{
    let s = whole + seq!['.'] + fraction;
    let w = whole.len() as int;
    assert(forall|i: int| w + 1 <= i < s.len() ==> is_digit(#[trigger] s[i]));
    lemma_digit_run(s, 0, w);
    lemma_digit_run(s, w + 1, s.len() as int);
    assert(s.subrange(0, w) =~= whole);
    assert(s.subrange(w + 1, s.len() as int) =~= fraction);
    assert(digits_value(whole + fraction) * 1 == digits_value(whole + fraction));
}

/// The greatest cap that `capped_value` counts up to, two to the power 70.
/// An exponent is held exactly where its size is below this limit, and pinned
/// at the limit where it is not: no text is long enough for the difference
/// to reach the hundredths.
pub const EXPONENT_LIMIT: u128 = 0x40_0000_0000_0000_0000;

/// The least of `x` and `cap`.
pub open spec fn at_most(x: nat, cap: nat) -> nat {
    if x < cap {
        x
    } else {
        cap
    }
}

/// The index behind the run of digits that starts at `from`.
pub(crate) fn digits_end(token: &[char], from: usize) -> (end: usize)
    requires
        from <= token@.len(),
    ensures
        end == digit_run_end(token@, from as int),
        from <= end <= token@.len(),
        all_digits(token@.subrange(from as int, end as int)),
{
    let mut i = from;
    while i < token.len() && char_is_digit(token[i])
        invariant
            from <= i <= token@.len(),
            digit_run_end(token@, from as int) == digit_run_end(token@, i as int),
            forall|j: int| from <= j < i ==> is_digit(#[trigger] token@[j]),
        decreases token@.len() - i,
    {
        i += 1;
    }
    i
}

/// The value of the digits `digits`, or `cap` if that is less.
pub(crate) fn capped_value(digits: &[char], cap: u128) -> (value: u128)
    requires
        all_digits(digits@),
        cap <= EXPONENT_LIMIT,
    ensures
        value == at_most(digits_value(digits@), cap as nat),
{
    let mut value: u128 = 0;
    let mut i: usize = 0;
    while i < digits.len()
        invariant
            i <= digits@.len(),
            all_digits(digits@),
            cap <= EXPONENT_LIMIT,
            value == at_most(digits_value(digits@.take(i as int)), cap as nat),
        decreases digits@.len() - i,
    {
        let c = digits[i];
        proof {
            assert(digits@.take(i + 1).drop_last() =~= digits@.take(i as int));
        }
        let d: u128 = (c as u32 - '0' as u32) as u128;
        let next = value * 10 + d;
        value = if next < cap { next } else { cap };
        i += 1;
    }
    proof {
        assert(digits@.take(i as int) =~= digits@);
    }
    value
}

/// A numeral as the machine holds it while rounding.
struct Parts {
    negative: bool,
    /// The digits before and after the point, in one run.
    mantissa: Vec<char>,
    fraction_len: usize,
    exponent: i128,
}

impl Parts {
    /// `self` holds the numeral `d`, its exponent pinned at the limit.
    spec fn holds(&self, d: Decimal) -> bool {
        &&& self.negative == d.negative
        &&& self.mantissa@ == d.whole + d.fraction
        &&& self.fraction_len == d.fraction.len()
        &&& all_digits(self.mantissa@)
        &&& self.mantissa@.len() >= 1
        &&& pinned(self.exponent as int, d.exponent)
    }
}

/// `held` is `exact`, or pinned at the limit on the side where `exact` lies
/// beyond it.
spec fn pinned(held: int, exact: int) -> bool {
    &&& -EXPONENT_LIMIT <= held <= EXPONENT_LIMIT
    &&& {
        ||| held == exact
        ||| held == EXPONENT_LIMIT && exact >= EXPONENT_LIMIT
        ||| held == -EXPONENT_LIMIT && exact <= -EXPONENT_LIMIT
    }
}

/// Reads the exponent written from index `from` to the end of the token.
fn read_exponent(token: &[char], from: usize) -> (exponent: Option<i128>)
    requires
        from <= token@.len(),
    ensures
        match exponent {
            Some(e) => exponent_part(token@, from as int) matches Some(exact) && pinned(
                e as int,
                exact,
            ),
            None => exponent_part(token@, from as int) is None,
        },
{
    let n = token.len();
    if from == n {
        return Some(0);
    }
    if !(token[from] == 'e' || token[from] == 'E') {
        return None;
    }
    let signed = from + 1 < n && (token[from + 1] == '+' || token[from + 1] == '-');
    let f = if signed { from + 2 } else { from + 1 };
    let g = digits_end(token, f);
    if !(f < g && g == n) {
        return None;
    }
    let size = capped_value(slice_subrange(token, f, g), EXPONENT_LIMIT);
    if signed && token[from + 1] == '-' {
        Some(-(size as i128))
    } else {
        Some(size as i128)
    }
}

/// The digits of `token` in `[a, b)` followed by those in `[c, d)`.
fn join_digits(token: &[char], a: usize, b: usize, c: usize, d: usize) -> (digits: Vec<char>)
    requires
        a <= b <= c <= d <= token@.len(),
        all_digits(token@.subrange(a as int, b as int)),
        all_digits(token@.subrange(c as int, d as int)),
    ensures
        digits@ == token@.subrange(a as int, b as int) + token@.subrange(c as int, d as int),
        all_digits(digits@),
{
    let mut digits: Vec<char> = Vec::new();
    let mut i = a;
    while i < b
        invariant
            a <= i <= b <= token@.len(),
            digits@ == token@.subrange(a as int, i as int),
        decreases b - i,
    {
        digits.push(token[i]);
        i += 1;
    }
    let mut j = c;
    while j < d
        invariant
            c <= j <= d <= token@.len(),
            a <= b <= token@.len(),
            digits@ == token@.subrange(a as int, b as int) + token@.subrange(c as int, j as int),
        decreases d - j,
    {
        digits.push(token[j]);
        j += 1;
    }
    digits
}

/// Takes the token apart along the grammar of `numeral`.
fn take_apart(token: &[char]) -> (parts: Option<Parts>)
    ensures
        match parts {
            Some(p) => numeral(token@) matches Some(d) && p.holds(d),
            None => numeral(token@) is None,
        },
{
    let n = token.len();
    let signed = n > 0 && (token[0] == '+' || token[0] == '-');
    let negative = signed && token[0] == '-';
    let a: usize = if signed { 1 } else { 0 };
    let b = digits_end(token, a);
    let c = if b < n && token[b] == '.' { b + 1 } else { b };
    let d = digits_end(token, c);
    if (b - a) + (d - c) == 0 {
        return None;
    }
    match read_exponent(token, d) {
        Some(exponent) => {
            let mantissa = join_digits(token, a, b, c, d);
            Some(Parts { negative, mantissa, fraction_len: d - c, exponent })
        },
        None => None,
    }
}

/// The percentage of the numeral that `parts` holds.
///
/// The hundredths are the digits of the numeral shifted by `k` places. For a
/// shift to the left the digits are counted up to a cap that lies beyond any
/// percentage. For a shift to the right the digits before the cut are
/// counted in the same way, and the first digit behind the cut decides the
/// rounding.
fn round_percent(parts: &Parts, Ghost(d): Ghost<Decimal>) -> (p: u8)
    requires
        parts.holds(d),
    ensures
        p == percent(d),
{
    if parts.negative {
        return 0;
    }
    let digits = parts.mantissa.as_slice();
    let n = digits.len();
    let k: i128 = parts.exponent + 2 - parts.fraction_len as i128;
    let ghost m = digits_value(digits@);
    let ghost shift = d.exponent + 2 - d.fraction.len();
    proof {
        lemma_hundredths_by_shift(d);
        assert(pow10(0) == 1 && pow10(1) == 10 && pow10(2) == 100 && pow10(3) == 1000) by {
            reveal_with_fuel(pow10, 4);
        }
    }
    if k >= 0 {
        let value = capped_value(digits, 1000);
        if value == 0 {
            proof {
                assert(m * pow10(shift as nat) == 0) by (nonlinear_arith)
                    requires
                        m == 0,
                ;
            }
            0
        } else if k >= 3 {
            proof {
                lemma_pow10_monotonic(3, shift as nat);
                assert(m * pow10(shift as nat) >= 1000) by (nonlinear_arith)
                    requires
                        m >= 1,
                        pow10(shift as nat) >= 1000,
                ;
            }
            100
        } else {
            let unit: u128 = if k == 0 { 1 } else if k == 1 { 10 } else { 100 };
            let scaled = value * unit;
            proof {
                if m >= 1000 {
                    assert(m * pow10(shift as nat) >= 1000) by (nonlinear_arith)
                        requires
                            m >= 1000,
                            pow10(shift as nat) >= 1,
                    ;
                }
            }
            if scaled > 100 { 100 } else { scaled as u8 }
        }
    } else {
        let q: i128 = n as i128 + k;
        if q < 0 {
            proof {
                lemma_round_past_digits(digits@, (-shift) as nat);
            }
            0
        } else {
            let cut = q as usize;
            let head = capped_value(slice_subrange(digits, 0, cut), 1000);
            let up: u128 = if digits[cut] >= '5' { 1 } else { 0 };
            proof {
                lemma_round_at_digit(digits@, cut as int);
            }
            if head + up > 100 { 100 } else { (head + up) as u8 }
        }
    }
}

/// The percentage that `token` reports, if it is a decimal numeral.
pub(crate) fn gain_of_token(token: &[char]) -> (gain: Option<u8>)
    ensures
        match gain {
            Some(p) => token_gain(token@) == Some(p as nat),
            None => token_gain(token@) is None,
        },
{
    match take_apart(token) {
        Some(parts) => Some(round_percent(&parts, Ghost(numeral(token@)->0))),
        None => None,
    }
}

/// Reads `token` as a gain: its percentage, if it is a decimal numeral.
pub fn parse_gain(token: &str) -> (gain: Option<u8>)
    ensures
        match gain {
            Some(p) => token_gain(token@) == Some(p as nat),
            None => token_gain(token@) is None,
        },
{
    let chars = chars_of(token);
    gain_of_token(chars.as_slice())
}

/// The character that writes the digit `d`.
pub open spec fn digit_char(d: nat) -> char {
    if d == 0 {
        '0'
    } else if d == 1 {
        '1'
    } else if d == 2 {
        '2'
    } else if d == 3 {
        '3'
    } else if d == 4 {
        '4'
    } else if d == 5 {
        '5'
    } else if d == 6 {
        '6'
    } else if d == 7 {
        '7'
    } else if d == 8 {
        '8'
    } else {
        '9'
    }
}

/// The decimal numeral of `n`: its digits, most significant first, with no
/// leading zero but for zero itself.
pub open spec fn decimal_digits(n: nat) -> Seq<char>
    decreases n,
{
    if n < 10 {
        seq![digit_char(n)]
    } else {
        decimal_digits(n / 10).push(digit_char(n % 10))
    }
}

/// `decimal_digits` writes `n`: its digits read back as `n`, and the first
/// of them is no zero unless `n` is zero.
pub proof fn lemma_decimal_digits(n: nat)
    ensures
        decimal_digits(n).len() >= 1,
        all_digits(decimal_digits(n)),
        digits_value(decimal_digits(n)) == n,
        n > 0 ==> decimal_digits(n)[0] != '0',
    decreases n,
{
    if n < 10 {
        reveal_with_fuel(digits_value, 2);
    } else {
        let front = decimal_digits(n / 10);
        lemma_decimal_digits(n / 10);
        let s = front.push(digit_char(n % 10));
        assert(s.drop_last() =~= front);
    }
}

/// The text of one digit.
fn digit_text(d: u32) -> (text: &'static str)
    requires
        d < 10,
    ensures
        text@ == seq![digit_char(d as nat)],
{
    proof {
        reveal_strlit("0");
        reveal_strlit("1");
        reveal_strlit("2");
        reveal_strlit("3");
        reveal_strlit("4");
        reveal_strlit("5");
        reveal_strlit("6");
        reveal_strlit("7");
        reveal_strlit("8");
        reveal_strlit("9");
    }
    let text = if d == 0 {
        "0"
    } else if d == 1 {
        "1"
    } else if d == 2 {
        "2"
    } else if d == 3 {
        "3"
    } else if d == 4 {
        "4"
    } else if d == 5 {
        "5"
    } else if d == 6 {
        "6"
    } else if d == 7 {
        "7"
    } else if d == 8 {
        "8"
    } else {
        "9"
    };
    text
}

/// Writes `n` in decimal.
pub fn render_decimal(n: u32) -> (text: String)
    ensures
        text@ == decimal_digits(n as nat),
    decreases n,
{
    if n < 10 {
        String::from_str(digit_text(n))
    } else {
        let mut text = render_decimal(n / 10);
        text.append(digit_text(n % 10));
        text
    }
}

} // verus!
