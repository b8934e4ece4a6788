//! Decimal numbers as integers. Fractional quantities (times in seconds,
//! scores, rates) are held as whole millionths; this module reads them from
//! decimal text and writes them back.

use vstd::prelude::*;
use vstd::arithmetic::power::pow;
use crate::text::{chars_of, decimal, decimal_text, digit_char, digit_text, join};

verus! {

/// `c` is one of `0` to `9`.
pub open spec fn is_digit(c: char) -> bool {
    48 <= c as u32 <= 57
}

/// The value of the digit `c`.
pub open spec fn digit_value(c: char) -> nat {
    (c as u32 - 48) as nat
}

/// The number that results from writing the digits `digits` behind the
/// number `start`.
pub open spec fn append_digits(start: nat, digits: Seq<char>) -> nat
    decreases digits.len(),
{
    if digits.len() == 0 {
        start
    } else {
        append_digits(start, digits.drop_last()) * 10 + digit_value(digits.last())
    }
}

/// The number that the digits `digits` spell.
pub open spec fn digits_value(digits: Seq<char>) -> nat {
    append_digits(0, digits)
}

/// Where the run of digits that starts at `from` ends.
pub open spec fn digit_run_end(text: Seq<char>, from: int) -> int
    decreases text.len() - from,
{
    if 0 <= from < text.len() && is_digit(text[from]) {
        digit_run_end(text, from + 1)
    } else {
        from
    }
}

/// Where the parts of a decimal literal stand in a text.
pub struct Layout {
    /// The text starts with a minus sign.
    pub negative: bool,
    /// Where the digits before the point start and end.
    pub whole_start: int,
    pub whole_end: int,
    /// Where the digits behind the point start and end.
    pub part_start: int,
    pub part_end: int,
    /// An `e` or `E` follows the digits.
    pub powered: bool,
    /// The exponent starts with a minus sign.
    pub power_negative: bool,
    /// Where the digits of the exponent start and end.
    pub power_start: int,
    pub power_end: int,
}

/// Where the parts of a decimal literal would stand in `text`: an optional
/// sign, a run of digits, an optional point with a run of digits behind it,
/// and an optional `e` or `E` with an optional sign and a run of digits.
pub open spec fn layout(text: Seq<char>) -> Layout {
    let signed = text.len() > 0 && (text[0] == '-' || text[0] == '+');
    let whole_start: int = if signed { 1 } else { 0 };
    let whole_end = digit_run_end(text, whole_start);
    let pointed = whole_end < text.len() && text[whole_end] == '.';
    let part_start = if pointed { whole_end + 1 } else { whole_end };
    let part_end = if pointed { digit_run_end(text, part_start) } else { whole_end };
    let powered = part_end < text.len() && (text[part_end] == 'e' || text[part_end] == 'E');
    let power_signed = powered && part_end + 1 < text.len() && (text[part_end + 1] == '-'
        || text[part_end + 1] == '+');
    let power_start = if power_signed { part_end + 2 } else if powered { part_end + 1 } else {
        part_end
    };
    let power_end = if powered { digit_run_end(text, power_start) } else { part_end };
    Layout {
        negative: signed && text[0] == '-',
        whole_start,
        whole_end,
        part_start,
        part_end,
        powered,
        power_negative: power_signed && text[part_end + 1] == '-',
        power_start,
        power_end,
    }
}

/// The parts make up all of `text`, with at least one digit before or behind
/// the point, and at least one in the exponent if there is one.
pub open spec fn is_literal(text: Seq<char>) -> bool {
    let found = layout(text);
    (found.whole_end - found.whole_start) + (found.part_end - found.part_start) > 0 && (
    found.powered ==> found.power_end > found.power_start) && found.power_end == text.len()
}

/// A decimal literal taken apart.
pub struct Literal {
    /// The literal starts with a minus sign.
    pub negative: bool,
    /// The digits before the point, followed by those behind it.
    pub digits: Seq<char>,
    /// How many of `digits` stood behind the point.
    pub scale: nat,
    /// The power of ten behind `e`, or 0.
    pub exponent: int,
}

/// Takes apart a decimal literal: an optional sign, digits with an optional
/// point among them (at least one digit in all), and an optional exponent
/// (`e` or `E`, an optional sign, at least one digit). `None` for any other
/// text. There is no bound on how many digits a literal has.
pub open spec fn literal(text: Seq<char>) -> Option<Literal> {
    let found = layout(text);
    let power = digits_value(text.subrange(found.power_start, found.power_end)) as int;
    if is_literal(text) {
        Some(
            Literal {
                negative: found.negative,
                digits: text.subrange(found.whole_start, found.whole_end) + text.subrange(
                    found.part_start,
                    found.part_end,
                ),
                scale: (found.part_end - found.part_start) as nat,
                exponent: if found.power_negative { -power } else { power },
            },
        )
    } else {
        None
    }
}

/// The number that `literal` stands for, in millionths, rounded down to a
/// whole one.
pub open spec fn millionths(literal: Literal) -> int {
    shifted(
        literal.negative,
        digits_value(literal.digits),
        literal.exponent - literal.scale + 6,
    )
}

/// Plus or minus `magnitude` times ten to the power of `shift`, rounded down
/// to a whole number.
pub open spec fn shifted(negative: bool, magnitude: nat, shift: int) -> int {
    let signed = if negative { -(magnitude as int) } else { magnitude as int };
    if shift >= 0 {
        signed * pow(10, shift as nat)
    } else {
        signed / pow(10, (-shift) as nat)
    }
}

/// `value`, or the nearest 64-bit number where it is out of range.
pub open spec fn clip(value: int) -> i64 {
    if value > i64::MAX {
        i64::MAX
    } else if value < i64::MIN {
        i64::MIN
    } else {
        value as i64
    }
}

/// What `parse_decimal` makes of `text`.
pub open spec fn decimal_millionths(text: Seq<char>) -> Option<i64> {
    match literal(text) {
        Some(parts) => Some(clip(millionths(parts))),
        None => None,
    }
}

/// What `parse_unsigned` makes of `text`: the number that it spells, if it is
/// nothing but digits behind an optional plus sign and the number has 64
/// bits. Zeros at the start count for nothing.
pub open spec fn unsigned_value(text: Seq<char>) -> Option<u64> {
    let start: int = if text.len() > 0 && text[0] == '+' { 1 } else { 0 };
    if start < text.len() && digit_run_end(text, start) == text.len() && digits_value(
        text.subrange(start, text.len() as int),
    ) <= u64::MAX {
        Some(digits_value(text.subrange(start, text.len() as int)) as u64)
    } else {
        None
    }
}

/// Every member of `digits` is a digit.
pub open spec fn all_digits(digits: Seq<char>) -> bool {
    forall|i: int| 0 <= i < digits.len() ==> is_digit(#[trigger] digits[i])
}

/// Some member of `digits` from place `from` on is a digit other than zero.
pub open spec fn any_nonzero_from(digits: Seq<char>, from: int) -> bool {
    exists|i: int| from <= i < digits.len() && digit_value(#[trigger] digits[i]) != 0
}

/// How many of `length` digits stay when the last `drop` are dropped.
pub open spec fn kept(length: nat, drop: nat) -> int {
    if drop >= length {
        0
    } else {
        length - drop
    }
}

/// Ten to the power of 38, which fits into 128 bits.
proof fn lemma_pow10_38()
    ensures
        pow(10, 38) == 100000000000000000000000000000000000000int,
        pow(10, 38) < u128::MAX,
{
    reveal_with_fuel(pow, 39);
}

/// The next power of ten is ten times the one before.
proof fn lemma_pow10_step(e: nat)
    ensures
        pow(10, e + 1) == 10 * pow(10, e),
        pow(10, e) > 0,
{
    reveal_with_fuel(pow, 2);
    vstd::arithmetic::power::lemma_pow_positive(10, e);
}

/// Dividing by a power of ten drops digits at the end: the quotient is what
/// the digits that stay spell, and something is left over if and only if one
/// of the dropped digits is not zero.
proof fn lemma_cut(digits: Seq<char>, drop: nat)
    requires
        all_digits(digits),
    ensures
        digits_value(digits) as int / pow(10, drop) == digits_value(
            digits.take(kept(digits.len(), drop)),
        ),
        (digits_value(digits) as int % pow(10, drop) != 0) <==> any_nonzero_from(
            digits,
            kept(digits.len(), drop),
        ),
    decreases drop,
{
    let keep = kept(digits.len(), drop);
    let x = digits_value(digits) as int;
    reveal_with_fuel(pow, 1);
    vstd::arithmetic::power::lemma_pow_positive(10, drop);
    if drop == 0 {
        assert(digits.take(keep) =~= digits);
        assert(pow(10, 0) == 1);
    } else if digits.len() == 0 {
        assert(digits.take(keep) =~= digits);
        vstd::arithmetic::div_mod::lemma_basic_div(0, pow(10, drop));
        vstd::arithmetic::div_mod::lemma_small_mod(0, pow(10, drop) as nat);
    } else {
        let rest = digits.drop_last();
        let last = digits.last();
        let d = digit_value(last) as int;
        let y = digits_value(rest) as int;
        let p = pow(10, (drop - 1) as nat);
        assert(is_digit(digits[digits.len() - 1]));
        assert(all_digits(rest)) by {
            assert forall|i: int| 0 <= i < rest.len() implies is_digit(#[trigger] rest[i]) by {
                assert(rest[i] == digits[i]);
            }
        }
        lemma_cut(rest, (drop - 1) as nat);
        lemma_pow10_step((drop - 1) as nat);
        assert(x == y * 10 + d);
        assert(0 <= d < 10);
        vstd::arithmetic::div_mod::lemma_fundamental_div_mod_converse(x, 10, y, d);
        vstd::arithmetic::div_mod::lemma_div_denominator(x, 10, p);
        vstd::arithmetic::div_mod::lemma_mod_breakdown(x, 10, p);
        vstd::arithmetic::div_mod::lemma_mod_bound(y, p);
        assert(kept(rest.len(), (drop - 1) as nat) == keep);
        assert(rest.take(keep) =~= digits.take(keep));
        assert(10 * p == pow(10, drop));
        assert(any_nonzero_from(digits, keep) <==> (d != 0 || any_nonzero_from(rest, keep))) by {
            if any_nonzero_from(digits, keep) {
                let i = choose|i: int|
                    keep <= i < digits.len() && digit_value(#[trigger] digits[i]) != 0;
                if i < rest.len() {
                    assert(rest[i] == digits[i]);
                }
            }
            if any_nonzero_from(rest, keep) {
                let i = choose|i: int|
                    keep <= i < rest.len() && digit_value(#[trigger] rest[i]) != 0;
                assert(digits[i] == rest[i]);
            }
            if d != 0 {
                assert(digit_value(digits[digits.len() - 1]) != 0);
            }
        }
    }
}

/// As far as numbers are added up digit by digit: ten to the power of 20,
/// which is more than any 64-bit number and more than any text has
/// characters.
pub const CAP: u128 = 100000000000000000000;

/// Where the run of digits of `text` that starts at `from` ends.
fn run_end(text: &Vec<char>, from: usize) -> (end: usize)
    requires
        from <= text@.len(),
    ensures
        end == digit_run_end(text@, from as int),
        from <= end <= text@.len(),
        forall|k: int| from <= k < end ==> is_digit(#[trigger] text@[k]),
{
    let n = text.len();
    let mut i = from;
    while i < n && 48 <= text[i] as u32 && text[i] as u32 <= 57
        invariant
            n == text@.len(),
            from <= i <= n,
            digit_run_end(text@, from as int) == digit_run_end(text@, i as int),
            forall|k: int| from <= k < i ==> is_digit(#[trigger] text@[k]),
        decreases n - i,
    {
        i = i + 1;
    }
    i
}

/// The number that the digits `from..to` of `text` spell, as long as it is not
/// above `CAP`; the flag says that it is.
fn capped_value(text: &Vec<char>, from: usize, to: usize) -> (found: (u128, bool))
    requires
        from <= to <= text@.len(),
        forall|k: int| from <= k < to ==> is_digit(#[trigger] text@[k]),
    ensures
        found.1 <==> digits_value(text@.subrange(from as int, to as int)) > CAP,
        !found.1 ==> found.0 == digits_value(text@.subrange(from as int, to as int)),
{
    let mut value: u128 = 0;
    let mut beyond = false;
    let mut i = from;
    assert(text@.subrange(from as int, from as int) =~= Seq::<char>::empty());
    while i < to
        invariant
            from <= i <= to <= text@.len(),
            forall|k: int| from <= k < to ==> is_digit(#[trigger] text@[k]),
            beyond <==> digits_value(text@.subrange(from as int, i as int)) > CAP,
            !beyond ==> value == digits_value(text@.subrange(from as int, i as int)),
        decreases to - i,
    {
        proof {
            assert(text@.subrange(from as int, i + 1).drop_last() =~= text@.subrange(
                from as int,
                i as int,
            ));
            assert(text@.subrange(from as int, i + 1).last() == text@[i as int]);
            assert(is_digit(text@[i as int]));
        }
        if !beyond {
            value = value * 10 + (text[i] as u32 - 48) as u128;
            if value > CAP {
                beyond = true;
            }
        }
        i = i + 1;
    }
    (value, beyond)
}

/// Reads a whole number without sign or with a plus sign. `None` unless the
/// text is nothing but digits and spells a number of 64 bits.
pub fn parse_unsigned(text: &str) -> (value: Option<u64>)
    ensures
        value == unsigned_value(text@),
{
    let chars = chars_of(text);
    let n = chars.len();
    if n == 0 {
        return None;
    }
    let start: usize = if chars[0] == '+' { 1 } else { 0 };
    let end = run_end(&chars, start);
    if start < n && end == n {
        let (value, beyond) = capped_value(&chars, start, n);
        if !beyond && value <= u64::MAX as u128 {
            Some(value as u64)
        } else {
            None
        }
    } else {
        None
    }
}

/// Two to the power of 63: the first magnitude that no 64-bit number has on
/// the positive side.
pub const LIMIT: u128 = 9223372036854775808;

/// `mantissa` times ten to the power of `shift`, as far as it stays within
/// `LIMIT`; the flag says that it does not.
fn scale_up(mantissa: u128, shift: u128) -> (scaled: (u128, bool))
    requires
        mantissa < pow(10, 38),
    ensures
        scaled.1 <==> mantissa * pow(10, shift as nat) > LIMIT,
        !scaled.1 ==> scaled.0 == mantissa * pow(10, shift as nat),
{
    proof {
        lemma_pow10_38();
        lemma_pow10_step(0);
        reveal_with_fuel(pow, 1);
    }
    if mantissa == 0 {
        assert(mantissa * pow(10, shift as nat) == 0) by (nonlinear_arith)
            requires
                mantissa == 0,
        ;
        return (0, false);
    }
    let mut value = mantissa;
    let mut steps: u128 = 0;
    assert(mantissa * pow(10, 0) == mantissa) by (nonlinear_arith)
        requires
            pow(10, 0) == 1,
    ;
    while steps < shift && value <= LIMIT
        invariant
            steps <= shift,
            1 <= value,
            value == mantissa * pow(10, steps as nat),
            value < pow(10, 38),
            pow(10, 38) == 100000000000000000000000000000000000000int,
        decreases shift - steps,
    {
        proof {
            lemma_pow10_step(steps as nat);
            assert(mantissa * (10 * pow(10, steps as nat)) == 10 * (mantissa * pow(10, steps as nat)))
                by (nonlinear_arith);
        }
        value = value * 10;
        steps = steps + 1;
    }
    proof {
        let rest = (shift - steps) as nat;
        vstd::arithmetic::power::lemma_pow_adds(10, steps as nat, rest);
        vstd::arithmetic::power::lemma_pow_positive(10, rest);
        assert(mantissa * pow(10, shift as nat) == value * pow(10, rest)) by (nonlinear_arith)
            requires
                value == mantissa * pow(10, steps as nat),
                pow(10, shift as nat) == pow(10, steps as nat) * pow(10, rest),
        ;
        if steps < shift {
            assert(value * pow(10, rest) >= value) by (nonlinear_arith)
                requires
                    value >= 1,
                    pow(10, rest) >= 1,
            ;
        } else {
            assert(value * pow(10, rest) == value) by (nonlinear_arith)
                requires
                    pow(10, rest) == 1,
            ;
        }
    }
    (value, value > LIMIT)
}

/// Rounding down the quotient of a negative number.
proof fn lemma_floor_of_negative(m: int, d: int)
    requires
        0 <= m,
        0 < d,
    ensures
        (-m) / d == -(m / d) - if m % d != 0 {
            1int
        } else {
            0int
        },
{
    vstd::arithmetic::div_mod::lemma_fundamental_div_mod(m, d);
    vstd::arithmetic::div_mod::lemma_mod_bound(m, d);
    let q = m / d;
    let r = m % d;
    if r == 0 {
        assert(-m == (-q) * d + 0) by (nonlinear_arith)
            requires
                m == d * q + r,
                r == 0,
        ;
        vstd::arithmetic::div_mod::lemma_fundamental_div_mod_converse(-m, d, -q, 0);
    } else {
        assert(-m == (-q - 1) * d + (d - r)) by (nonlinear_arith)
            requires
                m == d * q + r,
        ;
        vstd::arithmetic::div_mod::lemma_fundamental_div_mod_converse(-m, d, -q - 1, d - r);
    }
}

/// Where the parts of a literal were found.
struct Found {
    negative: bool,
    whole_start: usize,
    whole_end: usize,
    part_start: usize,
    part_end: usize,
    powered: bool,
    power_negative: bool,
    power_start: usize,
    power_end: usize,
}

impl Found {
    /// What was found is the layout of `text`.
    spec fn fits(self, text: Seq<char>) -> bool {
        &&& layout(text) == (Layout {
            negative: self.negative,
            whole_start: self.whole_start as int,
            whole_end: self.whole_end as int,
            part_start: self.part_start as int,
            part_end: self.part_end as int,
            powered: self.powered,
            power_negative: self.power_negative,
            power_start: self.power_start as int,
            power_end: self.power_end as int,
        })
        &&& self.whole_start <= self.whole_end <= self.part_start <= self.part_end
            <= self.power_start
        &&& self.power_end <= text.len()
        &&& self.power_start <= text.len()
        &&& self.powered ==> self.power_start <= self.power_end
        &&& forall|k: int| self.whole_start <= k < self.whole_end ==> is_digit(#[trigger] text[k])
        &&& forall|k: int| self.part_start <= k < self.part_end ==> is_digit(#[trigger] text[k])
        &&& forall|k: int| self.power_start <= k < self.power_end ==> is_digit(#[trigger] text[k])
    }
}

/// Finds the parts of a literal in `text`.
fn scan_layout(text: &Vec<char>) -> (found: Found)
    ensures
        found.fits(text@),
{
    let n = text.len();
    let mut negative = false;
    let mut whole_start: usize = 0;
    if n > 0 {
        if text[0] == '-' {
            negative = true;
            whole_start = 1;
        } else if text[0] == '+' {
            whole_start = 1;
        }
    }
    let whole_end = run_end(text, whole_start);
    let pointed = whole_end < n && text[whole_end] == '.';
    let part_start = if pointed { whole_end + 1 } else { whole_end };
    let part_end = if pointed { run_end(text, part_start) } else { whole_end };
    let powered = part_end < n && (text[part_end] == 'e' || text[part_end] == 'E');
    let mut power_negative = false;
    let mut power_start = part_end;
    if powered {
        power_start = part_end + 1;
        if power_start < n {
            if text[power_start] == '-' {
                power_negative = true;
                power_start = power_start + 1;
            } else if text[power_start] == '+' {
                power_start = power_start + 1;
            }
        }
    }
    let power_end = if powered { run_end(text, power_start) } else { part_end };
    Found {
        negative,
        whole_start,
        whole_end,
        part_start,
        part_end,
        powered,
        power_negative,
        power_start,
        power_end,
    }
}

/// The digits before the point, followed by those behind it.
fn mantissa_digits(text: &Vec<char>, found: &Found) -> (digits: Vec<char>)
    requires
        found.fits(text@),
    ensures
        digits@ == text@.subrange(found.whole_start as int, found.whole_end as int)
            + text@.subrange(found.part_start as int, found.part_end as int),
        all_digits(digits@),
{
    let mut digits: Vec<char> = Vec::new();
    let mut i = found.whole_start;
    while i < found.whole_end
        invariant
            found.fits(text@),
            found.whole_start <= i <= found.whole_end,
            digits@ == text@.subrange(found.whole_start as int, i as int),
        decreases found.whole_end - i,
    {
        digits.push(text[i]);
        assert(digits@ =~= text@.subrange(found.whole_start as int, i + 1));
        i = i + 1;
    }
    let ghost whole = digits@;
    let mut j = found.part_start;
    assert(digits@ =~= whole + text@.subrange(found.part_start as int, j as int));
    while j < found.part_end
        invariant
            found.fits(text@),
            found.part_start <= j <= found.part_end,
            digits@ == whole + text@.subrange(found.part_start as int, j as int),
        decreases found.part_end - j,
    {
        digits.push(text[j]);
        assert(digits@ =~= whole + text@.subrange(found.part_start as int, j + 1));
        j = j + 1;
    }
    digits
}

/// Whether some digit from place `from` on is not zero.
fn any_nonzero(digits: &Vec<char>, from: usize) -> (found: bool)
    requires
        from <= digits@.len(),
        all_digits(digits@),
    ensures
        found == any_nonzero_from(digits@, from as int),
{
    let n = digits.len();
    let mut i = from;
    while i < n
        invariant
            n == digits@.len(),
            from <= i <= n,
            all_digits(digits@),
            forall|k: int| from <= k < i ==> digit_value(#[trigger] digits@[k]) == 0,
        decreases n - i,
    {
        assert(is_digit(digits@[i as int]));
        if digits[i] as u32 != 48 {
            return true;
        }
        i = i + 1;
    }
    false
}

/// Plus or minus the number that `digits` spell, times ten to the power of
/// `exact`, rounded down and held to the 64-bit range. `shift` is `exact`, or
/// stands for it where `exact` is so far out that it makes no difference: at
/// 40 or above, or so far below zero that no digit stays.
fn settle(negative: bool, digits: &Vec<char>, shift: i128, Ghost(exact): Ghost<int>) -> (value:
    i64)
    requires
        all_digits(digits@),
        digits@.len() > 0,
        i128::MIN < shift,
        exact == shift || (shift >= 40 && exact >= shift) || (shift <= -digits@.len()
            && exact <= shift),
    ensures
        value == clip(shifted(negative, digits_value(digits@), exact)),
{
    let n = digits.len();
    let ghost magnitude = digits_value(digits@) as int;
    proof {
        lemma_pow10_38();
        assert(digits@.subrange(0, n as int) =~= digits@);
    }
    if shift >= 0 {
        let (found, beyond) = capped_value(digits, 0, n);
        let ghost power = pow(10, exact as nat);
        proof {
            vstd::arithmetic::power::lemma_pow_positive(10, exact as nat);
            assert((-magnitude) * power == -(magnitude * power)) by (nonlinear_arith);
            assert(magnitude * power >= magnitude) by (nonlinear_arith)
                requires
                    magnitude >= 0,
                    power >= 1,
            ;
        }
        if beyond {
            return if negative { i64::MIN } else { i64::MAX };
        }
        let steps: u128 = if shift > 40 { 40 } else { shift as u128 };
        let (scaled, over) = scale_up(found, steps);
        proof {
            if exact != steps {
                vstd::arithmetic::power::lemma_pow_increases(10, 38, 40);
                vstd::arithmetic::power::lemma_pow_increases(10, 40, exact as nat);
                let forty = pow(10, 40);
                if magnitude > 0 {
                    assert(magnitude * forty > LIMIT) by (nonlinear_arith)
                        requires
                            magnitude >= 1,
                            forty > LIMIT,
                    ;
                    assert(magnitude * power > LIMIT) by (nonlinear_arith)
                        requires
                            magnitude >= 1,
                            power > LIMIT,
                    ;
                } else {
                    assert(magnitude * forty == 0) by (nonlinear_arith)
                        requires
                            magnitude == 0,
                    ;
                    assert(magnitude * power == 0) by (nonlinear_arith)
                        requires
                            magnitude == 0,
                    ;
                }
            }
        }
        if negative {
            if over {
                i64::MIN
            } else {
                (-(scaled as i128)) as i64
            }
        } else {
            if over || scaled > i64::MAX as u128 {
                i64::MAX
            } else {
                scaled as i64
            }
        }
    } else {
        let drop: u128 = (-shift) as u128;
        let keep: usize = if drop >= n as u128 { 0 } else { (n as u128 - drop) as usize };
        let (found, beyond) = capped_value(digits, 0, keep);
        let lost = any_nonzero(digits, keep);
        proof {
            let power = pow(10, (-exact) as nat);
            vstd::arithmetic::power::lemma_pow_positive(10, (-exact) as nat);
            lemma_cut(digits@, (-exact) as nat);
            assert(kept(digits@.len(), (-exact) as nat) == keep);
            assert(digits@.take(keep as int) =~= digits@.subrange(0, keep as int));
            lemma_floor_of_negative(magnitude, power);
        }
        if negative {
            if beyond {
                i64::MIN
            } else {
                let floor: i128 = -(found as i128) - if lost { 1i128 } else { 0i128 };
                if floor < i64::MIN as i128 {
                    i64::MIN
                } else {
                    floor as i64
                }
            }
        } else {
            if beyond || found > i64::MAX as u128 {
                i64::MAX
            } else {
                found as i64
            }
        }
    }
}

/// Reads a decimal number as whole millionths, rounded down; a number beyond
/// the 64-bit range comes out as the nearest bound. `None` for text that is
/// no decimal literal.
pub fn parse_decimal(text: &str) -> (value: Option<i64>)
    ensures
        value == decimal_millionths(text@),
{
    let chars = chars_of(text);
    let found = scan_layout(&chars);
    if (found.whole_end - found.whole_start) + (found.part_end - found.part_start) == 0 || (
    found.powered && found.power_end <= found.power_start) || found.power_end != chars.len() {
        return None;
    }
    let digits = mantissa_digits(&chars, &found);
    let (power, beyond) = capped_value(&chars, found.power_start, found.power_end);
    let scale = (found.part_end - found.part_start) as i128;
    let ghost parts = literal(text@)->Some_0;
    let ghost exact = parts.exponent - parts.scale + 6;
    assert(parts.digits == digits@);
    let shift: i128 = if !beyond {
        (if found.power_negative { -(power as i128) } else { power as i128 }) - scale + 6
    } else if found.power_negative {
        -(digits.len() as i128) - 1
    } else {
        40
    };
    Some(settle(found.negative, &digits, shift, Ghost(exact)))
}

/// The digits behind the point of a number below one: `part` counted in units
/// of ten to the power of minus `places`, without zeros at the end.
pub open spec fn fraction_digits(part: nat, places: nat) -> Seq<char>
    decreases places,
{
    if part == 0 || places == 0 {
        Seq::<char>::empty()
    } else {
        seq![digit_char((part / pow(10, (places - 1) as nat) as nat) % 10)] + fraction_digits(
            part % (pow(10, (places - 1) as nat) as nat),
            (places - 1) as nat,
        )
    }
}

/// A number of millionths written as a decimal: a minus sign if it is
/// negative, the whole part, and, unless the rest is zero, a point and the
/// digits of the rest without zeros at the end.
pub open spec fn millionths_text(value: i64) -> Seq<char> {
    let magnitude: nat = if value < 0 { (-value) as nat } else { value as nat };
    (if value < 0 { seq!['-'] } else { Seq::<char>::empty() }) + decimal(magnitude / 1000000) + (
    if magnitude % 1000000 == 0 {
        Seq::<char>::empty()
    } else {
        seq!['.'] + fraction_digits(magnitude % 1000000, 6)
    })
}

/// A whole number with its sign.
pub open spec fn signed_text(value: i64) -> Seq<char> {
    if value < 0 {
        seq!['-'] + decimal((-value) as nat)
    } else {
        decimal(value as nat)
    }
}

/// Writes a whole number with its sign.
pub fn format_signed(value: i64) -> (text: String)
    ensures
        text@ == signed_text(value),
{
    if value < 0 {
        proof {
            reveal_strlit("-");
        }
        let text = join("-", decimal_text((-(value as i128)) as u64).as_str());
        assert(text@ =~= seq!['-'] + decimal((-value) as nat));
        text
    } else {
        decimal_text(value as u64)
    }
}

/// The length of a trim window, held to the 64-bit range.
pub fn span(start: i64, end: i64) -> (length: i64)
    ensures
        length == clip(end - start),
{
    let length = end as i128 - start as i128;
    if length > i64::MAX as i128 {
        i64::MAX
    } else if length < i64::MIN as i128 {
        i64::MIN
    } else {
        length as i64
    }
}

/// Writes a number of millionths as a decimal.
pub fn format_millionths(value: i64) -> (text: String)
    ensures
        text@ == millionths_text(value),
{
    let magnitude: u64 = if value < 0 { (-(value as i128)) as u64 } else { value as u64 };
    let mut text = if value < 0 {
        proof {
            reveal_strlit("-");
        }
        join("-", decimal_text(magnitude / 1000000).as_str())
    } else {
        decimal_text(magnitude / 1000000)
    };
    let ghost head = text@;
    assert(head =~= (if value < 0 { seq!['-'] } else { Seq::<char>::empty() }) + decimal(
        (magnitude / 1000000) as nat,
    ));
    let mut part: u64 = magnitude % 1000000;
    if part == 0 {
        assert(head + Seq::<char>::empty() =~= head);
        return text;
    }
    proof {
        reveal_strlit(".");
        reveal_with_fuel(pow, 7);
    }
    text = text.concat(".");
    let ghost whole_part = part as nat;
    let mut unit: u64 = 100000;
    let mut places: u64 = 6;
    let ghost mut written = Seq::<char>::empty();
    while part > 0 && places > 0
        invariant
            places <= 6,
            places > 0 ==> unit == pow(10, (places - 1) as nat),
            part < pow(10, places as nat),
            text@ == head + seq!['.'] + written,
            written + fraction_digits(part as nat, places as nat) == fraction_digits(whole_part, 6),
        decreases places,
    {
        proof {
            reveal_with_fuel(pow, 7);
            reveal_with_fuel(fraction_digits, 2);
        }
        assert(unit * 10 == pow(10, places as nat));
        assert(part / unit < 10 && part / unit == (part / unit) % 10) by (nonlinear_arith)
            requires
                part < unit * 10,
                unit > 0,
        ;
        let digit = part / unit;
        let ghost before = written;
        let piece = digit_text(digit);
        text = text.concat(piece);
        proof {
            written = written + seq![digit_char(digit as nat)];
            assert(digit == (part / unit) % 10);
            assert(before + (seq![digit_char(digit as nat)] + fraction_digits(
                (part % unit) as nat,
                (places - 1) as nat,
            )) =~= written + fraction_digits((part % unit) as nat, (places - 1) as nat));
            assert(text@ =~= head + seq!['.'] + written);
        }
        part = part % unit;
        unit = unit / 10;
        places = places - 1;
    }
    proof {
        reveal_with_fuel(fraction_digits, 1);
        assert(written + Seq::<char>::empty() =~= written);
        assert(text@ =~= head + (seq!['.'] + written));
    }
    text
}

} // verus!
