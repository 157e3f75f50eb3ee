//! The texts that spell a decimal number, and how large the number is.
//!
//! ```text
//! Decimal  ::= Sign? Number
//! Number   ::= Mantissa Exponent?
//! Mantissa ::= Digit+ | Digit+ '.' Digit* | Digit* '.' Digit+
//! Exponent ::= 'e' Sign? Digit+
//! Sign     ::= '+' | '-'
//! Digit    ::= '0' ..= '9'
//! ```
//!
//! The `e` of the exponent matches in either case. Nothing may precede or
//! follow the number, not even whitespace. Words for values that are no
//! numbers (`inf`, `infinity`, `nan`) spell no decimal number.
//!
//! A decimal number is finite when it is small enough to have a value in
//! single precision, the precision that prices are stored in. However long
//! its digits and its exponent are, it is measured exactly.

use vstd::prelude::*;
use vstd::slice::{slice_subrange, slice_to_vec};

verus! {

/// An ASCII decimal digit.
pub open spec fn is_digit(c: char) -> bool {
    0x30 <= c as u32 <= 0x39
}

/// A plus or a minus sign.
pub open spec fn is_sign(c: char) -> bool {
    c == '+' || c == '-'
}

/// The letter that starts an exponent, in either case.
pub open spec fn is_exponent_mark(c: char) -> bool {
    c == 'e' || c == 'E'
}

/// Every character of `s` is a digit. Holds of the empty text.
pub open spec fn is_digits(s: Seq<char>) -> bool {
    forall|i: int| 0 <= i < s.len() ==> is_digit(#[trigger] s[i])
}

/// `s` is digits around a decimal point at position `dot`, with at least one
/// digit on one of its sides.
pub open spec fn is_dotted_at(s: Seq<char>, dot: int) -> bool {
    &&& 0 <= dot < s.len()
    &&& s[dot] == '.'
    &&& s.len() > 1
    &&& is_digits(s.subrange(0, dot))
    &&& is_digits(s.subrange(dot + 1, s.len() as int))
}

/// `Digit+ | Digit+ '.' Digit* | Digit* '.' Digit+`
pub open spec fn is_mantissa(s: Seq<char>) -> bool {
    ||| s.len() > 0 && is_digits(s)
    ||| exists|dot: int| is_dotted_at(s, dot)
}

/// `'e' Sign? Digit+`
pub open spec fn is_exponent(s: Seq<char>) -> bool {
    &&& s.len() >= 2
    &&& is_exponent_mark(s[0])
    &&& {
        let digits = if is_sign(s[1]) {
            s.subrange(2, s.len() as int)
        } else {
            s.subrange(1, s.len() as int)
        };
        digits.len() > 0 && is_digits(digits)
    }
}

/// `s` is a mantissa of `cut` characters, followed by nothing or by an
/// exponent.
pub open spec fn is_number_cut_at(s: Seq<char>, cut: int) -> bool {
    &&& 0 < cut <= s.len()
    &&& is_mantissa(s.subrange(0, cut))
    &&& cut < s.len() ==> is_exponent(s.subrange(cut, s.len() as int))
}

/// `Mantissa Exponent?`
pub open spec fn is_number(s: Seq<char>) -> bool {
    exists|cut: int| is_number_cut_at(s, cut)
}

/// `s` without the sign that it may start with.
pub open spec fn unsigned(s: Seq<char>) -> Seq<char> {
    if s.len() > 0 && is_sign(s[0]) {
        s.drop_first()
    } else {
        s
    }
}

/// `s` spells a decimal number: `Sign? Number`.
pub open spec fn is_decimal_text(s: Seq<char>) -> bool {
    is_number(unsigned(s))
}

/// Where single-precision floating-point numbers end: `2^128 - 2^103`. A
/// decimal number of this magnitude or more has no finite value in single
/// precision; every smaller one has.
pub const FINITE_LIMIT: u128 = 0xFFFF_FF80_0000_0000_0000_0000_0000_0000;

/// The number that a digit stands for.
pub open spec fn digit_value(c: char) -> nat {
    (c as u32 - 0x30) as nat
}

/// The number that the digits `s` spell; 0 where there are none.
pub open spec fn digits_value(s: Seq<char>) -> nat
    decreases s.len(),
{
    if s.len() == 0 {
        0
    } else {
        10 * digits_value(s.drop_last()) + digit_value(s.last())
    }
}

/// Ten to the power of `n`.
pub open spec fn pow10(n: nat) -> nat
    decreases n,
{
    if n == 0 {
        1
    } else {
        10 * pow10((n - 1) as nat)
    }
}

/// Where the digits of `s` that start at `from` end.
pub open spec fn run_end(s: Seq<char>, from: int) -> int
    decreases s.len() - from,
{
    if 0 <= from < s.len() && is_digit(s[from]) {
        run_end(s, from + 1)
    } else {
        from
    }
}

/// Whether the number `s` has a decimal point.
pub open spec fn has_point(s: Seq<char>) -> bool {
    run_end(s, 0) < s.len() && s[run_end(s, 0)] == '.'
}

/// Where the mantissa of the number `s` ends.
pub open spec fn mantissa_end(s: Seq<char>) -> int {
    if has_point(s) {
        run_end(s, run_end(s, 0) + 1)
    } else {
        run_end(s, 0)
    }
}

/// The digits of the number `s` before its decimal point.
pub open spec fn whole_digits(s: Seq<char>) -> Seq<char> {
    s.subrange(0, run_end(s, 0))
}

/// The digits of the number `s` after its decimal point.
pub open spec fn fraction_digits(s: Seq<char>) -> Seq<char> {
    if has_point(s) {
        s.subrange(run_end(s, 0) + 1, mantissa_end(s))
    } else {
        Seq::empty()
    }
}

/// The exponent of the number `s`; 0 where it has none.
pub open spec fn exponent_of(s: Seq<char>) -> int {
    let mark = mantissa_end(s);
    let len = s.len() as int;
    if mark >= len {
        0
    } else if is_sign(s[mark + 1]) {
        signed_value(s[mark + 1] == '-', s.subrange(mark + 2, len))
    } else {
        signed_value(false, s.subrange(mark + 1, len))
    }
}

/// The whole part of the number `s`: its value, rounded down.
///
/// The digits around the decimal point spell a whole number, and the
/// exponent, less the number of digits after the point, says by how many
/// places to shift it: to the left by adding zeros, to the right by dropping
/// digits.
pub open spec fn whole_part(s: Seq<char>) -> nat {
    shifted_value(
        whole_digits(s) + fraction_digits(s),
        exponent_of(s) - fraction_digits(s).len(),
    )
}

/// The number that `digits` spell, shifted by `shift` places: to the left by
/// adding zeros, to the right by dropping digits.
pub open spec fn shifted_value(digits: Seq<char>, shift: int) -> nat {
    if shift > 0 {
        digits_value(digits) * pow10(shift as nat)
    } else if digits.len() + shift > 0 {
        digits_value(digits.take(digits.len() + shift))
    } else {
        0
    }
}

/// The exponent with the digits `digits`, below zero if `negative`.
pub open spec fn signed_value(negative: bool, digits: Seq<char>) -> int {
    if negative {
        -digits_value(digits)
    } else {
        digits_value(digits) as int
    }
}

/// `s` spells a decimal number that has a finite value in single precision:
/// its magnitude is below [`FINITE_LIMIT`]. The limit is a whole number, so
/// the number is below it exactly when its whole part is.
pub open spec fn is_finite_decimal(s: Seq<char>) -> bool {
    is_decimal_text(s) && whole_part(unsigned(s)) < FINITE_LIMIT
}

/// The digits that start at `from` end at `to`: a digit stands at every
/// position between them, and none at `to`.
spec fn digit_run(s: Seq<char>, from: int, to: int) -> bool {
    &&& 0 <= from <= to <= s.len()
    &&& forall|i: int| from <= i < to ==> is_digit(#[trigger] s[i])
    &&& to < s.len() ==> !is_digit(s[to])
}

/// A number can be cut into mantissa and exponent in one way only: the
/// mantissa ends where the digits around the decimal point end. Here `dot`
/// is where the digits from the start end, and `end` where those after a
/// decimal point at `dot` end.
proof fn lemma_number_cut(s: Seq<char>, cut: int, dot: int, end: int)
    requires
        is_number_cut_at(s, cut),
        digit_run(s, 0, dot),
        if dot < s.len() && s[dot] == '.' {
            digit_run(s, dot + 1, end)
        } else {
            end == dot
        },
    ensures
        end == cut,
        dot < s.len() && s[dot] == '.' ==> end > 1,
{
    let mantissa = s.subrange(0, cut);
    if cut < s.len() {
        // The exponent starts with a letter: no digit and no point.
        assert(s.subrange(cut, s.len() as int)[0] == s[cut]);
    }
    if mantissa.len() > 0 && is_digits(mantissa) {
        if dot < cut {
            assert(mantissa[dot] == s[dot]);
        }
    } else {
        let point = choose|point: int| is_dotted_at(mantissa, point);
        assert(mantissa[point] == s[point]);
        if dot < point {
            assert(mantissa.subrange(0, point)[dot] == s[dot]);
        }
        if end < cut {
            assert(mantissa.subrange(point + 1, cut)[end - point - 1] == s[end]);
        }
    }
}

/// Every decimal number holds a digit, so no word spells one.
pub proof fn lemma_decimal_holds_digit(s: Seq<char>)
    requires
        is_decimal_text(s),
    ensures
        exists|i: int| 0 <= i < s.len() && is_digit(#[trigger] s[i]),
{
    let number = unsigned(s);
    let sign = s.len() - number.len();
    let cut = choose|cut: int| is_number_cut_at(number, cut);
    let mantissa = number.subrange(0, cut);
    let at = if mantissa.len() > 0 && is_digits(mantissa) {
        0
    } else {
        let point = choose|point: int| is_dotted_at(mantissa, point);
        if point > 0 {
            assert(mantissa.subrange(0, point)[0] == mantissa[0]);
            0
        } else {
            assert(mantissa.subrange(1, mantissa.len() as int)[0] == mantissa[1]);
            1
        }
    };
    assert(mantissa[at] == number[at]);
    assert(is_digit(s[at + sign]));
}

/// Whether `c` is an ASCII decimal digit.
fn is_digit_char(c: char) -> (b: bool)
    ensures
        b == is_digit(c),
{
    let u: u32 = c as u32;
    0x30 <= u && u <= 0x39
}

/// Whether `c` is a plus or a minus sign.
fn is_sign_char(c: char) -> (b: bool)
    ensures
        b == is_sign(c),
{
    c == '+' || c == '-'
}

/// Where the digits that start at `from` end.
fn skip_digits(s: &[char], from: usize) -> (to: usize)
    requires
        from <= s@.len(),
    ensures
        digit_run(s@, from as int, to as int),
{
    let len: usize = s.len();
    let mut to: usize = from;
    while to < len && is_digit_char(s[to])
        invariant
            len == s@.len(),
            from <= to <= len,
            forall|i: int| from <= i < to ==> is_digit(#[trigger] s@[i]),
        decreases len - to,
    {
        to = to + 1;
    }
    to
}

/// Whether `s`, which starts with the letter of an exponent, is one.
fn spells_exponent(s: &[char]) -> (yes: bool)
    requires
        s@.len() > 0,
        is_exponent_mark(s@[0]),
    ensures
        yes == is_exponent(s@),
{
    let len: usize = s.len();
    if len < 2 {
        return false;
    }
    let first: usize = if is_sign_char(s[1]) {
        2
    } else {
        1
    };
    let last: usize = skip_digits(s, first);
    proof {
        let digits = s@.subrange(first as int, len as int);
        if last < len {
            assert(digits[last - first] == s@[last as int]);
        } else {
            assert(is_digits(digits));
        }
    }
    last == len && last > first
}

/// Whether `s` spells a decimal number: `Mantissa Exponent?`.
pub fn spells_number(s: &[char]) -> (yes: bool)
    ensures
        yes == is_number(s@),
{
    let len: usize = s.len();
    let dot: usize = skip_digits(s, 0);
    let dotted: bool = dot < len && s[dot] == '.';
    let end: usize = if dotted {
        skip_digits(s, dot + 1)
    } else {
        dot
    };
    proof {
        if is_number(s@) {
            let cut = choose|cut: int| is_number_cut_at(s@, cut);
            lemma_number_cut(s@, cut, dot as int, end as int);
        }
    }
    if end == 0 || (dotted && end == 1) {
        return false;
    }
    proof {
        let mantissa = s@.subrange(0, end as int);
        if dotted {
            assert(is_digits(mantissa.subrange(0, dot as int)));
            assert(is_digits(mantissa.subrange(dot + 1, end as int)));
            assert(is_dotted_at(mantissa, dot as int));
        } else {
            assert(is_digits(mantissa));
        }
    }
    if end == len {
        assert(is_number_cut_at(s@, end as int));
        return true;
    }
    if !(s[end] == 'e' || s[end] == 'E') {
        proof {
            if is_number(s@) {
                assert(s@.subrange(end as int, len as int)[0] == s@[end as int]);
            }
        }
        return false;
    }
    let yes = spells_exponent(slice_subrange(s, end, len));
    proof {
        if yes {
            assert(is_number_cut_at(s@, end as int));
        }
    }
    yes
}

/// The digits that start at `from` and end at `to` are the ones that
/// `run_end` finds.
proof fn lemma_run_end(s: Seq<char>, from: int, to: int)
    requires
        digit_run(s, from, to),
    ensures
        run_end(s, from) == to,
    decreases to - from,
{
    if from < to {
        lemma_run_end(s, from + 1, to);
    }
}

/// The digits of a text spell at least what fewer of them spell.
proof fn lemma_longer_spells_more(s: Seq<char>, fewer: int)
    requires
        0 <= fewer <= s.len(),
    ensures
        digits_value(s.take(fewer)) <= digits_value(s),
    decreases s.len(),
{
    if fewer < s.len() {
        assert(s.drop_last().take(fewer) =~= s.take(fewer));
        lemma_longer_spells_more(s.drop_last(), fewer);
    } else {
        assert(s.take(fewer) =~= s);
    }
}

/// A higher power of ten is no smaller, and none is below 1.
proof fn lemma_pow10_grows(lower: nat, higher: nat)
    requires
        lower <= higher,
    ensures
        1 <= pow10(lower) <= pow10(higher),
    decreases higher,
{
    if lower < higher {
        lemma_pow10_grows(lower, (higher - 1) as nat);
    } else if lower > 0 {
        lemma_pow10_grows((lower - 1) as nat, (lower - 1) as nat);
    }
}

/// Digits spell a number below the power of ten with as many places.
proof fn lemma_value_is_below_power(s: Seq<char>)
    requires
        is_digits(s),
    ensures
        digits_value(s) < pow10(s.len()),
    decreases s.len(),
{
    if s.len() > 0 {
        assert(is_digit(s[s.len() - 1]));
        lemma_value_is_below_power(s.drop_last());
    }
}

/// The digits of a text spell what its first `kept` digits spell, followed
/// by as many zeros as there are other digits, plus what the others spell.
proof fn lemma_value_splits(s: Seq<char>, kept: int)
    requires
        0 <= kept <= s.len(),
    ensures
        digits_value(s) == digits_value(s.take(kept)) * pow10((s.len() - kept) as nat)
            + digits_value(s.skip(kept)),
    decreases s.len(),
{
    let first = digits_value(s.take(kept));
    if kept == s.len() {
        assert(s.take(kept) =~= s);
        assert(first * pow10(0) == first) by (nonlinear_arith)
            requires
                pow10(0) == 1,
        ;
    } else {
        let shorter = s.drop_last();
        lemma_value_splits(shorter, kept);
        assert(shorter.take(kept) =~= s.take(kept));
        assert(s.skip(kept).drop_last() =~= shorter.skip(kept));
        let power = pow10((shorter.len() - kept) as nat);
        assert(10 * (first * power) == first * (10 * power)) by (nonlinear_arith);
    }
}

/// Shifting to the right rounds down: what is left, followed by as many
/// zeros as digits were dropped, is no more than the digits spell, and one
/// more than what is left would be too much.
pub proof fn lemma_shifting_rounds_down(digits: Seq<char>, dropped: nat)
    requires
        is_digits(digits),
    ensures
        shifted_value(digits, -dropped) * pow10(dropped) <= digits_value(digits),
        digits_value(digits) < (shifted_value(digits, -dropped) + 1) * pow10(dropped),
{
    let left = shifted_value(digits, -dropped);
    let power = pow10(dropped);
    if dropped == 0 {
        assert(digits.take(digits.len() as int) =~= digits);
        assert(left * power == left && (left + 1) * power == left + 1) by (nonlinear_arith)
            requires
                power == 1,
        ;
    } else if digits.len() > dropped {
        let kept = digits.len() - dropped;
        lemma_value_splits(digits, kept);
        lemma_value_is_below_power(digits.skip(kept));
        assert((left + 1) * power == left * power + power) by (nonlinear_arith);
    } else {
        lemma_value_is_below_power(digits);
        lemma_pow10_grows(digits.len(), dropped);
        assert(left * power == 0 && (left + 1) * power == power) by (nonlinear_arith)
            requires
                left == 0,
        ;
    }
}

/// A product grows with its second factor.
proof fn lemma_product_grows(factor: nat, less: nat, more: nat)
    by (nonlinear_arith)
    requires
        less <= more,
    ensures
        factor * less <= factor * more,
{
}

/// The number that the digits `digits` spell, or `None` where it is beyond
/// the integers of the machine.
fn value_of(digits: &[char]) -> (value: Option<u128>)
    requires
        is_digits(digits@),
    ensures
        match value {
            Some(value) => value == digits_value(digits@),
            None => digits_value(digits@) > u128::MAX,
        },
{
    let len: usize = digits.len();
    let mut value: u128 = 0;
    let mut at: usize = 0;
    while at < len
        invariant
            len == digits@.len(),
            at <= len,
            is_digits(digits@),
            value == digits_value(digits@.take(at as int)),
        decreases len - at,
    {
        let digit: u128 = (digits[at] as u32 - 0x30) as u128;
        proof {
            let seen = digits@.take(at + 1);
            assert(seen.drop_last() =~= digits@.take(at as int));
            assert(digits_value(seen) == 10 * value + digit);
            lemma_longer_spells_more(digits@, at + 1);
        }
        if value > (u128::MAX - digit) / 10 {
            return None;
        }
        value = value * 10 + digit;
        at = at + 1;
    }
    proof {
        assert(digits@.take(at as int) =~= digits@);
    }
    Some(value)
}

/// `value` with `places` zeros added, or `None` where that is beyond the
/// integers of the machine.
fn shifted(value: u128, places: u128) -> (product: Option<u128>)
    requires
        value > 0,
    ensures
        match product {
            Some(product) => product == value * pow10(places as nat),
            None => value * pow10(places as nat) > u128::MAX,
        },
{
    let mut product: u128 = value;
    let mut added: u128 = 0;
    assert(value * pow10(0) == value) by (nonlinear_arith)
        requires
            pow10(0) == 1,
    ;
    while added < places
        invariant
            added <= places,
            value > 0,
            product == value * pow10(added as nat),
        decreases places - added,
    {
        proof {
            let next = (added + 1) as nat;
            assert(value * pow10(next) == 10 * (value * pow10(added as nat))) by (nonlinear_arith)
                requires
                    pow10(next) == 10 * pow10(added as nat),
            ;
            lemma_pow10_grows(next, places as nat);
            lemma_product_grows(value as nat, pow10(next), pow10(places as nat));
        }
        if product > u128::MAX / 10 {
            return None;
        }
        product = product * 10;
        added = added + 1;
    }
    Some(product)
}

/// Whether the number that `digits` spell, shifted by the exponent less
/// `fraction` places, is below [`FINITE_LIMIT`].
fn shifted_is_finite(digits: &[char], fraction: usize, negative: bool, exponent: &[char]) -> (yes:
    bool)
    requires
        is_digits(digits@),
        is_digits(exponent@),
        fraction <= digits@.len(),
    ensures
        yes == (shifted_value(digits@, signed_value(negative, exponent@) - fraction)
            < FINITE_LIMIT),
{
    let ghost shift = signed_value(negative, exponent@) - fraction;
    let whole: usize = digits.len() - fraction;
    match value_of(exponent) {
        None => {
            // The exponent is beyond every length: all or nothing is left.
            if negative {
                true
            } else {
                proof {
                    let value = digits_value(digits@);
                    let power = pow10(shift as nat);
                    lemma_pow10_grows(39, shift as nat);
                    assert(pow10(39) > FINITE_LIMIT) by {
                        reveal_with_fuel(pow10, 40);
                    }
                    if value > 0 {
                        lemma_product_grows(power, 1, value);
                        assert(value * power == power * value) by (nonlinear_arith);
                    } else {
                        assert(0 * power == 0);
                    }
                }
                match value_of(digits) {
                    Some(value) => value == 0,
                    None => false,
                }
            }
        },
        Some(exponent) => {
            if !negative && exponent > fraction as u128 {
                let places: u128 = exponent - fraction as u128;
                proof {
                    lemma_pow10_grows(0, places as nat);
                    lemma_product_grows(digits_value(digits@), 1, pow10(places as nat));
                    assert(0 * pow10(places as nat) == 0);
                }
                match value_of(digits) {
                    None => false,
                    Some(value) => {
                        if value == 0 {
                            true
                        } else {
                            match shifted(value, places) {
                                Some(product) => product < FINITE_LIMIT,
                                None => false,
                            }
                        }
                    },
                }
            } else {
                let keep: usize = if !negative {
                    whole + exponent as usize
                } else if exponent >= whole as u128 {
                    0
                } else {
                    whole - exponent as usize
                };
                proof {
                    assert(digits@.subrange(0, keep as int) =~= digits@.take(keep as int));
                }
                match value_of(slice_subrange(digits, 0, keep)) {
                    Some(value) => value < FINITE_LIMIT,
                    None => false,
                }
            }
        },
    }
}

/// Whether the whole part of the number `s` is below [`FINITE_LIMIT`].
fn whole_part_is_finite(s: &[char]) -> (yes: bool)
    requires
        is_number(s@),
    ensures
        yes == (whole_part(s@) < FINITE_LIMIT),
{
    let len: usize = s.len();
    let dot: usize = skip_digits(s, 0);
    let dotted: bool = dot < len && s[dot] == '.';
    let end: usize = if dotted {
        skip_digits(s, dot + 1)
    } else {
        dot
    };
    proof {
        let cut = choose|cut: int| is_number_cut_at(s@, cut);
        lemma_number_cut(s@, cut, dot as int, end as int);
        lemma_run_end(s@, 0, dot as int);
        if dotted {
            lemma_run_end(s@, dot + 1, end as int);
        }
    }
    let mut digits: Vec<char> = slice_to_vec(slice_subrange(s, 0, dot));
    let mut fraction: usize = 0;
    if dotted {
        digits.extend_from_slice(slice_subrange(s, dot + 1, end));
        fraction = end - dot - 1;
    }
    assert(digits@ =~= whole_digits(s@) + fraction_digits(s@));
    assert(is_digits(digits@));
    if end == len {
        assert(digits_value(Seq::<char>::empty()) == 0);
        return shifted_is_finite(digits.as_slice(), fraction, false, slice_subrange(s, len, len));
    }
    proof {
        let tail = s@.subrange(end as int, len as int);
        assert(is_exponent(tail));
        assert(tail[1] == s@[end + 1]);
        assert(tail.subrange(1, tail.len() as int) =~= s@.subrange(end + 1, len as int));
        assert(tail.subrange(2, tail.len() as int) =~= s@.subrange(end + 2, len as int));
    }
    if is_sign_char(s[end + 1]) {
        let negative: bool = s[end + 1] == '-';
        shifted_is_finite(digits.as_slice(), fraction, negative, slice_subrange(s, end + 2, len))
    } else {
        shifted_is_finite(digits.as_slice(), fraction, false, slice_subrange(s, end + 1, len))
    }
}

/// Whether `s` spells a decimal number that has a finite value in single
/// precision.
pub fn spells_finite_decimal(s: &[char]) -> (yes: bool)
    ensures
        yes == is_finite_decimal(s@),
{
    let len: usize = s.len();
    let number: &[char] = if len > 0 && is_sign_char(s[0]) {
        assert(s@.subrange(1, len as int) =~= s@.drop_first());
        slice_subrange(s, 1, len)
    } else {
        s
    };
    spells_number(number) && whole_part_is_finite(number)
}

} // verus!
