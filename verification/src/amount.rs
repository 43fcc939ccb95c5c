//! Reading token amounts from text.
//!
//! An amount is written as whole units, optionally followed by a point and
//! a fraction of at most as many places as the token has decimals.  The text
//! is read as UTF-8 bytes: lengths count bytes, and a byte that is not an
//! ASCII digit is an invalid digit.

use crate::tool::{
    decimal, lemma_pow10_monotone, lemma_pow10_steps, lemma_pow10_twenty, pow10, push_decimal,
};
use vstd::prelude::*;
use vstd::string::StringSliceAdditionalSpecFns;

verus! {

/// Why a text is not an unsigned 64-bit integer.
#[derive(Debug, Clone, Copy, PartialEq, Eq, Structural)]
pub enum IntegerError {
    /// The text is empty.
    Empty,
    /// A byte is not a digit, or the text is a sign and nothing else.
    InvalidDigit,
    /// The number does not fit in 64 bits.
    Overflow,
}

/// Why a text is not an amount.
#[derive(Debug, Clone, Copy, PartialEq, Eq, Structural)]
pub enum AmountError {
    /// The whole part is not an integer.
    Whole(IntegerError),
    /// The fraction has more places than the token has decimals.
    TooManyDecimals,
    /// The fraction, filled up with zeros, is not an integer.
    Fraction(IntegerError),
    /// There is more than one point.
    Format,
    /// The amount in raw units does not fit in 64 bits.
    Overflow,
}

/// The byte of the decimal point.
pub open spec fn point() -> u8 {
    46
}

/// The byte of the plus sign.
pub open spec fn plus() -> u8 {
    43
}

/// The value of a digit byte.
pub open spec fn digit_of(byte: u8) -> Option<nat> {
    if 48 <= byte <= 57 {
        Some((byte - 48) as nat)
    } else {
        None
    }
}

/// `count` digits zero.
pub open spec fn zero_digits(count: nat) -> Seq<u8> {
    Seq::new(count, |i: int| 48u8)
}

/// Reads digits from left to right on top of the value `so_far`.  The
/// first byte that is no digit, or that takes the value past 64 bits, ends
/// the reading with the matching error.
pub open spec fn read_digits(digits: Seq<u8>, so_far: nat) -> Result<nat, IntegerError>
    decreases digits.len(),
{
    if digits.len() == 0 {
        Ok(so_far)
    } else {
        match digit_of(digits[0]) {
            None => Err(IntegerError::InvalidDigit),
            Some(digit) => if so_far * 10 + digit > u64::MAX {
                Err(IntegerError::Overflow)
            } else {
                read_digits(digits.drop_first(), so_far * 10 + digit)
            },
        }
    }
}

/// Reads an unsigned integer: digits, with one plus sign in front if any.
pub open spec fn parse_integer(text: Seq<u8>) -> Result<nat, IntegerError> {
    if text.len() == 0 {
        Err(IntegerError::Empty)
    } else if text[0] == plus() {
        if text.len() == 1 {
            Err(IntegerError::InvalidDigit)
        } else {
            read_digits(text.drop_first(), 0)
        }
    } else {
        read_digits(text, 0)
    }
}

/// Whether `at` is the place of the first point in `text`.
pub open spec fn is_first_point(text: Seq<u8>, at: int) -> bool {
    &&& 0 <= at < text.len()
    &&& text[at] == point()
    &&& forall|before: int| 0 <= before < at ==> text[before] != point()
}

/// The place of the first point in a text that has one.
pub open spec fn first_point(text: Seq<u8>) -> int {
    choose|at: int| is_first_point(text, at)
}

/// The amount in raw units, if it fits in 64 bits.
pub open spec fn raw_units(whole: nat, fraction: nat, decimals: u8) -> Result<u64, AmountError> {
    let total = whole * pow10(decimals as nat) + fraction;
    if total <= u64::MAX {
        Ok(total as u64)
    } else {
        Err(AmountError::Overflow)
    }
}

/// Reads an amount for a token with `decimals` decimals.
///
/// Without a point the text is the whole part.  With one point, the whole
/// part stands before it and the fraction after it; the fraction is filled
/// up with zeros on the right to `decimals` places and read as an integer.
/// The whole part is checked first, then the length of the fraction, then
/// the fraction.  More than one point is a format error.
pub open spec fn parse_amount_spec(text: Seq<u8>, decimals: u8) -> Result<u64, AmountError> {
    if !text.contains(point()) {
        match parse_integer(text) {
            Err(error) => Err(AmountError::Whole(error)),
            Ok(whole) => raw_units(whole, 0, decimals),
        }
    } else {
        let at = first_point(text);
        let whole_text = text.subrange(0, at);
        let fraction_text = text.subrange(at + 1, text.len() as int);
        if fraction_text.contains(point()) {
            Err(AmountError::Format)
        } else {
            match parse_integer(whole_text) {
                Err(error) => Err(AmountError::Whole(error)),
                Ok(whole) => if fraction_text.len() > decimals {
                    Err(AmountError::TooManyDecimals)
                } else {
                    match parse_integer(
                        fraction_text + zero_digits((decimals - fraction_text.len()) as nat),
                    ) {
                        Err(error) => Err(AmountError::Fraction(error)),
                        Ok(fraction) => raw_units(whole, fraction, decimals),
                    }
                },
            }
        }
    }
}

/// A reading result with its value as a mathematical integer.
pub open spec fn widen(outcome: Result<u64, IntegerError>) -> Result<nat, IntegerError> {
    match outcome {
        Ok(value) => Ok(value as nat),
        Err(error) => Err(error),
    }
}

/// Reading a text in two pieces gives what reading it in one gives.
proof fn lemma_read_in_pieces(head: Seq<u8>, tail: Seq<u8>, so_far: nat)
    ensures
        read_digits(head + tail, so_far) == match read_digits(head, so_far) {
            Ok(value) => read_digits(tail, value),
            Err(error) => Err(error),
        },
    decreases head.len(),
{
    if head.len() == 0 {
        assert(head + tail =~= tail);
    } else {
        assert((head + tail)[0] == head[0]);
        assert((head + tail).drop_first() =~= head.drop_first() + tail);
        match digit_of(head[0]) {
            None => {},
            Some(digit) => {
                if so_far * 10 + digit <= u64::MAX {
                    lemma_read_in_pieces(head.drop_first(), tail, so_far * 10 + digit);
                }
            },
        }
    }
}

/// Reads the bytes of `text` from `from` up to `to` on top of `so_far`.
fn read_bytes(text: &[u8], from: usize, to: usize, so_far: u64) -> (outcome: Result<
    u64,
    IntegerError,
>)
    requires
        from <= to <= text@.len(),
    ensures
        widen(outcome) == read_digits(text@.subrange(from as int, to as int), so_far as nat),
{
    let mut value: u64 = so_far;
    let mut at: usize = from;
    while at < to
        invariant
            from <= at <= to <= text@.len(),
            read_digits(text@.subrange(from as int, to as int), so_far as nat) == read_digits(
                text@.subrange(at as int, to as int),
                value as nat,
            ),
        decreases to - at,
    {
        let byte = text[at];
        proof {
            let rest = text@.subrange(at as int, to as int);
            assert(rest[0] == byte);
            assert(rest.drop_first() =~= text@.subrange(at + 1, to as int));
        }
        if byte < 48 || byte > 57 {
            return Err(IntegerError::InvalidDigit);
        }
        let digit = (byte - 48) as u64;
        if value > (u64::MAX - digit) / 10 {
            return Err(IntegerError::Overflow);
        }
        value = value * 10 + digit;
        at += 1;
    }
    Ok(value)
}

/// Reads `count` zeros on top of `so_far`.
fn read_zeros(count: usize, so_far: u64) -> (outcome: Result<u64, IntegerError>)
    ensures
        widen(outcome) == read_digits(zero_digits(count as nat), so_far as nat),
{
    let mut value: u64 = so_far;
    let mut done: usize = 0;
    while done < count
        invariant
            done <= count,
            read_digits(zero_digits(count as nat), so_far as nat) == read_digits(
                zero_digits((count - done) as nat),
                value as nat,
            ),
        decreases count - done,
    {
        proof {
            let rest = zero_digits((count - done) as nat);
            assert(rest[0] == 48u8);
            assert(rest.drop_first() =~= zero_digits((count - done - 1) as nat));
        }
        if value > u64::MAX / 10 {
            return Err(IntegerError::Overflow);
        }
        value = value * 10;
        done += 1;
    }
    Ok(value)
}

/// Reads an unsigned integer from the bytes of `text` from `from` up to
/// `to`, followed by `padding` zeros.
fn read_integer(text: &[u8], from: usize, to: usize, padding: usize) -> (outcome: Result<
    u64,
    IntegerError,
>)
    requires
        from <= to <= text@.len(),
    ensures
        widen(outcome) == parse_integer(
            text@.subrange(from as int, to as int) + zero_digits(padding as nat),
        ),
{
    let ghost given = text@.subrange(from as int, to as int);
    let ghost filled = given + zero_digits(padding as nat);
    if from == to && padding == 0 {
        return Err(IntegerError::Empty);
    }
    let start = if from < to && text[from] == 43 {
        if to - from == 1 && padding == 0 {
            return Err(IntegerError::InvalidDigit);
        }
        from + 1
    } else {
        from
    };
    proof {
        if from < to {
            assert(filled[0] == text@[from as int]);
        } else {
            assert(filled[0] == 48u8);
        }
        let digits = text@.subrange(start as int, to as int);
        if start == from {
            assert(digits =~= given);
        } else {
            assert(filled.drop_first() =~= digits + zero_digits(padding as nat));
        }
        lemma_read_in_pieces(digits, zero_digits(padding as nat), 0);
    }
    match read_bytes(text, start, to, 0) {
        Err(error) => Err(error),
        Ok(value) => read_zeros(padding, value),
    }
}

/// Reads an unsigned 64-bit integer as the standard library does: decimal
/// digits with an optional plus sign in front.
pub fn parse_u64(text: &str) -> (outcome: Result<u64, IntegerError>)
    ensures
        widen(outcome) == parse_integer(text.spec_bytes()),
{
    let bytes = text.as_bytes();
    assert(bytes@.subrange(0, bytes@.len() as int) + zero_digits(0) =~= bytes@);
    read_integer(bytes, 0, bytes.len(), 0)
}

/// Scales an amount to raw units.
fn to_raw_units(whole: u64, fraction: u64, decimals: u8) -> (outcome: Result<u64, AmountError>)
    ensures
        outcome == raw_units(whole as nat, fraction as nat, decimals),
{
    if decimals <= 19 {
        let mut factor: u64 = 1;
        let mut done: u8 = 0;
        while done < decimals
            invariant
                done <= decimals <= 19,
                factor == pow10(done as nat),
            decreases decimals - done,
        {
            proof {
                lemma_pow10_steps(done as nat);
                lemma_pow10_monotone((done + 1) as nat, 19);
                lemma_pow10_twenty();
            }
            factor = factor * 10;
            done += 1;
        }
        assert(whole as u128 * factor as u128 + fraction as u128 <= u128::MAX) by (nonlinear_arith)
            requires
                whole <= u64::MAX,
                factor <= u64::MAX,
                fraction <= u64::MAX,
        ;
        let total: u128 = whole as u128 * factor as u128 + fraction as u128;
        if total <= u64::MAX as u128 {
            Ok(total as u64)
        } else {
            Err(AmountError::Overflow)
        }
    } else {
        proof {
            lemma_pow10_twenty();
            lemma_pow10_monotone(20, decimals as nat);
            let factor = pow10(decimals as nat);
            if whole > 0 {
                assert(whole as nat * factor >= factor) by (nonlinear_arith)
                    requires
                        whole >= 1,
                        factor >= 0,
                ;
            } else {
                assert(whole as nat * factor == 0) by (nonlinear_arith)
                    requires
                        whole == 0,
                ;
            }
        }
        if whole == 0 {
            Ok(fraction)
        } else {
            Err(AmountError::Overflow)
        }
    }
}

/// Reads an amount from the bytes of its text.
pub fn read_amount(text: &[u8], decimals: u8) -> (outcome: Result<u64, AmountError>)
    ensures
        outcome == parse_amount_spec(text@, decimals),
{
    let len = text.len();
    let mut at: usize = 0;
    while at < len && text[at] != 46
        invariant
            at <= len == text@.len(),
            forall|before: int| 0 <= before < at ==> text@[before] != point(),
        decreases len - at,
    {
        at += 1;
    }
    if at == len {
        assert(!text@.contains(point()));
        assert(text@.subrange(0, len as int) =~= text@);
        assert(text@ + zero_digits(0) =~= text@);
        return match read_integer(text, 0, len, 0) {
            Err(error) => Err(AmountError::Whole(error)),
            Ok(whole) => to_raw_units(whole, 0, decimals),
        };
    }
    proof {
        assert(is_first_point(text@, at as int));
        assert(text@.contains(point()));
        let chosen = first_point(text@);
        assert(is_first_point(text@, chosen));
        assert(chosen == at);
    }
    let ghost fraction_text = text@.subrange(at + 1, len as int);
    let mut next: usize = at + 1;
    while next < len
        invariant
            at < next <= len == text@.len(),
            fraction_text == text@.subrange(at + 1, len as int),
            text@.contains(point()),
            first_point(text@) == at,
            forall|k: int| 0 <= k < next - at - 1 ==> fraction_text[k] != point(),
        decreases len - next,
    {
        if text[next] == 46 {
            assert(fraction_text[next - at - 1] == point());
            assert(fraction_text.contains(point()));
            return Err(AmountError::Format);
        }
        next += 1;
    }
    assert(!fraction_text.contains(point()));
    assert(text@.subrange(0, at as int) + zero_digits(0) =~= text@.subrange(0, at as int));
    let whole = match read_integer(text, 0, at, 0) {
        Err(error) => {
            return Err(AmountError::Whole(error));
        },
        Ok(whole) => whole,
    };
    let places = len - at - 1;
    if places > decimals as usize {
        return Err(AmountError::TooManyDecimals);
    }
    match read_integer(text, at + 1, len, decimals as usize - places) {
        Err(error) => Err(AmountError::Fraction(error)),
        Ok(fraction) => to_raw_units(whole, fraction, decimals),
    }
}

/// The wording of an integer error.
pub open spec fn integer_error_text(error: IntegerError) -> Seq<char> {
    match error {
        IntegerError::Empty => "cannot parse integer from empty string"@,
        IntegerError::InvalidDigit => "invalid digit found in string"@,
        IntegerError::Overflow => "number too large to fit in target type"@,
    }
}

/// The wording of an amount error for a token with `decimals` decimals.
pub open spec fn amount_error_text(error: AmountError, decimals: u8) -> Seq<char> {
    match error {
        AmountError::Whole(cause) => "Invalid amount: "@ + integer_error_text(cause),
        AmountError::TooManyDecimals => "Too many decimal places. Maximum is "@ + decimal(
            decimals as nat,
        ),
        AmountError::Fraction(cause) => "Invalid fractional part: "@ + integer_error_text(cause),
        AmountError::Format => "Invalid amount format"@,
        AmountError::Overflow => "Invalid amount: "@ + integer_error_text(IntegerError::Overflow),
    }
}

/// The wording of an integer error in the debug form that the standard
/// library gives its integer parse errors.
pub open spec fn integer_error_debug(error: IntegerError) -> Seq<char> {
    match error {
        IntegerError::Empty => "ParseIntError { kind: Empty }"@,
        IntegerError::InvalidDigit => "ParseIntError { kind: InvalidDigit }"@,
        IntegerError::Overflow => "ParseIntError { kind: PosOverflow }"@,
    }
}

impl IntegerError {
    /// The wording of the error.
    pub fn text(&self) -> (text: &'static str)
        ensures
            text@ == integer_error_text(*self),
    {
        match self {
            IntegerError::Empty => "cannot parse integer from empty string",
            IntegerError::InvalidDigit => "invalid digit found in string",
            IntegerError::Overflow => "number too large to fit in target type",
        }
    }

    /// The wording of the error in the debug form that the standard library
    /// gives its integer parse errors.
    pub fn debug_text(&self) -> (text: &'static str)
        ensures
            text@ == integer_error_debug(*self),
    {
        match self {
            IntegerError::Empty => "ParseIntError { kind: Empty }",
            IntegerError::InvalidDigit => "ParseIntError { kind: InvalidDigit }",
            IntegerError::Overflow => "ParseIntError { kind: PosOverflow }",
        }
    }
}

impl AmountError {
    /// The wording of the error for a token with `decimals` decimals.
    pub fn message(&self, decimals: u8) -> (text: String)
        ensures
            text@ == amount_error_text(*self, decimals),
    {
        match self {
            AmountError::Whole(cause) => String::from_str("Invalid amount: ").concat(cause.text()),
            AmountError::TooManyDecimals => {
                let mut text = String::from_str("Too many decimal places. Maximum is ");
                push_decimal(&mut text, decimals as u64);
                text
            },
            AmountError::Fraction(cause) => String::from_str("Invalid fractional part: ").concat(
                cause.text(),
            ),
            AmountError::Format => String::from_str("Invalid amount format"),
            AmountError::Overflow => String::from_str("Invalid amount: ").concat(
                IntegerError::Overflow.text(),
            ),
        }
    }
}

/// Parses a human-readable amount string into raw token amount
pub fn parse_amount(amount_str: &str, decimals: u8) -> (parsed: Result<u64, String>)
    ensures
        match parse_amount_spec(amount_str.spec_bytes(), decimals) {
            Ok(raw) => parsed == Ok::<u64, String>(raw),
            Err(error) => parsed matches Err(reason) && reason@ == amount_error_text(
                error,
                decimals,
            ),
        },
{
    match read_amount(amount_str.as_bytes(), decimals) {
        Ok(raw) => Ok(raw),
        Err(error) => Err(error.message(decimals)),
    }
}

} // verus!
