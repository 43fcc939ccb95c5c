//! Helpers for amounts, addresses and slippage.

use crate::amount::{integer_error_debug, parse_integer, parse_u64};
use crate::types::{QuoteResponse, TokenInfo};
use std::str::FromStr;
use vstd::hash_map::StringHashMap;
use vstd::prelude::*;
use vstd::string::StringSliceAdditionalSpecFns;
use vstd::utf8::encode_utf8;

verus! {

/// Ten to the power `n`.
pub open spec fn pow10(n: nat) -> nat
    decreases n,
{
    if n == 0 {
        1
    } else {
        10 * pow10((n - 1) as nat)
    }
}

/// The character of a decimal digit.
pub open spec fn digit_char(digit: nat) -> char {
    seq!['0', '1', '2', '3', '4', '5', '6', '7', '8', '9'][digit as int]
}

/// A number in decimal notation, without leading zeros.
pub open spec fn decimal(n: nat) -> Seq<char>
    decreases n,
{
    if n < 10 {
        seq![digit_char(n)]
    } else {
        decimal(n / 10).push(digit_char(n % 10))
    }
}

/// `count` zeros.
pub open spec fn zeros(count: nat) -> Seq<char> {
    Seq::new(count, |i: int| '0')
}

/// A number in decimal notation, with zeros in front to fill `width` places.
pub open spec fn zero_padded(n: nat, width: nat) -> Seq<char> {
    let digits = decimal(n);
    if digits.len() >= width {
        digits
    } else {
        zeros((width - digits.len()) as nat) + digits
    }
}

/// A raw token amount in human-readable form: the whole units, and after a
/// point the fraction in exactly `decimals` places, unless it is zero.
pub open spec fn format_amount_spec(amount: u64, decimals: u8) -> Seq<char> {
    let factor = pow10(decimals as nat);
    let whole = amount as nat / factor;
    let fractional = amount as nat % factor;
    if fractional == 0 {
        decimal(whole)
    } else {
        decimal(whole) + seq!['.'] + zero_padded(fractional, decimals as nat)
    }
}

/// The one-character text of a decimal digit.
fn digit_text(digit: u64) -> (text: &'static str)
    requires
        digit < 10,
    ensures
        text@ == seq![digit_char(digit as nat)],
{
    proof {
        reveal_strlit("0");
        reveal_strlit("1");
        reveal_strlit("2");
        reveal_strlit("3");
        reveal_strlit("4");
        reveal_strlit("5");
        reveal_strlit("6");
        reveal_strlit("7");
        reveal_strlit("8");
        reveal_strlit("9");
    }
    let text = if digit == 0 {
        "0"
    } else if digit == 1 {
        "1"
    } else if digit == 2 {
        "2"
    } else if digit == 3 {
        "3"
    } else if digit == 4 {
        "4"
    } else if digit == 5 {
        "5"
    } else if digit == 6 {
        "6"
    } else if digit == 7 {
        "7"
    } else if digit == 8 {
        "8"
    } else {
        "9"
    };
    assert(text@ =~= seq![digit_char(digit as nat)]);
    text
}

/// Appends a number in decimal notation.
pub fn push_decimal(out: &mut String, n: u64)
    ensures
        final(out)@ == old(out)@ + decimal(n as nat),
    decreases n,
{
    if n >= 10 {
        push_decimal(out, n / 10);
    }
    out.append(digit_text(n % 10));
    assert(out@ =~= old(out)@ + decimal(n as nat));
}

/// The number of decimal digits of `n`.
pub fn decimal_len(n: u64) -> (len: usize)
    ensures
        len == decimal(n as nat).len(),
        1 <= len <= 20,
{
    let mut len: usize = 1;
    let mut rest: u64 = n;
    proof {
        let unit = pow10(0);
        assert(unit == 1);
        assert(rest as nat * unit == n) by (nonlinear_arith)
            requires
                unit == 1,
                rest == n,
        ;
    }
    while rest >= 10
        invariant
            1 <= len,
            decimal(n as nat).len() == decimal(rest as nat).len() + len - 1,
            rest as nat * pow10((len - 1) as nat) <= n,
            len <= 20,
        decreases rest,
    {
        proof {
            lemma_pow10_steps((len - 1) as nat);
            assert(rest as nat * pow10((len - 1) as nat) >= 10 * pow10((len - 1) as nat))
                by (nonlinear_arith)
                requires
                    rest >= 10,
            ;
            lemma_pow10_twenty();
            if len == 20 {
                lemma_pow10_monotone(20, 20);
            }
            assert((rest / 10) as nat * pow10(len as nat) <= rest as nat * pow10((len - 1) as nat))
                by (nonlinear_arith)
                requires
                    pow10(len as nat) == 10 * pow10((len - 1) as nat),
                    rest >= 0,
            ;
        }
        rest = rest / 10;
        len += 1;
    }
    len
}

/// Each further power of ten is ten times the one before.
pub proof fn lemma_pow10_steps(n: nat)
    ensures
        pow10(n + 1) == 10 * pow10(n),
        pow10(n) >= 1,
    decreases n,
{
    if n > 0 {
        lemma_pow10_steps((n - 1) as nat);
    }
}

/// Powers of ten grow with the exponent.
pub proof fn lemma_pow10_monotone(low: nat, high: nat)
    requires
        low <= high,
    ensures
        pow10(low) <= pow10(high),
    decreases high,
{
    if low < high {
        lemma_pow10_monotone(low, (high - 1) as nat);
        lemma_pow10_steps((high - 1) as nat);
    }
}

/// Ten to the nineteenth fits in 64 bits; ten to the twentieth does not.
pub proof fn lemma_pow10_twenty()
    ensures
        pow10(19) == 10_000_000_000_000_000_000,
        pow10(19) <= u64::MAX,
        pow10(20) > u64::MAX,
{
    reveal_with_fuel(pow10, 21);
}


/// Ten to the power `n`, for the powers that fit in 64 bits.
fn ten_to(n: u8) -> (power: u64)
    requires
        n <= 19,
    ensures
        power == pow10(n as nat),
        power >= 1,
{
    let mut power: u64 = 1;
    let mut done: u8 = 0;
    while done < n
        invariant
            done <= n <= 19,
            power == pow10(done as nat),
            power >= 1,
        decreases n - done,
    {
        proof {
            lemma_pow10_steps(done as nat);
            lemma_pow10_monotone((done + 1) as nat, 19);
            lemma_pow10_twenty();
        }
        power = power * 10;
        done += 1;
    }
    power
}

/// Formats a raw token amount to human-readable format with decimals
pub fn format_amount(amount: u64, decimals: u8) -> (text: String)
    ensures
        text@ == format_amount_spec(amount, decimals),
{
    let whole: u64;
    let fractional: u64;
    if decimals <= 19 {
        let factor = ten_to(decimals);
        whole = amount / factor;
        fractional = amount % factor;
    } else {
        proof {
            lemma_pow10_twenty();
            lemma_pow10_monotone(20, decimals as nat);
            let factor = pow10(decimals as nat);
            assert(amount as nat / factor == 0 && amount as nat % factor == amount)
                by (nonlinear_arith)
                requires
                    amount < factor,
            ;
        }
        whole = 0;
        fractional = amount;
    }
    let mut text = String::new();
    push_decimal(&mut text, whole);
    if fractional != 0 {
        text.append(".");
        proof {
            reveal_strlit(".");
            reveal_strlit("0");
            assert("."@ =~= seq!['.']);
            assert("0"@ =~= seq!['0']);
        }
        let ghost head = decimal(whole as nat) + seq!['.'];
        assert(text@ =~= head + zeros(0));
        let width = decimals as usize;
        let len = decimal_len(fractional);
        let mut place: usize = len;
        while place < width
            invariant
                len <= place,
                place <= width || place == len,
                text@ == head + zeros((place - len) as nat),
                "0"@ == seq!['0'],
            decreases width - place,
        {
            text.append("0");
            place += 1;
            assert(text@ =~= head + zeros((place - len) as nat));
        }
        push_decimal(&mut text, fractional);
        assert(text@ =~= head + zero_padded(fractional as nat, decimals as nat));
    }
    text
}

/// The largest slippage accepted, in basis points.
pub open spec fn max_slippage_bps() -> u16 {
    1000
}

/// Validates that slippage is within acceptable limits
pub fn validate_slippage_bps(slippage_bps: u16) -> (checked: Result<(), String>)
    ensures
        checked is Ok <==> slippage_bps <= max_slippage_bps(),
        checked matches Err(reason) ==> reason@ == "Slippage must be <= 1000 (10%)"@,
{
    if slippage_bps > 1000 {
        Err("Slippage must be <= 1000 (10%)".to_owned())
    } else {
        Ok(())
    }
}

/// What is left of `amount` after `bps` basis points are taken off,
/// rounded down; nothing is left from 10000 basis points on.
pub open spec fn after_deduction(amount: u64, bps: u16) -> nat {
    if bps >= 10000 {
        0
    } else {
        (amount as nat * (10000 - bps) as nat) / 10000
    }
}

/// Calculates the minimum amount after applying slippage
pub fn cal_slippage_amount(amount: u64, slippage_bps: u16) -> (kept: u64)
    ensures
        kept == after_deduction(amount, slippage_bps),
        kept <= amount,
{
    if slippage_bps >= 10000 {
        0
    } else {
        let share: u128 = (10000 - slippage_bps) as u128;
        assert(amount as u128 * share <= u128::MAX && amount as u128 * share / 10000 <= amount)
            by (nonlinear_arith)
            requires
                amount <= u64::MAX,
                0 < share <= 10000,
        ;
        (amount as u128 * share / 10000) as u64
    }
}

/// Calculates the minimum output amount considering slippage
pub fn cal_minimum_out_amount(out_amount: u64, slippage_bps: u16) -> (kept: u64)
    ensures
        kept == after_deduction(out_amount, slippage_bps),
        kept <= out_amount,
{
    cal_slippage_amount(out_amount, slippage_bps)
}

/// Whether a character is one of `0-9`, `a-f`, `A-F`.
pub open spec fn is_hex_digit(c: char) -> bool {
    ('0' <= c <= '9') || ('a' <= c <= 'f') || ('A' <= c <= 'F')
}

/// Validates transaction signature format: 88 bytes of text, all of them
/// hexadecimal digits.
pub fn validate_transaction_signature(signature: &str) -> (valid: bool)
    ensures
        valid == (signature.spec_bytes().len() == 88 && forall|i: int|
            0 <= i < signature@.len() ==> is_hex_digit(#[trigger] signature@[i])),
{
    if signature.as_bytes().len() != 88 {
        return false;
    }
    let chars = signature.chars();
    for c in it: chars
        invariant
            it.seq() == signature@,
            forall|i: int| 0 <= i < it.index() ==> is_hex_digit(#[trigger] signature@[i]),
    {
        let hex = ('0' <= c && c <= '9') || ('a' <= c && c <= 'f') || ('A' <= c && c <= 'F');
        if !hex {
            assert(!is_hex_digit(signature@[it.index() as int]));
            return false;
        }
    }
    true
}

/// What decoding a public key from its base58 text gives: the 32 bytes of
/// the key, or the decoder's message.
pub uninterp spec fn pubkey_parse(text: Seq<char>) -> Result<Seq<u8>, Seq<char>>;

/// The outcome of decoding a public key, as a mathematical value.
pub open spec fn pubkey_view(parsed: Result<Vec<u8>, String>) -> Result<Seq<u8>, Seq<char>> {
    match parsed {
        Ok(bytes) => Ok(bytes@),
        Err(reason) => Err(reason@),
    }
}

/// Decodes a public key with `solana_sdk::pubkey::Pubkey::from_str`.
///
/// Trusted, not proved: the outcome depends on the text alone.  On success
/// it holds the bytes of the key, of which there are 32; on failure the
/// `Display` form of the decoder's error.
#[verifier::external_body]
fn decode_pubkey(address: &str) -> (parsed: Result<Vec<u8>, String>)
    ensures
        pubkey_view(parsed) == pubkey_parse(address@),
        parsed matches Ok(bytes) ==> bytes@.len() == 32,
{
    match solana_sdk::pubkey::Pubkey::from_str(address) {
        Ok(key) => Ok(key.to_bytes().to_vec()),
        Err(error) => Err(error.to_string()),
    }
}

/// Validates a Solana public key string and converts it to the key's bytes
pub fn validate_pubkey(address: &str) -> (parsed: Result<Vec<u8>, String>)
    ensures
        pubkey_view(parsed) == pubkey_parse(address@),
        parsed matches Ok(bytes) ==> bytes@.len() == 32,
{
    decode_pubkey(address)
}

/// Checks if a string is a valid mint address
pub fn is_valid_mint_address(address: &str) -> (valid: bool)
    ensures
        valid == pubkey_parse(address@) is Ok,
{
    validate_pubkey(address).is_ok()
}


/// The share of `amount` that `bps` basis points make, rounded down.
pub open spec fn share_of(amount: u64, bps: u16) -> nat {
    amount as nat * bps as nat / 10000
}

/// A difference that stops at zero.
pub open spec fn minus_or_zero(from: nat, take: nat) -> nat {
    if take >= from {
        0
    } else {
        (from - take) as nat
    }
}

/// The platform fee that a quote states, or zero where it states none or
/// states something that is no amount.
pub open spec fn platform_fee_of(quote: QuoteResponse) -> nat {
    match quote.platform_fee {
        Some(fee) => match parse_integer(encode_utf8(fee.amount@)) {
            Ok(amount) => amount,
            Err(_) => 0,
        },
        None => 0,
    }
}

/// Calculates net output amount after deducting fees
///
/// From the output amount of the quote, first the platform fee is taken
/// off and then the additional fee, which is `additional_fees_bps` basis
/// points of the output amount; neither takes the amount below zero.  An
/// output amount that is no integer is an error.
pub fn cal_net_output(
    quote: &QuoteResponse,
    input_token: &TokenInfo,
    output_token: &TokenInfo,
    additional_fees_bps: u16,
) -> (net: Result<u64, String>)
    ensures
        match parse_integer(encode_utf8(quote.out_amount@)) {
            Ok(out_amount) => net == Ok::<u64, String>(
                minus_or_zero(
                    minus_or_zero(out_amount, platform_fee_of(*quote)),
                    share_of(out_amount as u64, additional_fees_bps),
                ) as u64,
            ),
            Err(error) => net matches Err(reason) && reason@ == integer_error_debug(error),
        },
{
    let out_amount = match parse_u64(quote.out_amount.as_str()) {
        Ok(amount) => amount,
        Err(error) => {
            return Err(error.debug_text().to_owned());
        },
    };
    let platform_fee: u64 = match &quote.platform_fee {
        Some(fee) => match parse_u64(fee.amount.as_str()) {
            Ok(amount) => amount,
            Err(_) => 0,
        },
        None => 0,
    };
    assert(out_amount as u128 * additional_fees_bps as u128 <= u128::MAX) by (nonlinear_arith)
        requires
            out_amount <= u64::MAX,
            additional_fees_bps <= u16::MAX,
    ;
    let additional_fee: u128 = out_amount as u128 * additional_fees_bps as u128 / 10000;
    let after_platform: u64 = if platform_fee >= out_amount {
        0
    } else {
        out_amount - platform_fee
    };
    let net: u64 = if additional_fee >= after_platform as u128 {
        0
    } else {
        after_platform - additional_fee as u64
    };
    Ok(net)
}

/// Whether `tokens[index]` is the last token of the list with its address.
pub open spec fn is_last_with_address(tokens: Seq<TokenInfo>, index: int) -> bool {
    &&& 0 <= index < tokens.len()
    &&& forall|later: int|
        index < later < tokens.len() ==> (#[trigger] tokens[later]).address@
            != tokens[index].address@
}

/// Builds a map of token addresses to token information
///
/// The map holds the addresses of the list and no others.  Where several
/// tokens share an address, the address leads to the last of them.
pub fn build_token_map<'a>(tokens: &'a [TokenInfo]) -> (map: StringHashMap<&'a TokenInfo>)
    ensures
        forall|address: Seq<char>| #[trigger]
            map@.contains_key(address) <==> exists|index: int|
                0 <= index < tokens@.len() && (#[trigger] tokens@[index]).address@ == address,
        forall|index: int|
            is_last_with_address(tokens@, index) ==> map@.contains_key(
                (#[trigger] tokens@[index]).address@,
            ) && *map@[tokens@[index].address@] == tokens@[index],
{
    let mut map: StringHashMap<&'a TokenInfo> = StringHashMap::new();
    let mut done: usize = 0;
    while done < tokens.len()
        invariant
            done <= tokens@.len(),
            forall|address: Seq<char>| #[trigger]
                map@.contains_key(address) <==> exists|index: int|
                    0 <= index < done && (#[trigger] tokens@[index]).address@ == address,
            forall|index: int|
                is_last_with_address(tokens@.take(done as int), index) ==> map@.contains_key(
                    (#[trigger] tokens@[index]).address@,
                ) && *map@[tokens@[index].address@] == tokens@[index],
        decreases tokens@.len() - done,
    {
        let token = &tokens[done];
        let ghost before = map@;
        map.insert(token.address.clone(), token);
        proof {
            let now = tokens@.take(done + 1);
            let earlier = tokens@.take(done as int);
            assert forall|address: Seq<char>| #[trigger]
                map@.contains_key(address) <==> exists|index: int|
                    0 <= index < done + 1 && (#[trigger] tokens@[index]).address@
                        == address by {
                if address == token.address@ {
                    assert(tokens@[done as int].address@ == address);
                } else if before.contains_key(address) {
                    let index = choose|index: int|
                        0 <= index < done && (#[trigger] tokens@[index]).address@ == address;
                    assert(0 <= index < done + 1 && tokens@[index].address@ == address);
                }
            }
            assert forall|index: int| is_last_with_address(now, index) implies map@.contains_key(
                (#[trigger] tokens@[index]).address@,
            ) && *map@[tokens@[index].address@] == tokens@[index] by {
                assert(now[index] == tokens@[index]);
                if index < done {
                    assert(now[done as int] == tokens@[done as int]);
                    assert(tokens@[index].address@ != token.address@);
                    assert(is_last_with_address(earlier, index)) by {
                        assert forall|later: int| index < later < earlier.len() implies (
                        #[trigger] earlier[later]).address@ != earlier[index].address@ by {
                            assert(now[later] == earlier[later]);
                        }
                    }
                }
            }
        }
        done += 1;
    }
    assert(tokens@.take(done as int) =~= tokens@);
    map
}

} // verus!
