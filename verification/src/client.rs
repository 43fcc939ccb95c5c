//! What the API client decides before a request goes out and after an
//! answer comes in: validation of requests, and the error that a failed
//! response stands for.  Sending and receiving is the caller's business.

use crate::global::DEFAULT_SLIPPAGE_BPS;
use crate::tool::{is_valid_mint_address, pubkey_parse, validate_pubkey, validate_slippage_bps};
use crate::types::{JupiterError, QuoteRequest, QuoteResponse, SwapRequest, TokenInfo};
use vstd::prelude::*;

verus! {

/// A text in the debug form of the standard library: between double
/// quotes, with the characters that need it written as escapes.
pub uninterp spec fn debug_form(text: Seq<char>) -> Seq<char>;

/// Writes a text in debug form, with the standard library's `Debug` for
/// `str`.
///
/// Trusted, not proved: the outcome depends on the text alone.
#[verifier::external_body]
fn debug_quoted(text: &str) -> (quoted: String)
    ensures
        quoted@ == debug_form(text@),
{
    format!("{:?}", text)
}

/// What is said of a mint address that does not decode.
pub open spec fn mint_fault(address: Seq<char>) -> Seq<char> {
    "Invalid mint address: "@ + address
}

/// The debug form of an invalid-input error with the given reason.
pub open spec fn invalid_input_debug(reason: Seq<char>) -> Seq<char> {
    "InvalidInput("@ + debug_form(reason) + ")"@
}

/// What is said of a slippage beyond the limit, in debug form.
pub open spec fn slippage_fault() -> Seq<char> {
    debug_form("Slippage must be <= 1000 (10%)"@)
}

/// Whether an HTTP status is in the success class.
pub open spec fn is_success(status: u16) -> bool {
    200 <= status <= 299
}

/// The text of the error for a response with a failure status: the status
/// line, then what the body said.
pub open spec fn failure_text(status_line: Seq<char>, body: Seq<char>) -> Seq<char> {
    "HTTP "@ + status_line + ": "@ + body
}

/// Checks whether an HTTP status is in the success class.
pub fn response_succeeded(status: u16) -> (succeeded: bool)
    ensures
        succeeded == is_success(status),
{
    200 <= status && status <= 299
}

/// The status by which a service says that the caller has used up its
/// allowance of requests.
pub open spec fn too_many_requests() -> u16 {
    429
}

/// The error that a response with a failure status stands for: rate
/// limiting where the status says so, and otherwise a failed request that
/// carries the status code.
pub open spec fn failure_of(status: u16, status_line: Seq<char>, body: Seq<char>, error: JupiterError)
    -> bool {
    if status == too_many_requests() {
        error matches JupiterError::RateLimitExceeded(message) && message@ == failure_text(
            status_line,
            body,
        )
    } else {
        error matches JupiterError::RequestFailed { status: code, message } && code == status
            && message@ == failure_text(status_line, body)
    }
}

/// The error for a response with the given status, status line and body.
/// A status of 429 is rate limiting, which is retried.  Any other failure
/// is a failed request that carries the status code, so that a 5xx answer
/// is later retried and a 4xx answer is not.
pub fn request_failed(status: u16, status_line: &str, body: &str) -> (error: JupiterError)
    ensures
        failure_of(status, status_line@, body@, error),
{
    let message = String::from_str("HTTP ").concat(status_line).concat(": ").concat(body);
    if status == 429 {
        JupiterError::RateLimitExceeded(message)
    } else {
        JupiterError::RequestFailed { status, message }
    }
}

/// Classifies a response by its status, at the point where the status is
/// known.  A success status is no error; 429 is rate limiting; any other
/// status is a failed request.
pub fn check_response(status: u16, status_line: &str, body: &str) -> (checked: Result<
    (),
    JupiterError,
>)
    ensures
        is_success(status) <==> checked is Ok,
        checked matches Err(error) ==> failure_of(status, status_line@, body@, error),
{
    if response_succeeded(status) {
        Ok(())
    } else {
        Err(request_failed(status, status_line, body))
    }
}

/// The verdict on a mint address, given whether it decodes: an address
/// that does not is invalid input.
pub fn mint_address_verdict(address: &str, decodes: bool) -> (checked: Result<(), JupiterError>)
    ensures
        decodes <==> checked is Ok,
        !decodes ==> (checked matches Err(JupiterError::InvalidInput(reason)) && reason@
            == mint_fault(address@)),
{
    if !decodes {
        return Err(
            JupiterError::InvalidInput(String::from_str("Invalid mint address: ").concat(address)),
        );
    }
    Ok(())
}

/// Checks that `address` is a mint address.
pub fn validate_mint_address(address: &str) -> (checked: Result<(), JupiterError>)
    ensures
        pubkey_parse(address@) is Ok <==> checked is Ok,
        pubkey_parse(address@) is Err ==> (checked matches Err(JupiterError::InvalidInput(reason))
            && reason@ == mint_fault(address@)),
{
    mint_address_verdict(address, is_valid_mint_address(address))
}

/// The verdict on a user's public key, given the outcome of decoding it:
/// a key that does not decode is invalid input, with the decoder's message.
pub fn user_pubkey_verdict(decoded: Result<Vec<u8>, String>) -> (checked: Result<
    (),
    JupiterError,
>)
    ensures
        match decoded {
            Ok(_) => checked is Ok,
            Err(cause) => checked matches Err(JupiterError::InvalidInput(reason)) && reason@
                == "Invalid public key: "@ + cause@,
        },
{
    match decoded {
        Ok(_) => Ok(()),
        Err(cause) => Err(
            JupiterError::InvalidInput(
                String::from_str("Invalid public key: ").concat(cause.as_str()),
            ),
        ),
    }
}

/// Checks that `pubkey` is a public key.
pub fn validate_user_pubkey(pubkey: &str) -> (checked: Result<(), JupiterError>)
    ensures
        match pubkey_parse(pubkey@) {
            Ok(_) => checked is Ok,
            Err(cause) => checked matches Err(JupiterError::InvalidInput(reason)) && reason@
                == "Invalid public key: "@ + cause,
        },
{
    user_pubkey_verdict(validate_pubkey(pubkey))
}

/// The verdict on a slippage: one beyond the limit is reported as a plain
/// error that holds the reason in debug form.
pub fn slippage_verdict(slippage_bps: u16) -> (checked: Result<(), JupiterError>)
    ensures
        checked is Ok <==> slippage_bps <= 1000,
        slippage_bps > 1000 ==> (checked matches Err(JupiterError::Error(reason)) && reason@
            == slippage_fault()),
{
    match validate_slippage_bps(slippage_bps) {
        Err(reason) => Err(JupiterError::Error(debug_quoted(reason.as_str()))),
        Ok(_) => Ok(()),
    }
}

/// The verdict on the parameters of a route query, given whether the two
/// mints decode: both must, and the slippage must be within the limit.
/// The first of these that fails, in this order, gives the error: invalid
/// input for a mint, a plain error for the slippage.
pub fn route_query_verdict(
    input_mint: &str,
    input_decodes: bool,
    output_mint: &str,
    output_decodes: bool,
    slippage_bps: u16,
) -> (checked: Result<(), JupiterError>)
    ensures
        checked is Ok <==> (input_decodes && output_decodes && slippage_bps <= 1000),
        !input_decodes ==> (checked matches Err(JupiterError::InvalidInput(reason)) && reason@
            == mint_fault(input_mint@)),
        input_decodes && !output_decodes ==> (checked matches Err(
            JupiterError::InvalidInput(reason),
        ) && reason@ == mint_fault(output_mint@)),
        input_decodes && output_decodes && slippage_bps > 1000 ==> (checked matches Err(
            JupiterError::Error(reason),
        ) && reason@ == slippage_fault()),
{
    match mint_address_verdict(input_mint, input_decodes) {
        Err(error) => {
            return Err(error);
        },
        Ok(_) => {},
    }
    match mint_address_verdict(output_mint, output_decodes) {
        Err(error) => {
            return Err(error);
        },
        Ok(_) => {},
    }
    slippage_verdict(slippage_bps)
}

/// Checks the parameters of a route query: both mints, then the slippage.
pub fn validate_route_query(input_mint: &str, output_mint: &str, slippage_bps: u16) -> (checked:
    Result<(), JupiterError>)
    ensures
        checked is Ok <==> (pubkey_parse(input_mint@) is Ok && pubkey_parse(output_mint@) is Ok
            && slippage_bps <= 1000),
        pubkey_parse(input_mint@) is Err ==> (checked matches Err(
            JupiterError::InvalidInput(reason),
        ) && reason@ == mint_fault(input_mint@)),
        pubkey_parse(input_mint@) is Ok && pubkey_parse(output_mint@) is Err ==> (checked matches Err(
            JupiterError::InvalidInput(reason),
        ) && reason@ == mint_fault(output_mint@)),
        pubkey_parse(input_mint@) is Ok && pubkey_parse(output_mint@) is Ok && slippage_bps > 1000
            ==> (checked matches Err(JupiterError::Error(reason)) && reason@ == slippage_fault()),
{
    route_query_verdict(
        input_mint,
        is_valid_mint_address(input_mint),
        output_mint,
        is_valid_mint_address(output_mint),
        slippage_bps,
    )
}

/// The verdict on a mint of a quote request, given whether it decodes: one
/// that does not is reported as a plain error that holds the invalid-input
/// error in debug form.
pub fn quoted_mint_verdict(address: &str, decodes: bool) -> (checked: Result<(), JupiterError>)
    ensures
        decodes <==> checked is Ok,
        !decodes ==> (checked matches Err(JupiterError::Error(reason)) && reason@
            == invalid_input_debug(mint_fault(address@))),
{
    if decodes {
        return Ok(());
    }
    let fault = String::from_str("Invalid mint address: ").concat(address);
    let text = String::from_str("InvalidInput(").concat(debug_quoted(fault.as_str()).as_str()).concat(
        ")",
    );
    Err(JupiterError::Error(text))
}

/// The verdict on a quote request, given whether its two mints decode:
/// both must, the slippage must be within the limit, and the amount must
/// be positive.  The first of these that fails, in this order, gives the
/// error: a plain error for a mint or the slippage, invalid input for the
/// amount.
pub fn quote_request_verdict(request: &QuoteRequest, input_decodes: bool, output_decodes: bool) -> (checked:
    Result<(), JupiterError>)
    ensures
        checked is Ok <==> (input_decodes && output_decodes && request.slippage_bps <= 1000
            && request.amount > 0),
        !input_decodes ==> (checked matches Err(JupiterError::Error(reason)) && reason@
            == invalid_input_debug(mint_fault(request.input_mint@))),
        input_decodes && !output_decodes ==> (checked matches Err(JupiterError::Error(reason))
            && reason@ == invalid_input_debug(mint_fault(request.output_mint@))),
        input_decodes && output_decodes && request.slippage_bps > 1000 ==> (checked matches Err(
            JupiterError::Error(reason),
        ) && reason@ == slippage_fault()),
        input_decodes && output_decodes && request.slippage_bps <= 1000 && request.amount == 0
            ==> (checked matches Err(JupiterError::InvalidInput(reason)) && reason@
            == "Amount must be greater than 0"@),
{
    match quoted_mint_verdict(request.input_mint.as_str(), input_decodes) {
        Err(error) => {
            return Err(error);
        },
        Ok(_) => {},
    }
    match quoted_mint_verdict(request.output_mint.as_str(), output_decodes) {
        Err(error) => {
            return Err(error);
        },
        Ok(_) => {},
    }
    match slippage_verdict(request.slippage_bps) {
        Err(error) => {
            return Err(error);
        },
        Ok(_) => {},
    }
    if request.amount == 0 {
        return Err(JupiterError::InvalidInput(String::from_str("Amount must be greater than 0")));
    }
    Ok(())
}

/// Checks a quote request: both mints must be addresses, the slippage must
/// be within the limit, and the amount must be positive.  The first of
/// these that fails, in this order, gives the error.
pub fn validate_quote_request(request: &QuoteRequest) -> (checked: Result<(), JupiterError>)
    ensures
        checked is Ok <==> (pubkey_parse(request.input_mint@) is Ok && pubkey_parse(
            request.output_mint@,
        ) is Ok && request.slippage_bps <= 1000 && request.amount > 0),
        pubkey_parse(request.input_mint@) is Err ==> (checked matches Err(
            JupiterError::Error(reason),
        ) && reason@ == invalid_input_debug(mint_fault(request.input_mint@))),
        pubkey_parse(request.input_mint@) is Ok && pubkey_parse(request.output_mint@) is Err ==> (
        checked matches Err(JupiterError::Error(reason)) && reason@ == invalid_input_debug(
            mint_fault(request.output_mint@),
        )),
        pubkey_parse(request.input_mint@) is Ok && pubkey_parse(request.output_mint@) is Ok
            && request.slippage_bps > 1000 ==> (checked matches Err(JupiterError::Error(reason))
            && reason@ == slippage_fault()),
        pubkey_parse(request.input_mint@) is Ok && pubkey_parse(request.output_mint@) is Ok
            && request.slippage_bps <= 1000 && request.amount == 0 ==> (checked matches Err(
            JupiterError::InvalidInput(reason),
        ) && reason@ == "Amount must be greater than 0"@),
{
    quote_request_verdict(
        request,
        is_valid_mint_address(request.input_mint.as_str()),
        is_valid_mint_address(request.output_mint.as_str()),
    )
}

/// Checks a swap request: the user's key must be a public key.
pub fn validate_swap_request(request: &SwapRequest) -> (checked: Result<(), JupiterError>)
    ensures
        match pubkey_parse(request.user_public_key@) {
            Ok(_) => checked is Ok,
            Err(cause) => checked matches Err(JupiterError::InvalidInput(reason)) && reason@
                == "Invalid public key: "@ + cause,
        },
{
    validate_user_pubkey(request.user_public_key.as_str())
}

/// The quote request for a plain swap: the given mints and amount, the
/// given slippage or the default one, and nothing else set.
pub fn simple_quote_request(
    input_mint: &str,
    output_mint: &str,
    amount: u64,
    slippage_bps: Option<u16>,
) -> (request: QuoteRequest)
    ensures
        request.input_mint@ == input_mint@,
        request.output_mint@ == output_mint@,
        request.amount == amount,
        request.slippage_bps == (match slippage_bps {
            Some(given) => given,
            None => DEFAULT_SLIPPAGE_BPS,
        }),
        request.fee_bps is None,
        request.only_direct_routes is None,
        request.as_legacy_transaction is None,
        request.restrict_middle_tokens is None,
{
    let slippage = match slippage_bps {
        Some(given) => given,
        None => DEFAULT_SLIPPAGE_BPS,
    };
    QuoteRequest {
        input_mint: String::from_str(input_mint),
        output_mint: String::from_str(output_mint),
        amount,
        slippage_bps: slippage,
        fee_bps: None,
        only_direct_routes: None,
        as_legacy_transaction: None,
        restrict_middle_tokens: None,
    }
}

/// The swap request for a quote, once the user's key has been checked.
pub fn swap_request(quote: QuoteResponse, user_public_key: &str, wrap_and_unwrap_sol: Option<bool>)
    -> (built: Result<SwapRequest, JupiterError>)
    ensures
        match pubkey_parse(user_public_key@) {
            Ok(_) => built matches Ok(request) && request.quote_response == quote
                && request.user_public_key@ == user_public_key@ && request.wrap_and_unwrap_sol
                == wrap_and_unwrap_sol && request.compute_unit_price is None
                && request.prioritization_fee_lamports is None,
            Err(cause) => built matches Err(JupiterError::InvalidInput(reason)) && reason@
                == "Invalid public key: "@ + cause,
        },
{
    match validate_user_pubkey(user_public_key) {
        Err(error) => Err(error),
        Ok(_) => Ok(
            SwapRequest {
                quote_response: quote,
                user_public_key: String::from_str(user_public_key),
                wrap_and_unwrap_sol,
                compute_unit_price: None,
                prioritization_fee_lamports: None,
            },
        ),
    }
}

/// The base fee of a transaction, in lamports, by the number of steps on
/// its route: 5000 micro-lamports for each of the compute units that a
/// route of that complexity is taken to need.
pub open spec fn base_fee(route_steps: nat) -> nat {
    if route_steps == 1 {
        500
    } else if route_steps == 2 {
        750
    } else {
        1000
    }
}

/// Calculate transaction fees - Estimate transaction execution costs
///
/// The estimate is the base fee of the route plus the priority fee, or an
/// error where the sum does not fit in 64 bits.
pub fn estimate_transaction_fee(quote: &QuoteResponse, priority_fee: Option<u64>) -> (estimate:
    Result<u64, JupiterError>)
    ensures
        ({
            let priority = match priority_fee {
                Some(fee) => fee as nat,
                None => 0,
            };
            let total = base_fee(quote.route_plan@.len()) + priority;
            if total <= u64::MAX {
                estimate == Ok::<u64, JupiterError>(total as u64)
            } else {
                estimate matches Err(JupiterError::InvalidInput(reason)) && reason@
                    == "Priority fee too large"@
            }
        }),
{
    let base_fee: u64 = 5000;
    let steps = quote.route_plan.len();
    let compute_units: u64 = if steps == 1 {
        100_000
    } else if steps == 2 {
        150_000
    } else {
        200_000
    };
    let total_fee: u64 = base_fee * compute_units / 1_000_000;
    let priority = match priority_fee {
        Some(fee) => fee,
        None => 0,
    };
    if priority > u64::MAX - total_fee {
        Err(JupiterError::InvalidInput(String::from_str("Priority fee too large")))
    } else {
        Ok(total_fee + priority)
    }
}


/// The parts written one after the other with the separator between them.
pub open spec fn joined(parts: Seq<Seq<char>>, separator: Seq<char>) -> Seq<char>
    decreases parts.len(),
{
    if parts.len() == 0 {
        Seq::empty()
    } else if parts.len() == 1 {
        parts[0]
    } else {
        joined(parts.drop_last(), separator) + separator + parts.last()
    }
}

/// The texts of a list of strings.
pub open spec fn texts(strings: Seq<String>) -> Seq<Seq<char>> {
    strings.map_values(|text: String| text@)
}

/// The `ids` parameter of a price query: the token ids, separated by
/// commas.  A query for no token at all is refused.
pub fn price_query_ids(ids: &[String]) -> (query: Result<String, JupiterError>)
    ensures
        ids@.len() > 0 ==> (query matches Ok(text) && text@ == joined(texts(ids@), ","@)),
        ids@.len() == 0 ==> (query matches Err(JupiterError::InvalidInput(reason)) && reason@
            == "No token IDs provided"@),
{
    if ids.len() == 0 {
        return Err(JupiterError::InvalidInput(String::from_str("No token IDs provided")));
    }
    let mut text = ids[0].clone();
    assert(texts(ids@).take(1) =~= seq![ids@[0]@]);
    let mut done: usize = 1;
    while done < ids.len()
        invariant
            1 <= done <= ids@.len(),
            text@ == joined(texts(ids@).take(done as int), ","@),
        decreases ids@.len() - done,
    {
        text.append(",");
        text.append(ids[done].as_str());
        proof {
            let now = texts(ids@).take(done + 1);
            assert(now.drop_last() =~= texts(ids@).take(done as int));
            assert(now.last() == ids@[done as int]@);
        }
        done += 1;
    }
    assert(texts(ids@).take(done as int) =~= texts(ids@));
    Ok(text)
}

/// The id of a token priced in another: the two mints with a colon between.
pub open spec fn pair_id(pair: (String, String)) -> Seq<char> {
    pair.0@ + ":"@ + pair.1@
}

/// The `ids` parameter of a query for the prices of token pairs, each given
/// as the mint and the token it is priced in; `None` where there is no pair
/// to ask about.
pub fn pair_query_ids(pairs: &[(String, String)]) -> (query: Option<String>)
    ensures
        pairs@.len() == 0 <==> query is None,
        query matches Some(text) ==> text@ == joined(
            pairs@.map_values(|pair: (String, String)| pair_id(pair)),
            ","@,
        ),
{
    if pairs.len() == 0 {
        return None;
    }
    let ghost ids = pairs@.map_values(|pair: (String, String)| pair_id(pair));
    let mut text = pairs[0].0.clone();
    text.append(":");
    text.append(pairs[0].1.as_str());
    assert(ids.take(1) =~= seq![pair_id(pairs@[0])]);
    let mut done: usize = 1;
    while done < pairs.len()
        invariant
            1 <= done <= pairs@.len(),
            ids == pairs@.map_values(|pair: (String, String)| pair_id(pair)),
            text@ == joined(ids.take(done as int), ","@),
        decreases pairs@.len() - done,
    {
        let ghost before = text@;
        text.append(",");
        text.append(pairs[done].0.as_str());
        text.append(":");
        text.append(pairs[done].1.as_str());
        proof {
            let now = ids.take(done + 1);
            assert(now.drop_last() =~= ids.take(done as int));
            assert(now.last() == pair_id(pairs@[done as int]));
            assert(text@ =~= before + ","@ + pair_id(pairs@[done as int]));
        }
        done += 1;
    }
    assert(ids.take(done as int) =~= ids);
    Some(text)
}

/// Whether a token carries a tag.
pub open spec fn has_tag(token: TokenInfo, tag: Seq<char>) -> bool {
    exists|i: int| 0 <= i < token.tags@.len() && (#[trigger] token.tags@[i])@ == tag
}

/// Checks whether a token carries a tag.
pub fn token_has_tag(token: &TokenInfo, tag: &String) -> (found: bool)
    ensures
        found == has_tag(*token, tag@),
{
    let mut at: usize = 0;
    while at < token.tags.len()
        invariant
            at <= token.tags@.len(),
            forall|i: int| 0 <= i < at ==> (#[trigger] token.tags@[i])@ != tag@,
        decreases token.tags@.len() - at,
    {
        if token.tags[at] == *tag {
            return true;
        }
        at += 1;
    }
    false
}

/// Filter tokens by tag: the tokens that carry the tag, in their order.
pub fn tokens_with_tag(tokens: Vec<TokenInfo>, tag: &str) -> (tagged: Vec<TokenInfo>)
    ensures
        tagged@ == tokens@.filter(|token: TokenInfo| has_tag(token, tag@)),
{
    let wanted = String::from_str(tag);
    let ghost all = tokens@;
    let ghost carries = |token: TokenInfo| has_tag(token, tag@);
    let mut tagged: Vec<TokenInfo> = Vec::new();
    assert(all.take(0).filter(carries) =~= Seq::<TokenInfo>::empty()) by {
        reveal(Seq::filter);
    }
    for token in it: tokens.into_iter()
        invariant
            it.seq() == all,
            wanted@ == tag@,
            carries == (|token: TokenInfo| has_tag(token, tag@)),
            tagged@ == all.take(it.index()).filter(carries),
    {
        proof {
            reveal(Seq::filter);
            let now = all.take(it.index() + 1);
            assert(now.drop_last() =~= all.take(it.index()));
            assert(now.last() == token);
        }
        if token_has_tag(&token, &wanted) {
            tagged.push(token);
        }
    }
    assert(all.take(all.len() as int) =~= all);
    tagged
}

/// Finds a token by address: the place of the first token of the list with
/// that address, if there is one.
pub fn find_token_by_address(tokens: &[TokenInfo], address: &str) -> (found: Option<usize>)
    ensures
        match found {
            Some(at) => at < tokens@.len() && tokens@[at as int].address@ == address@
                && forall|before: int|
                0 <= before < at ==> (#[trigger] tokens@[before]).address@ != address@,
            None => forall|i: int|
                0 <= i < tokens@.len() ==> (#[trigger] tokens@[i]).address@ != address@,
        },
{
    let wanted = String::from_str(address);
    let mut at: usize = 0;
    while at < tokens.len()
        invariant
            at <= tokens@.len(),
            wanted@ == address@,
            forall|before: int|
                0 <= before < at ==> (#[trigger] tokens@[before]).address@ != address@,
        decreases tokens@.len() - at,
    {
        if tokens[at].address == wanted {
            return Some(at);
        }
        at += 1;
    }
    None
}

/// How many of `total` routes are kept as alternatives to the best one,
/// which is the first: at most `max_routes`, or three where no limit is
/// given, and never more than there are.
pub open spec fn alternatives_kept(total: nat, max_routes: Option<usize>) -> nat {
    let limit = match max_routes {
        Some(limit) => limit as nat,
        None => 3,
    };
    if total <= 1 {
        0
    } else if limit <= total - 1 {
        limit
    } else {
        (total - 1) as nat
    }
}

/// Splits the routes of a quote into the best route, which is the first,
/// and the alternatives kept beside it.  No routes at all is an error.
pub fn split_routes(routes: Vec<QuoteResponse>, max_routes: Option<usize>) -> (split: Result<
    (QuoteResponse, Vec<QuoteResponse>),
    JupiterError,
>)
    ensures
        routes@.len() == 0 ==> (split matches Err(
            JupiterError::RequestFailed { status, message },
        ) && status == 200 && message@ == "No routes found"@),
        routes@.len() > 0 ==> (split matches Ok(pair) && pair.0 == routes@[0] && pair.1@
            == routes@.subrange(
            1,
            1 + alternatives_kept(routes@.len(), max_routes) as int,
        )),
{
    let total = routes.len();
    if total == 0 {
        return Err(
            JupiterError::RequestFailed {
                status: 200,
                message: String::from_str("No routes found"),
            },
        );
    }
    let limit = match max_routes {
        Some(limit) => limit,
        None => 3,
    };
    let kept = if limit <= total - 1 {
        limit
    } else {
        total - 1
    };
    let ghost all = routes@;
    let mut best: Option<QuoteResponse> = None;
    let mut alternatives: Vec<QuoteResponse> = Vec::new();
    let mut seen: usize = 0;
    for route in it: routes.into_iter()
        invariant
            it.seq() == all,
            all.len() == total,
            seen == it.index(),
            kept <= total - 1,
            seen == 0 ==> best is None && alternatives@.len() == 0,
            seen > 0 ==> best == Some(all[0]),
            0 < seen <= kept ==> alternatives@ == all.subrange(1, seen as int),
            seen > kept ==> alternatives@ == all.subrange(1, 1 + kept),
    {
        if seen == 0 {
            best = Some(route);
            assert(alternatives@ =~= all.subrange(1, 1));
        } else if seen <= kept {
            alternatives.push(route);
            assert(alternatives@ =~= all.subrange(1, seen + 1));
        }
        seen += 1;
    }
    match best {
        Some(best) => Ok((best, alternatives)),
        None => Err(
            JupiterError::RequestFailed {
                status: 200,
                message: String::from_str("No routes found"),
            },
        ),
    }
}

} // verus!
