use jup_sdk::client::{
    check_response, estimate_transaction_fee, find_token_by_address, mint_address_verdict,
    pair_query_ids, price_query_ids, quote_request_verdict, quoted_mint_verdict, request_failed,
    response_succeeded, route_query_verdict, simple_quote_request, slippage_verdict,
    split_routes, swap_request, token_has_tag, tokens_with_tag, user_pubkey_verdict,
    validate_mint_address, validate_quote_request, validate_route_query, validate_swap_request,
    validate_user_pubkey,
};
use jup_sdk::global::{
    DEFAULT_FEE_BPS, DEFAULT_SLIPPAGE_BPS, JUPITER_BASE_URL, MAX_RETRIES, MAX_SLIPPAGE_BPS,
    REQUEST_TIMEOUT_SECONDS, RETRY_DELAY_MS,
};
use jup_sdk::retry::ErrorCategory;
use jup_sdk::tool::{build_token_map, cal_net_output};
use jup_sdk::types::{
    AdvancedSwapConfig, JupiterError, PlatformFee, QuoteRequest, QuoteResponse, RateLimiter,
    RoutePlan, SwapExecutionResult, SwapInfo, SwapRequest, SwapResponse, TokenInfo,
};
use jup_sdk::ClientConfig;

const SOL: &str = "So11111111111111111111111111111111111111112";
const USDC: &str = "EPjFWdd5AufqSSqeM2qN1xzybapC8G4wEGGkZwyTDt1v";

fn quote_request(input: &str, output: &str, amount: u64, slippage_bps: u16) -> QuoteRequest {
    QuoteRequest {
        input_mint: input.to_string(),
        output_mint: output.to_string(),
        amount,
        slippage_bps,
        fee_bps: None,
        only_direct_routes: None,
        as_legacy_transaction: None,
        restrict_middle_tokens: None,
    }
}

fn step(label: &str) -> RoutePlan {
    RoutePlan {
        swap_info: SwapInfo {
            amm_key: "amm".to_string(),
            label: label.to_string(),
            input_mint: SOL.to_string(),
            output_mint: USDC.to_string(),
            in_amount: "1".to_string(),
            out_amount: "2".to_string(),
            fee_amount: "0".to_string(),
            fee_mint: SOL.to_string(),
        },
        percent: 100,
    }
}

fn quote(out_amount: &str, steps: usize, platform_fee: Option<&str>) -> QuoteResponse {
    QuoteResponse {
        input_mint: SOL.to_string(),
        output_mint: USDC.to_string(),
        in_amount: "1000".to_string(),
        out_amount: out_amount.to_string(),
        other_amount_threshold: "0".to_string(),
        swap_mode: "ExactIn".to_string(),
        slippage_bps: 50,
        platform_fee: platform_fee.map(|amount| PlatformFee { amount: amount.to_string(), fee_bps: 5 }),
        price_impact_pct: "0.1".to_string(),
        route_plan: (0..steps).map(|i| step(&format!("step{}", i))).collect(),
        context_slot: 1,
        time_taken_micros: 1_500,
    }
}

fn token(address: &str, symbol: &str, tags: &[&str]) -> TokenInfo {
    TokenInfo {
        address: address.to_string(),
        chain_id: 101,
        decimals: 6,
        name: symbol.to_string(),
        symbol: symbol.to_string(),
        logo_uri: String::new(),
        tags: tags.iter().map(|tag| tag.to_string()).collect(),
        extensions: None,
    }
}

#[test]
fn constants_hold_the_documented_defaults() {
    assert_eq!(JUPITER_BASE_URL, "https://quote-api.jup.ag/v6");
    assert_eq!(DEFAULT_SLIPPAGE_BPS, 50);
    assert_eq!(DEFAULT_FEE_BPS, 0);
    assert_eq!(MAX_SLIPPAGE_BPS, 1000);
    assert_eq!(REQUEST_TIMEOUT_SECONDS, 30);
    assert_eq!(MAX_RETRIES, 3);
    assert_eq!(RETRY_DELAY_MS, 500);
}

#[test]
fn default_client_config_matches_the_constants() {
    let config = ClientConfig::default();
    assert_eq!(config.base_url, "https://quote-api.jup.ag/v6");
    assert_eq!(config.timeout_ms, 30_000);
    assert_eq!(config.connect_timeout_ms, 10_000);
    assert_eq!(config.pool_idle_timeout_ms, 90_000);
    assert_eq!(config.pool_max_idle_per_host, 10);
    assert_eq!(config.user_agent, "jup-sdk/0.1.0");
    assert_eq!(config.max_retries, 3);
    assert_eq!(config.retry_delay_ms, 500);
    assert_eq!(config.rate_limit_requests_per_second, Some(10));
    let limited = ClientConfig::with_rate_limit(4);
    assert_eq!(limited.rate_limit_requests_per_second, Some(4));
    assert_eq!(limited.base_url, "https://quote-api.jup.ag/v6");
}

#[test]
fn success_statuses_are_the_two_hundreds() {
    assert!(response_succeeded(200));
    assert!(response_succeeded(204));
    assert!(response_succeeded(299));
    assert!(!response_succeeded(199));
    assert!(!response_succeeded(300));
    assert!(!response_succeeded(404));
    assert!(!response_succeeded(500));
    assert!(check_response(200, "200 OK", "").is_ok());
}

#[test]
fn failure_status_becomes_classified_request_error() {
    match check_response(503, "503 Service Unavailable", "try later") {
        Err(error) => {
            assert_eq!(error.category(), ErrorCategory::Server);
            assert!(error.is_retriable());
            assert_eq!(error.message(), "Request failed: HTTP 503 Service Unavailable: try later");
            assert!(matches!(error, JupiterError::RequestFailed { status: 503, .. }));
        }
        Ok(()) => panic!("503 is no success"),
    }
    let limited = request_failed(429, "429 Too Many Requests", "slow down");
    assert_eq!(limited.category(), ErrorCategory::RateLimit);
    assert!(limited.is_retriable());
    assert!(matches!(
        limited,
        JupiterError::RateLimitExceeded(message) if message == "HTTP 429 Too Many Requests: slow down"
    ));
    assert!(matches!(
        check_response(429, "429 Too Many Requests", ""),
        Err(JupiterError::RateLimitExceeded(_))
    ));
    let error = request_failed(404, "404 Not Found", "error 500 items");
    assert_eq!(error.category(), ErrorCategory::Client);
    assert!(!error.is_retriable());
    assert!(matches!(
        error,
        JupiterError::RequestFailed { status: 404, message } if message == "HTTP 404 Not Found: error 500 items"
    ));
}

#[test]
fn mint_address_must_decode() {
    assert!(validate_mint_address(SOL).is_ok());
    assert!(matches!(
        validate_mint_address("nope"),
        Err(JupiterError::InvalidInput(reason)) if reason == "Invalid mint address: nope"
    ));
    assert!(matches!(
        validate_mint_address(""),
        Err(JupiterError::InvalidInput(reason)) if reason == "Invalid mint address: "
    ));
}

#[test]
fn user_key_must_decode() {
    assert!(validate_user_pubkey(USDC).is_ok());
    assert!(matches!(
        validate_user_pubkey("0OIl"),
        Err(JupiterError::InvalidInput(reason)) if reason == "Invalid public key: Invalid Base58 string"
    ));
    assert!(matches!(
        validate_user_pubkey("abc"),
        Err(JupiterError::InvalidInput(reason)) if reason == "Invalid public key: String is the wrong size"
    ));
}

#[test]
fn quote_request_is_checked_in_order() {
    assert!(validate_quote_request(&quote_request(SOL, USDC, 1, 1000)).is_ok());
    assert!(matches!(
        validate_quote_request(&quote_request("bad-in", "bad-out", 0, 5000)),
        Err(JupiterError::Error(reason)) if reason == "InvalidInput(\"Invalid mint address: bad-in\")"
    ));
    assert!(matches!(
        validate_quote_request(&quote_request(SOL, "bad-out", 0, 5000)),
        Err(JupiterError::Error(reason)) if reason == "InvalidInput(\"Invalid mint address: bad-out\")"
    ));
    assert!(matches!(
        validate_quote_request(&quote_request(SOL, USDC, 0, 1001)),
        Err(JupiterError::Error(reason)) if reason == "\"Slippage must be <= 1000 (10%)\""
    ));
    let odd = "a\"b\\c\nd";
    assert!(matches!(
        validate_quote_request(&quote_request(odd, USDC, 1, 50)),
        Err(JupiterError::Error(reason))
            if reason == format!("{:?}", JupiterError::InvalidInput(format!("Invalid mint address: {}", odd)))
    ));
    assert!(matches!(
        validate_quote_request(&quote_request(SOL, USDC, 0, 1000)),
        Err(JupiterError::InvalidInput(reason)) if reason == "Amount must be greater than 0"
    ));
}

#[test]
fn validation_errors_are_never_retriable() {
    let errors = vec![
        validate_quote_request(&quote_request("bad", USDC, 1, 50)).unwrap_err(),
        validate_quote_request(&quote_request(SOL, USDC, 1, 2000)).unwrap_err(),
        validate_quote_request(&quote_request(SOL, USDC, 0, 50)).unwrap_err(),
    ];
    let categories: Vec<ErrorCategory> = errors.iter().map(|error| error.category()).collect();
    assert_eq!(
        categories,
        vec![ErrorCategory::Unknown, ErrorCategory::Unknown, ErrorCategory::Client]
    );
    for error in errors {
        assert!(!error.is_retriable());
    }
}

#[test]
fn route_query_is_checked_in_order() {
    assert!(validate_route_query(SOL, USDC, 50).is_ok());
    assert!(matches!(
        validate_route_query("x", "y", 5000),
        Err(JupiterError::InvalidInput(reason)) if reason == "Invalid mint address: x"
    ));
    assert!(matches!(
        validate_route_query(SOL, "y", 5000),
        Err(JupiterError::InvalidInput(reason)) if reason == "Invalid mint address: y"
    ));
    assert!(matches!(
        validate_route_query(SOL, USDC, 1001),
        Err(JupiterError::Error(reason)) if reason == "\"Slippage must be <= 1000 (10%)\""
    ));
}

#[test]
fn simple_quote_request_fills_in_default_slippage() {
    let request = simple_quote_request(SOL, USDC, 1_000_000, None);
    assert_eq!(request.input_mint, SOL);
    assert_eq!(request.output_mint, USDC);
    assert_eq!(request.amount, 1_000_000);
    assert_eq!(request.slippage_bps, 50);
    assert_eq!(request.fee_bps, None);
    assert_eq!(request.only_direct_routes, None);
    assert_eq!(request.as_legacy_transaction, None);
    assert_eq!(request.restrict_middle_tokens, None);
    assert_eq!(simple_quote_request(SOL, USDC, 1, Some(75)).slippage_bps, 75);
}

#[test]
fn swap_request_needs_a_valid_user_key() {
    let built = swap_request(quote("100", 1, None), USDC, Some(true)).expect("valid key");
    assert_eq!(built.user_public_key, USDC);
    assert_eq!(built.wrap_and_unwrap_sol, Some(true));
    assert_eq!(built.compute_unit_price, None);
    assert_eq!(built.prioritization_fee_lamports, None);
    assert_eq!(built.quote_response.out_amount, "100");
    assert!(validate_swap_request(&built).is_ok());
    assert!(matches!(
        swap_request(quote("100", 1, None), "abc", None),
        Err(JupiterError::InvalidInput(reason)) if reason == "Invalid public key: String is the wrong size"
    ));
    let broken = SwapRequest {
        quote_response: quote("100", 1, None),
        user_public_key: "0OIl".to_string(),
        wrap_and_unwrap_sol: None,
        compute_unit_price: None,
        prioritization_fee_lamports: None,
    };
    assert!(matches!(validate_swap_request(&broken), Err(JupiterError::InvalidInput(_))));
}

#[test]
fn fee_estimate_grows_with_route_length() {
    assert!(matches!(estimate_transaction_fee(&quote("1", 1, None), None), Ok(500)));
    assert!(matches!(estimate_transaction_fee(&quote("1", 2, None), None), Ok(750)));
    assert!(matches!(estimate_transaction_fee(&quote("1", 3, None), None), Ok(1_000)));
    assert!(matches!(estimate_transaction_fee(&quote("1", 0, None), None), Ok(1_000)));
    assert!(matches!(estimate_transaction_fee(&quote("1", 1, None), Some(250)), Ok(750)));
    assert!(matches!(
        estimate_transaction_fee(&quote("1", 1, None), Some(u64::MAX - 500)),
        Ok(u64::MAX)
    ));
    assert!(matches!(
        estimate_transaction_fee(&quote("1", 1, None), Some(u64::MAX - 499)),
        Err(JupiterError::InvalidInput(reason)) if reason == "Priority fee too large"
    ));
}

#[test]
fn price_query_joins_ids_with_commas() {
    let ids = vec!["a".to_string(), "bc".to_string(), "d".to_string()];
    assert!(matches!(price_query_ids(&ids), Ok(text) if text == "a,bc,d"));
    assert!(matches!(price_query_ids(&ids[..1]), Ok(text) if text == "a"));
    assert!(matches!(
        price_query_ids(&[]),
        Err(JupiterError::InvalidInput(reason)) if reason == "No token IDs provided"
    ));
}

#[test]
fn pair_query_joins_mint_and_quote_token() {
    let pairs = vec![
        ("sol".to_string(), "usdc".to_string()),
        ("ray".to_string(), "sol".to_string()),
    ];
    assert_eq!(pair_query_ids(&pairs), Some("sol:usdc,ray:sol".to_string()));
    assert_eq!(pair_query_ids(&pairs[..1]), Some("sol:usdc".to_string()));
    assert_eq!(pair_query_ids(&[]), None);
}

#[test]
fn tokens_are_filtered_by_tag_in_order() {
    let tokens = vec![
        token("a1", "AAA", &["stable", "defi"]),
        token("b2", "BBB", &["meme"]),
        token("c3", "CCC", &[]),
        token("d4", "DDD", &["defi"]),
    ];
    assert!(token_has_tag(&tokens[0], &"defi".to_string()));
    assert!(!token_has_tag(&tokens[1], &"defi".to_string()));
    let tagged = tokens_with_tag(tokens.clone(), "defi");
    let symbols: Vec<&str> = tagged.iter().map(|token| token.symbol.as_str()).collect();
    assert_eq!(symbols, vec!["AAA", "DDD"]);
    assert!(tokens_with_tag(tokens, "nft").is_empty());
}

#[test]
fn token_is_found_by_first_matching_address() {
    let tokens = vec![token("a1", "AAA", &[]), token("b2", "BBB", &[]), token("b2", "CCC", &[])];
    assert_eq!(find_token_by_address(&tokens, "b2"), Some(1));
    assert_eq!(find_token_by_address(&tokens, "a1"), Some(0));
    assert_eq!(find_token_by_address(&tokens, "zz"), None);
    assert_eq!(find_token_by_address(&[], "a1"), None);
}

#[test]
fn token_map_leads_to_last_token_of_an_address() {
    let tokens = vec![token("a1", "AAA", &[]), token("b2", "BBB", &[]), token("b2", "CCC", &[])];
    let map = build_token_map(&tokens);
    assert_eq!(map.len(), 2);
    assert_eq!(map.get("a1").map(|token| token.symbol.as_str()), Some("AAA"));
    assert_eq!(map.get("b2").map(|token| token.symbol.as_str()), Some("CCC"));
    assert!(map.get("c3").is_none());
    assert!(build_token_map(&[]).is_empty());
}

#[test]
fn routes_split_into_best_and_limited_alternatives() {
    let routes = |count: usize| -> Vec<QuoteResponse> {
        (0..count).map(|i| quote(&i.to_string(), 1, None)).collect()
    };
    let outs = |list: &Vec<QuoteResponse>| -> Vec<String> {
        list.iter().map(|route| route.out_amount.clone()).collect()
    };
    let (best, alternatives) = split_routes(routes(6), None).expect("routes");
    assert_eq!(best.out_amount, "0");
    assert_eq!(outs(&alternatives), vec!["1", "2", "3"]);
    let (_, alternatives) = split_routes(routes(6), Some(10)).expect("routes");
    assert_eq!(outs(&alternatives), vec!["1", "2", "3", "4", "5"]);
    let (_, alternatives) = split_routes(routes(6), Some(0)).expect("routes");
    assert!(alternatives.is_empty());
    let (best, alternatives) = split_routes(routes(1), None).expect("routes");
    assert_eq!(best.out_amount, "0");
    assert!(alternatives.is_empty());
    let (_, alternatives) = split_routes(routes(2), None).expect("routes");
    assert_eq!(outs(&alternatives), vec!["1"]);
    match split_routes(Vec::new(), None) {
        Err(error) => {
            assert_eq!(error.message(), "Request failed: No routes found");
            assert!(!error.is_retriable());
        }
        Ok(_) => panic!("no routes is an error"),
    }
}

#[test]
fn net_output_takes_off_platform_and_additional_fees() {
    let sol = token(SOL, "SOL", &[]);
    let usdc = token(USDC, "USDC", &[]);
    assert_eq!(cal_net_output(&quote("1000000", 1, None), &sol, &usdc, 0), Ok(1_000_000));
    assert_eq!(cal_net_output(&quote("1000000", 1, Some("2500")), &sol, &usdc, 10), Ok(996_500));
    assert_eq!(cal_net_output(&quote("1000000", 1, Some("junk")), &sol, &usdc, 10), Ok(999_000));
    assert_eq!(cal_net_output(&quote("100", 1, Some("500")), &sol, &usdc, 10), Ok(0));
    assert_eq!(cal_net_output(&quote("100", 1, Some("60")), &sol, &usdc, 5_000), Ok(0));
    assert_eq!(cal_net_output(&quote("18446744073709551615", 1, None), &sol, &usdc, u16::MAX), Ok(0));
    assert_eq!(
        cal_net_output(&quote("12x", 1, None), &sol, &usdc, 10),
        Err(format!("{:?}", "12x".parse::<u64>().unwrap_err()))
    );
    assert_eq!(
        cal_net_output(&quote("", 1, None), &sol, &usdc, 10),
        Err("ParseIntError { kind: Empty }".to_string())
    );
    assert_eq!(
        cal_net_output(&quote("99999999999999999999", 1, None), &sol, &usdc, 10),
        Err(format!("{:?}", "99999999999999999999".parse::<u64>().unwrap_err()))
    );
}

#[test]
fn swap_result_reads_amounts_from_its_quote() {
    let result = |out_amount: &str| SwapExecutionResult {
        quote: quote(out_amount, 1, None),
        swap_response: SwapResponse {
            swap_transaction: "tx".to_string(),
            last_valid_block_height: 9,
            prioritization_fee_lamports: None,
        },
        config: AdvancedSwapConfig::default(),
    };
    assert_eq!(result("1000000").get_expected_output(), 1_000_000);
    assert_eq!(result("1000000").get_minimum_output(), 995_000);
    assert_eq!(result("not a number").get_expected_output(), 0);
    assert_eq!(result("not a number").get_minimum_output(), 0);
    assert_eq!(result("+7").get_expected_output(), 7);
}

#[test]
fn advanced_swap_config_defaults() {
    let config = AdvancedSwapConfig::default();
    assert_eq!(config.max_slippage_bps, 50);
    assert!(config.preferred_amms.is_empty());
    assert!(config.excluded_amms.is_empty());
    assert_eq!(config.max_price_impact_bps, 500);
    assert!(config.use_versioned_transaction);
}

#[test]
fn rate_limiter_shares_a_second_among_requests() {
    let limiter = RateLimiter::new(10);
    assert_eq!(limiter.requests_per_second(), 10);
    assert_eq!(limiter.interval_ms(), 100);
    assert_eq!(RateLimiter::new(3).interval_ms(), 333);
    assert_eq!(RateLimiter::new(1).interval_ms(), 1_000);
    assert_eq!(RateLimiter::new(2_000).interval_ms(), 0);
}

#[test]
fn verdicts_follow_the_decoding_outcomes() {
    assert!(mint_address_verdict("anything", true).is_ok());
    assert!(matches!(
        mint_address_verdict("anything", false),
        Err(JupiterError::InvalidInput(reason)) if reason == "Invalid mint address: anything"
    ));
    assert!(user_pubkey_verdict(Ok(vec![0; 32])).is_ok());
    assert!(matches!(
        user_pubkey_verdict(Err("no key".to_string())),
        Err(JupiterError::InvalidInput(reason)) if reason == "Invalid public key: no key"
    ));
    assert!(route_query_verdict("in", true, "out", true, 1000).is_ok());
    assert!(matches!(
        route_query_verdict("in", false, "out", false, 1001),
        Err(JupiterError::InvalidInput(reason)) if reason == "Invalid mint address: in"
    ));
    assert!(matches!(
        route_query_verdict("in", true, "out", false, 1001),
        Err(JupiterError::InvalidInput(reason)) if reason == "Invalid mint address: out"
    ));
    assert!(matches!(
        route_query_verdict("in", true, "out", true, 1001),
        Err(JupiterError::Error(reason)) if reason == "\"Slippage must be <= 1000 (10%)\""
    ));
    assert!(slippage_verdict(1000).is_ok());
    assert!(matches!(slippage_verdict(1001), Err(JupiterError::Error(_))));
    assert!(quoted_mint_verdict("x", true).is_ok());
    assert!(matches!(
        quoted_mint_verdict("x", false),
        Err(JupiterError::Error(reason)) if reason == "InvalidInput(\"Invalid mint address: x\")"
    ));
    let request = quote_request("in", "out", 0, 50);
    assert!(matches!(
        quote_request_verdict(&request, true, true),
        Err(JupiterError::InvalidInput(reason)) if reason == "Amount must be greater than 0"
    ));
    assert!(matches!(
        quote_request_verdict(&request, true, false),
        Err(JupiterError::Error(reason)) if reason == "InvalidInput(\"Invalid mint address: out\")"
    ));
    assert!(quote_request_verdict(&quote_request("in", "out", 9, 50), true, true).is_ok());
}
