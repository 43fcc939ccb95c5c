//! Request and response records, and the error type shared by the crate.

use crate::amount::{parse_integer, parse_u64};
use crate::retry::ErrorCategory;
use crate::tool::{after_deduction, cal_slippage_amount};
use std::collections::HashMap;
use vstd::prelude::*;
use vstd::utf8::encode_utf8;

verus! {

/// Represents token information including metadata and extensions
#[derive(Debug, Clone)]
pub struct TokenInfo {
    pub address: String,
    pub chain_id: u64,
    pub decimals: u8,
    pub name: String,
    pub symbol: String,
    pub logo_uri: String,
    pub tags: Vec<String>,
    pub extensions: Option<TokenExtensions>,
}

/// Request structure for getting swap quotes
#[derive(Debug, Clone)]
pub struct QuoteRequest {
    pub input_mint: String,
    pub output_mint: String,
    pub amount: u64,
    pub slippage_bps: u16,
    pub fee_bps: Option<u16>,
    pub only_direct_routes: Option<bool>,
    pub as_legacy_transaction: Option<bool>,
    pub restrict_middle_tokens: Option<bool>,
}

/// Response structure containing swap quote details
#[derive(Debug, Clone)]
pub struct QuoteResponse {
    pub input_mint: String,
    pub output_mint: String,
    pub in_amount: String,
    pub out_amount: String,
    pub other_amount_threshold: String,
    pub swap_mode: String,
    pub slippage_bps: u16,
    pub platform_fee: Option<PlatformFee>,
    pub price_impact_pct: String,
    pub route_plan: Vec<RoutePlan>,
    pub context_slot: u64,
    /// Time the service took to compute the quote, in microseconds.
    pub time_taken_micros: u64,
}

/// Platform fee information
#[derive(Debug, Clone)]
pub struct PlatformFee {
    pub amount: String,
    pub fee_bps: u16,
}

/// Individual route information within a swap route plan
#[derive(Debug, Clone)]
pub struct RoutePlan {
    pub swap_info: SwapInfo,
    pub percent: u8,
}

/// Swap information for a specific route step
#[derive(Debug, Clone)]
pub struct SwapInfo {
    pub amm_key: String,
    pub label: String,
    pub input_mint: String,
    pub output_mint: String,
    pub in_amount: String,
    pub out_amount: String,
    pub fee_amount: String,
    pub fee_mint: String,
}

/// Request structure for executing a swap
#[derive(Debug, Clone)]
pub struct SwapRequest {
    pub quote_response: QuoteResponse,
    pub user_public_key: String,
    pub wrap_and_unwrap_sol: Option<bool>,
    pub compute_unit_price: Option<u64>,
    pub prioritization_fee_lamports: Option<u64>,
}

/// Response structure containing swap transaction details
#[derive(Debug, Clone)]
pub struct SwapResponse {
    pub swap_transaction: String,
    pub last_valid_block_height: u64,
    pub prioritization_fee_lamports: Option<u64>,
}

/// Token extension metadata
#[derive(Debug, Clone)]
pub struct TokenExtensions {
    pub coingecko_id: Option<String>,
    pub website: Option<String>,
}

/// Response containing indexed route map data
#[derive(Debug, Clone)]
pub struct IndexedRouteMapResponse {
    pub indexed_route_map: IndexedRouteMap,
}

/// Indexed route map structure for efficient route lookup
#[derive(Debug, Clone)]
pub struct IndexedRouteMap {
    pub mint_keys: Vec<String>,
    pub indexed_route_map: HashMap<String, Vec<usize>>,
}

/// Error types for Jupiter operations
#[derive(Debug, Clone)]
pub enum JupiterError {
    /// The remote answered with a non-success HTTP status.
    RequestFailed { status: u16, message: String },
    InvalidInput(String),
    NetworkError(String),
    ValidationError(String),
    RateLimitExceeded(String),
    TransactionFailed(String),
    ParseError(String),
    Error(String),
}

impl JupiterError {
    /// The category of this error.  A failed request is a server error when
    /// its status is in the 5xx class, rate limiting when its status is 429,
    /// and a client error otherwise.
    pub open spec fn category_spec(self) -> ErrorCategory {
        match self {
            JupiterError::NetworkError(_) => ErrorCategory::Network,
            JupiterError::RequestFailed { status, .. } => if 500 <= status <= 599 {
                ErrorCategory::Server
            } else if status == 429 {
                ErrorCategory::RateLimit
            } else {
                ErrorCategory::Client
            },
            JupiterError::RateLimitExceeded(_) => ErrorCategory::RateLimit,
            JupiterError::InvalidInput(_) => ErrorCategory::Client,
            JupiterError::ParseError(_) => ErrorCategory::Client,
            JupiterError::ValidationError(_) => ErrorCategory::Client,
            JupiterError::TransactionFailed(_) => ErrorCategory::Transaction,
            JupiterError::Error(_) => ErrorCategory::Unknown,
        }
    }

    /// Whether another attempt may succeed where this one failed.
    pub open spec fn retriable(self) -> bool {
        self.category_spec().retriable()
    }

    /// Classifies the error.
    pub fn category(&self) -> (c: ErrorCategory)
        ensures
            c == self.category_spec(),
    {
        match self {
            JupiterError::NetworkError(_) => ErrorCategory::Network,
            JupiterError::RequestFailed { status, .. } => {
                if 500 <= *status && *status <= 599 {
                    ErrorCategory::Server
                } else if *status == 429 {
                    ErrorCategory::RateLimit
                } else {
                    ErrorCategory::Client
                }
            },
            JupiterError::RateLimitExceeded(_) => ErrorCategory::RateLimit,
            JupiterError::InvalidInput(_) => ErrorCategory::Client,
            JupiterError::ParseError(_) => ErrorCategory::Client,
            JupiterError::ValidationError(_) => ErrorCategory::Client,
            JupiterError::TransactionFailed(_) => ErrorCategory::Transaction,
            JupiterError::Error(_) => ErrorCategory::Unknown,
        }
    }

    /// The text of the error as shown to a user: a prefix that names the
    /// kind of failure, then the detail.  The kinds without a prefix of
    /// their own are shown as parse errors.
    pub open spec fn message_spec(self) -> Seq<char> {
        match self {
            JupiterError::RequestFailed { message, .. } => "Request failed: "@ + message@,
            JupiterError::InvalidInput(detail) => "Invalid input: "@ + detail@,
            JupiterError::NetworkError(detail) => "Network error: "@ + detail@,
            JupiterError::ParseError(detail) => "Parse error: "@ + detail@,
            JupiterError::Error(detail) => "Parse error: "@ + detail@,
            JupiterError::ValidationError(detail) => "Parse error: "@ + detail@,
            JupiterError::RateLimitExceeded(detail) => "Parse error: "@ + detail@,
            JupiterError::TransactionFailed(detail) => "Parse error: "@ + detail@,
        }
    }

    /// Renders the error as text.
    pub fn message(&self) -> (text: String)
        ensures
            text@ == self.message_spec(),
    {
        match self {
            JupiterError::RequestFailed { message, .. } => String::from_str(
                "Request failed: ",
            ).concat(message.as_str()),
            JupiterError::InvalidInput(detail) => String::from_str("Invalid input: ").concat(
                detail.as_str(),
            ),
            JupiterError::NetworkError(detail) => String::from_str("Network error: ").concat(
                detail.as_str(),
            ),
            JupiterError::ParseError(detail) => String::from_str("Parse error: ").concat(
                detail.as_str(),
            ),
            JupiterError::Error(detail) => String::from_str("Parse error: ").concat(
                detail.as_str(),
            ),
            JupiterError::ValidationError(detail) => String::from_str("Parse error: ").concat(
                detail.as_str(),
            ),
            JupiterError::RateLimitExceeded(detail) => String::from_str("Parse error: ").concat(
                detail.as_str(),
            ),
            JupiterError::TransactionFailed(detail) => String::from_str("Parse error: ").concat(
                detail.as_str(),
            ),
        }
    }

    /// Determines if the error is retriable
    pub fn is_retriable(&self) -> (r: bool)
        ensures
            r == self.retriable(),
    {
        self.category().is_retriable()
    }
}


/// Rate limiter for API requests
#[derive(Debug, Clone, Copy)]
pub struct RateLimiter {
    requests_per_second: u32,
}

impl RateLimiter {
    /// The rate this limiter was made with.
    pub closed spec fn rate(self) -> u32 {
        self.requests_per_second
    }

    /// Creates a new rate limiter with specified requests per second
    pub fn new(requests_per_second: u32) -> (limiter: Self)
        ensures
            limiter.rate() == requests_per_second,
    {
        Self { requests_per_second }
    }

    /// The rate this limiter was made with.
    pub fn requests_per_second(&self) -> (rate: u32)
        ensures
            rate == self.rate(),
    {
        self.requests_per_second
    }

    /// The pause that acquiring a permit takes, in whole milliseconds: a
    /// second shared out among the requests it allows.  A limiter that
    /// allows no requests at all has no such pause.
    pub fn interval_ms(&self) -> (pause: u64)
        requires
            self.rate() > 0,
        ensures
            pause == 1000int / self.rate() as int,
    {
        1000 / self.requests_per_second as u64
    }
}

/// Transaction status types
#[derive(Debug, Clone, Copy, PartialEq, Eq, Structural)]
pub enum TransactionStatusType {
    Pending,
    Confirmed,
    Finalized,
    Failed,
    Timeout,
}

/// Advanced swap configuration - for fine-grained swap control
#[derive(Debug, Clone)]
pub struct AdvancedSwapConfig {
    /// Maximum slippage tolerance (basis points)
    pub max_slippage_bps: u16,
    /// Preferred AMM list
    pub preferred_amms: Vec<String>,
    /// Excluded AMM list
    pub excluded_amms: Vec<String>,
    /// Maximum price impact tolerance (basis points)
    pub max_price_impact_bps: u16,
    /// Whether to use versioned transactions
    pub use_versioned_transaction: bool,
}

impl Default for AdvancedSwapConfig {
    fn default() -> (config: Self)
        ensures
            config.max_slippage_bps == 50,
            config.preferred_amms@.len() == 0,
            config.excluded_amms@.len() == 0,
            config.max_price_impact_bps == 500,
            config.use_versioned_transaction,
    {
        Self {
            max_slippage_bps: 50,
            preferred_amms: Vec::new(),
            excluded_amms: Vec::new(),
            max_price_impact_bps: 500,
            use_versioned_transaction: true,
        }
    }
}

/// Batch quote request - for getting multiple swap quotes in one request
#[derive(Debug, Clone)]
pub struct BatchQuoteRequest {
    /// Multiple quote requests
    pub requests: Vec<QuoteRequest>,
}

/// Batch quote response - contains multiple quote results
#[derive(Debug, Clone)]
pub struct BatchQuoteResponse {
    /// List of quote results
    pub quotes: Vec<QuoteResponse>,
}

/// Swap execution result - encapsulates complete swap operation result
#[derive(Debug, Clone)]
pub struct SwapExecutionResult {
    /// Quote used for the swap
    pub quote: QuoteResponse,
    /// Swap transaction response
    pub swap_response: SwapResponse,
    /// Configuration used
    pub config: AdvancedSwapConfig,
}

/// The amount that a text stands for: the integer it spells, or zero where
/// it spells none.
pub open spec fn amount_or_zero(text: Seq<u8>) -> nat {
    match parse_integer(text) {
        Ok(amount) => amount,
        Err(_) => 0,
    }
}

impl SwapExecutionResult {
    /// Gets the expected output amount
    pub fn get_expected_output(&self) -> (amount: u64)
        ensures
            amount == amount_or_zero(encode_utf8(self.quote.out_amount@)),
    {
        match parse_u64(self.quote.out_amount.as_str()) {
            Ok(amount) => amount,
            Err(_) => 0,
        }
    }

    /// Gets the minimum output amount considering slippage
    pub fn get_minimum_output(&self) -> (amount: u64)
        ensures
            amount == after_deduction(
                amount_or_zero(encode_utf8(self.quote.out_amount@)) as u64,
                self.quote.slippage_bps,
            ),
    {
        let out_amount = self.get_expected_output();
        cal_slippage_amount(out_amount, self.quote.slippage_bps)
    }
}

} // verus!
