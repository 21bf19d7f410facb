//! The request for a quote and the canonical form of a provider's answer.

use vstd::prelude::*;
use crate::amount::{decimal_value, is_decimal};
use crate::fetch_token_details::TokenInfo;

verus! {

/// One option of a request that the engine passes through unread.
#[derive(Clone, Debug)]
pub struct OptionEntry {
    pub key: String,
    pub values: Vec<String>,
}

/// The options of a request.
#[derive(Clone, Debug)]
pub struct QuoteOptions {
    /// Tolerated shortfall in hundredths of a percent; one percent where the
    /// request names none.
    pub slippage_bps: Option<u32>,
    /// The providers the caller asked for; none or an empty list stands for
    /// every eligible provider.
    pub dapps: Option<Vec<String>>,
    pub extra: Vec<OptionEntry>,
}

/// A request for quotes on one transfer.
#[derive(Clone, Debug)]
pub struct QuoteRequest {
    pub from_chain_id: u64,
    /// The destination chain; the source chain where none is given.
    pub to_chain_id: Option<u64>,
    pub from_token_address: String,
    pub to_token_address: String,
    pub from_address: String,
    pub to_address: String,
    /// The amount to send, in base units, as decimal text.
    pub amount: String,
    pub options: QuoteOptions,
}

/// A gas price in wei and in gwei, both as text.
#[derive(Clone, Debug)]
pub struct GasPrices {
    pub wei: String,
    pub gwei: String,
}

/// What the dispatcher attaches to a request before the providers see it.
#[derive(Clone, Debug)]
pub struct Enrichment {
    pub gas_prices: GasPrices,
    /// Providers are asked for a priced transaction only.
    pub quote_only: bool,
    pub from_token_details: Option<TokenInfo>,
    pub to_token_details: Option<TokenInfo>,
    pub native_token_details: Option<TokenInfo>,
}

/// A token as a quote describes it.
#[derive(Clone, Debug)]
pub struct QuoteToken {
    pub address: String,
    pub chain_id: u64,
    pub symbol: String,
    pub decimals: u8,
    pub name: String,
    pub coin_key: Option<String>,
    pub logo_uri: String,
    /// The price as decimal text, or `none`.
    pub price_usd: String,
}

/// An unsigned transaction.
#[derive(Clone, Debug)]
pub struct TransactionDescriptor {
    pub from: String,
    pub to: String,
    pub data: String,
    pub value: String,
    pub chain_id: u64,
    pub gas_price: String,
    pub gas: String,
}

/// A fee that a provider charges on top.
#[derive(Clone, Debug)]
pub struct AdditionalFee {
    pub symbol: String,
    pub decimals: u8,
    pub amount: String,
}

/// One provider's quote in the canonical form. The parts that a usable quote
/// must have are optional here, so that an answer that lacks one can be
/// written down and told apart.
#[derive(Clone, Debug)]
pub struct CanonicalQuote {
    pub tool: Option<String>,
    pub from_chain_id: Option<u64>,
    pub to_chain_id: Option<u64>,
    pub from_amount: Option<String>,
    pub from_amount_usd: String,
    pub from_address: Option<String>,
    pub to_address: Option<String>,
    pub to_amount: Option<String>,
    pub to_amount_min: String,
    pub to_amount_usd: String,
    pub from_token: Option<QuoteToken>,
    pub to_token: Option<QuoteToken>,
    pub swap_cost_eth: String,
    pub swap_cost_usd: String,
    pub gas_gwei: String,
    pub approval_address: String,
    pub transaction: Option<TransactionDescriptor>,
    pub options: Option<QuoteOptions>,
    pub additional_fee: Option<AdditionalFee>,
}

/// Whether an answer has the shape of a quote: a tool, both chains, both
/// amounts, both tokens and a transaction.
pub open spec fn well_shaped(q: CanonicalQuote) -> bool {
    &&& q.tool is Some
    &&& q.from_chain_id is Some
    &&& q.to_chain_id is Some
    &&& q.from_amount is Some
    &&& q.to_amount is Some
    &&& q.from_token is Some
    &&& q.to_token is Some
    &&& q.transaction is Some
}

/// Whether a quote holds all that building a transaction from it needs.
pub open spec fn buildable(q: CanonicalQuote) -> bool {
    &&& q.tool is Some
    &&& q.from_chain_id is Some
    &&& q.to_chain_id is Some
    &&& q.from_amount is Some
    &&& q.from_address is Some
    &&& q.to_amount is Some
    &&& q.from_token is Some
    &&& q.to_token is Some
    &&& q.options is Some
    &&& q.to_address is Some
}

/// Whether the amounts of a quote are in order: what it pays out and the
/// least it may pay out are numbers, and the least is no more than the
/// amount.
pub open spec fn amounts_in_order(q: CanonicalQuote) -> bool {
    match q.to_amount {
        Some(t) => {
            &&& is_decimal(t@)
            &&& is_decimal(q.to_amount_min@)
            &&& decimal_value(q.to_amount_min@) <= decimal_value(t@)
        },
        None => false,
    }
}

} // verus!
