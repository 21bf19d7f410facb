//! The normaliser: one provider's raw answer in, the canonical quote out.
//!
//! The figures of a quote are computed exactly, in whole numbers of the
//! smallest unit. Estimating gas is the caller's work: `plan_gas` says
//! whether it is needed, and the reading is handed in.

use vstd::prelude::*;
use crate::amount::{
    all_digits, amount_value, decimal_text, decimal_value, format_u128, is_decimal, parse_u128,
};
use crate::fetch_token_details::{Price, TokenInfo};
use crate::fixed_point::{
    fixed_text, format_fixed, lemma_min_amount_bounded, min_after_slippage, min_amount, mul_div,
    scale_nearest, scale_nearest_result, wide_mul_div,
};
use crate::quote::{
    amounts_in_order, well_shaped, AdditionalFee, CanonicalQuote, Enrichment, QuoteRequest, QuoteToken,
    TransactionDescriptor,
};
use crate::quote_router::destination;
use crate::text::{owned, str_equal};

verus! {

/// The shortfall tolerated where a request names none: one percent.
pub const DEFAULT_SLIPPAGE_BPS: u32 = 100;

/// The most digits a price may have behind the point.
pub const MAX_PRICE_SCALE: u8 = 18;

/// A provider's transaction before normalisation. A field the provider left
/// out is `None`.
pub struct RawTransaction {
    pub from: Option<String>,
    pub to: Option<String>,
    pub data: Option<String>,
    pub value: Option<String>,
    pub chain_id: Option<u64>,
}

/// What a provider asks of the normaliser beyond the usual.
pub struct DappOptions {
    /// The quoted amount is already the least amount.
    pub no_slippage: Option<bool>,
}

/// What is to be done about gas for a quote.
#[derive(Clone, Copy, Debug, PartialEq, Eq)]
pub enum GasPlan {
    /// The provider named the gas.
    Supplied(u128),
    /// The transaction is a placeholder: no gas, no cost.
    Skipped,
    /// Gas has to be estimated on the chain.
    Estimate,
}

/// What estimating gas gave.
#[derive(Clone, Copy, Debug, PartialEq, Eq)]
pub enum GasReading {
    /// Nobody asked the chain.
    NotAsked,
    /// The chain's estimate, in gas units.
    Estimated(u128),
    /// The chain gave no estimate.
    Failed,
}

/// Why a quote could not be normalised.
#[derive(Clone, Copy, Debug, PartialEq, Eq)]
pub enum NormalizeError {
    /// Gas had to be estimated and no estimate was had.
    GasEstimationFailed,
    MissingFromTokenDetails,
    MissingToTokenDetails,
    MissingNativeTokenDetails,
    /// The amount to send is no decimal number that fits 128 bits.
    InvalidAmount,
    /// The gas price is no decimal number that fits 128 bits.
    InvalidGasPrice,
    /// A figure of the quote does not fit 128 bits, or a price has more
    /// digits behind the point than are supported.
    ValueOutOfRange,
}

/// The figures of a quote, in whole numbers.
#[derive(Clone, Copy, Debug, PartialEq, Eq)]
pub struct QuoteFigures {
    pub from_amount: u128,
    pub to_amount: u128,
    pub to_amount_min: u128,
    /// Gas units; `None` where gas was skipped.
    pub gas: Option<u128>,
    pub gas_price_wei: u128,
    /// Hundredths of a dollar; `None` where the price is unknown.
    pub from_amount_usd: Option<u128>,
    pub to_amount_usd: Option<u128>,
    /// The cost of the gas in hundred-millionths of the native asset.
    pub swap_cost: Option<u128>,
    /// The cost of the gas in thousandths of a dollar.
    pub swap_cost_usd: Option<u128>,
}

/// The marker that stands in a placeholder transaction.
pub open spec fn quote_marker() -> Seq<char> {
    "quote"@
}

/// Whether an optional text is the marker.
pub open spec fn is_marker(field: Option<String>) -> bool {
    match field {
        Some(t) => t@ == quote_marker(),
        None => false,
    }
}

/// Whether a transaction is a placeholder: one of its fields is the marker.
pub open spec fn has_quote_marker(tx: RawTransaction) -> bool {
    is_marker(tx.from) || is_marker(tx.to) || is_marker(tx.data) || is_marker(tx.value)
}

/// The gas a provider named: the number its text stands for, and 0 for a
/// text that is no number or does not fit 128 bits.
pub open spec fn supplied_gas(text: Seq<char>) -> u128 {
    if is_decimal(text) && decimal_value(text) <= u128::MAX {
        decimal_value(text) as u128
    } else {
        0
    }
}

/// What is to be done about gas: a named amount is used; the marker, as the
/// amount or in the transaction, skips gas; else it has to be estimated.
pub open spec fn gas_plan(gas_estimate: Option<String>, tx: RawTransaction) -> GasPlan {
    match gas_estimate {
        Some(g) => if g@ == quote_marker() {
            GasPlan::Skipped
        } else {
            GasPlan::Supplied(supplied_gas(g@))
        },
        None => if has_quote_marker(tx) {
            GasPlan::Skipped
        } else {
            GasPlan::Estimate
        },
    }
}

/// The gas to reckon with: an estimate is raised by half, rounded down.
pub open spec fn gas_units(plan: GasPlan, reading: GasReading) -> Result<
    Option<u128>,
    NormalizeError,
> {
    match plan {
        GasPlan::Supplied(n) => Ok(Some(n)),
        GasPlan::Skipped => Ok(None),
        GasPlan::Estimate => match reading {
            GasReading::Estimated(raw) => match mul_div(raw as nat, 3, 2) {
                Some(g) => Ok(Some(g)),
                None => Err(NormalizeError::ValueOutOfRange),
            },
            _ => Err(NormalizeError::GasEstimationFailed),
        },
    }
}

/// Whether a price, where there is one, has a supported number of digits
/// behind the point.
pub open spec fn price_supported(price: Option<Price>) -> bool {
    match price {
        Some(p) => p.scale <= MAX_PRICE_SCALE,
        None => true,
    }
}

/// An amount of a token in hundredths of a dollar, to the nearest: the
/// amount divided by ten to the token's decimals, times the price. `None`
/// inside where the price is unknown.
pub open spec fn usd_value(amount: nat, decimals: nat, price: Option<Price>) -> Result<
    Option<u128>,
    NormalizeError,
> {
    match price {
        None => Ok(None),
        Some(p) => match scale_nearest_result(
            amount,
            (p.units * 100) as nat,
            decimals + p.scale as nat,
        ) {
            Some(v) => Ok(Some(v)),
            None => Err(NormalizeError::ValueOutOfRange),
        },
    }
}

/// The cost of gas in hundred-millionths of the native asset, to the
/// nearest: gas units times the price of one in wei, over ten to the tenth.
pub open spec fn swap_cost_value(gas: Option<u128>, gas_price_wei: nat) -> Result<
    Option<u128>,
    NormalizeError,
> {
    match gas {
        None => Ok(None),
        Some(g) => match scale_nearest_result(g as nat, gas_price_wei, 10) {
            Some(c) => Ok(Some(c)),
            None => Err(NormalizeError::ValueOutOfRange),
        },
    }
}

/// The cost of gas in thousandths of a dollar, to the nearest. `None` inside
/// where there is no cost or the native asset's price is unknown.
pub open spec fn swap_cost_usd_value(cost: Option<u128>, price: Option<Price>) -> Result<
    Option<u128>,
    NormalizeError,
> {
    match (cost, price) {
        (Some(c), Some(p)) => match scale_nearest_result(
            c as nat,
            (p.units * 1000) as nat,
            8 + p.scale as nat,
        ) {
            Some(v) => Ok(Some(v)),
            None => Err(NormalizeError::ValueOutOfRange),
        },
        _ => Ok(None),
    }
}

/// The amount a provider pays out: what its text stands for, 0 for a text
/// that is no number, and nothing for a number that does not fit 128 bits.
pub open spec fn paid_out(to_amount: Seq<char>) -> Option<u128> {
    if !is_decimal(to_amount) {
        Some(0)
    } else if decimal_value(to_amount) <= u128::MAX {
        Some(decimal_value(to_amount) as u128)
    } else {
        None
    }
}

/// The shortfall a request tolerates, in hundredths of a percent.
pub open spec fn slippage_of(request: QuoteRequest) -> u32 {
    match request.options.slippage_bps {
        Some(bps) => bps,
        None => DEFAULT_SLIPPAGE_BPS,
    }
}

/// Whether a provider asked for the quoted amount to stand as the least.
pub open spec fn keeps_amount(dapp_options: Option<DappOptions>) -> bool {
    match dapp_options {
        Some(o) => o.no_slippage == Some(true),
        None => false,
    }
}

/// The least amount to accept: the quoted amount where the provider asked
/// for that, else what is left after the tolerated shortfall.
pub open spec fn least_amount(to_amount: u128, keep: bool, slippage_bps: u32) -> u128 {
    if keep {
        to_amount
    } else {
        min_amount(to_amount as nat, slippage_bps as nat) as u128
    }
}

/// The parts of the input that the figures are computed from.
pub struct FigureInputs {
    pub amount: Seq<char>,
    pub slippage_bps: u32,
    pub gas_price_wei: Seq<char>,
    pub from_token: Option<TokenInfo>,
    pub to_token: Option<TokenInfo>,
    pub native_token: Option<TokenInfo>,
    pub to_amount: Seq<char>,
    pub keep_amount: bool,
    pub plan: GasPlan,
    pub reading: GasReading,
}

/// The figures of a quote, or the first reason, in this order, why there
/// are none: gas, token details, the amount sent, the gas price, a price with
/// too many digits, the amount paid out, the cost of gas, the dollar values.
pub open spec fn figures(i: FigureInputs) -> Result<QuoteFigures, NormalizeError> {
    match gas_units(i.plan, i.reading) {
        Err(e) => Err(e),
        Ok(gas) => match (i.from_token, i.to_token, i.native_token) {
            (None, _, _) => Err(NormalizeError::MissingFromTokenDetails),
            (Some(_), None, _) => Err(NormalizeError::MissingToTokenDetails),
            (Some(_), Some(_), None) => Err(NormalizeError::MissingNativeTokenDetails),
            (Some(from), Some(to), Some(native)) => {
                if !(is_decimal(i.amount) && decimal_value(i.amount) <= u128::MAX) {
                    Err(NormalizeError::InvalidAmount)
                } else if !(is_decimal(i.gas_price_wei) && decimal_value(i.gas_price_wei)
                    <= u128::MAX) {
                    Err(NormalizeError::InvalidGasPrice)
                } else if !(price_supported(from.price_usd) && price_supported(to.price_usd)
                    && price_supported(native.price_usd)) {
                    Err(NormalizeError::ValueOutOfRange)
                } else {
                    let from_amount = decimal_value(i.amount) as u128;
                    let gas_price = decimal_value(i.gas_price_wei) as u128;
                    match paid_out(i.to_amount) {
                        None => Err(NormalizeError::ValueOutOfRange),
                        Some(to_amount) => match swap_cost_value(gas, gas_price as nat) {
                            Err(e) => Err(e),
                            Ok(cost) => match usd_value(
                                from_amount as nat,
                                from.decimals as nat,
                                from.price_usd,
                            ) {
                                Err(e) => Err(e),
                                Ok(from_usd) => match usd_value(
                                    to_amount as nat,
                                    to.decimals as nat,
                                    to.price_usd,
                                ) {
                                    Err(e) => Err(e),
                                    Ok(to_usd) => match swap_cost_usd_value(
                                        cost,
                                        native.price_usd,
                                    ) {
                                        Err(e) => Err(e),
                                        Ok(cost_usd) => Ok(
                                            QuoteFigures {
                                                from_amount,
                                                to_amount,
                                                to_amount_min: least_amount(
                                                    to_amount,
                                                    i.keep_amount,
                                                    i.slippage_bps,
                                                ),
                                                gas,
                                                gas_price_wei: gas_price,
                                                from_amount_usd: from_usd,
                                                to_amount_usd: to_usd,
                                                swap_cost: cost,
                                                swap_cost_usd: cost_usd,
                                            },
                                        ),
                                    },
                                },
                            },
                        },
                    }
                }
            },
        },
    }
}

/// The least amount of a quote never exceeds the amount it pays out, and is
/// that amount where the provider asked for it to stand.
pub proof fn law_least_amount_bounded(i: FigureInputs)
    ensures
        figures(i) matches Ok(f) ==> f.to_amount_min <= f.to_amount,
        figures(i) matches Ok(f) ==> (i.keep_amount ==> f.to_amount_min == f.to_amount),
{
    if let Ok(f) = figures(i) {
        lemma_min_amount_bounded(f.to_amount as nat, i.slippage_bps as nat);
    }
}

/// Whether an optional text is the marker.
fn field_is_marker(field: &Option<String>) -> (yes: bool)
    ensures
        yes == is_marker(*field),
{
    match field {
        Some(t) => str_equal(t.as_str(), "quote"),
        None => false,
    }
}

/// Says what is to be done about gas, before a quote is normalised.
pub fn plan_gas(gas_estimate: &Option<String>, transaction: &RawTransaction) -> (plan: GasPlan)
    ensures
        plan == gas_plan(*gas_estimate, *transaction),
{
    match gas_estimate {
        Some(g) => {
            if str_equal(g.as_str(), "quote") {
                GasPlan::Skipped
            } else {
                match parse_u128(g.as_str()) {
                    Some(n) => GasPlan::Supplied(n),
                    None => GasPlan::Supplied(0),
                }
            }
        },
        None => {
            if field_is_marker(&transaction.from) || field_is_marker(&transaction.to)
                || field_is_marker(&transaction.data) || field_is_marker(&transaction.value) {
                GasPlan::Skipped
            } else {
                GasPlan::Estimate
            }
        },
    }
}

/// The gas to reckon with.
fn settle_gas(plan: GasPlan, reading: GasReading) -> (gas: Result<Option<u128>, NormalizeError>)
    ensures
        gas == gas_units(plan, reading),
{
    match plan {
        GasPlan::Supplied(n) => Ok(Some(n)),
        GasPlan::Skipped => Ok(None),
        GasPlan::Estimate => match reading {
            GasReading::Estimated(raw) => match wide_mul_div(raw, 3, 2) {
                Some(g) => Ok(Some(g)),
                None => Err(NormalizeError::ValueOutOfRange),
            },
            GasReading::NotAsked => Err(NormalizeError::GasEstimationFailed),
            GasReading::Failed => Err(NormalizeError::GasEstimationFailed),
        },
    }
}

/// An amount in hundredths of a dollar.
fn value_in_usd(amount: u128, decimals: u8, price: &Option<Price>) -> (v: Result<
    Option<u128>,
    NormalizeError,
>)
    requires
        price_supported(*price),
    ensures
        v == usd_value(amount as nat, decimals as nat, *price),
{
    match price {
        None => Ok(None),
        Some(p) => {
            let factor: u128 = (p.units as u128) * 100;
            let e: u32 = decimals as u32 + p.scale as u32;
            match scale_nearest(amount, factor, e) {
                Some(v) => Ok(Some(v)),
                None => Err(NormalizeError::ValueOutOfRange),
            }
        },
    }
}

/// The cost of gas in thousandths of a dollar.
fn cost_in_usd(cost: Option<u128>, price: &Option<Price>) -> (v: Result<
    Option<u128>,
    NormalizeError,
>)
    requires
        price_supported(*price),
    ensures
        v == swap_cost_usd_value(cost, *price),
{
    match (cost, price) {
        (Some(c), Some(p)) => {
            let factor: u128 = (p.units as u128) * 1000;
            let e: u32 = 8 + p.scale as u32;
            match scale_nearest(c, factor, e) {
                Some(v) => Ok(Some(v)),
                None => Err(NormalizeError::ValueOutOfRange),
            }
        },
        _ => Ok(None),
    }
}

/// Whether a price, where there is one, is supported.
fn supported(price: &Option<Price>) -> (ok: bool)
    ensures
        ok == price_supported(*price),
{
    match price {
        Some(p) => p.scale <= MAX_PRICE_SCALE,
        None => true,
    }
}

/// Computes the figures of a quote.
pub fn compute_figures(
    amount: &str,
    slippage_bps: u32,
    gas_price_wei: &str,
    from_token: &Option<TokenInfo>,
    to_token: &Option<TokenInfo>,
    native_token: &Option<TokenInfo>,
    to_amount: &str,
    keep_amount: bool,
    plan: GasPlan,
    reading: GasReading,
) -> (r: Result<QuoteFigures, NormalizeError>)
    ensures
        r == figures(
            FigureInputs {
                amount: amount@,
                slippage_bps,
                gas_price_wei: gas_price_wei@,
                from_token: *from_token,
                to_token: *to_token,
                native_token: *native_token,
                to_amount: to_amount@,
                keep_amount,
                plan,
                reading,
            },
        ),
{
    let gas = match settle_gas(plan, reading) {
        Ok(g) => g,
        Err(e) => {
            return Err(e);
        },
    };
    let from = match from_token {
        Some(t) => t,
        None => {
            return Err(NormalizeError::MissingFromTokenDetails);
        },
    };
    let to = match to_token {
        Some(t) => t,
        None => {
            return Err(NormalizeError::MissingToTokenDetails);
        },
    };
    let native = match native_token {
        Some(t) => t,
        None => {
            return Err(NormalizeError::MissingNativeTokenDetails);
        },
    };
    let from_amount = match parse_u128(amount) {
        Some(v) => v,
        None => {
            return Err(NormalizeError::InvalidAmount);
        },
    };
    let gas_price = match parse_u128(gas_price_wei) {
        Some(v) => v,
        None => {
            return Err(NormalizeError::InvalidGasPrice);
        },
    };
    if !(supported(&from.price_usd) && supported(&to.price_usd) && supported(&native.price_usd)) {
        return Err(NormalizeError::ValueOutOfRange);
    }
    let paid: u128 = match parse_u128(to_amount) {
        Some(v) => v,
        None => {
            if all_digits(to_amount) {
                return Err(NormalizeError::ValueOutOfRange);
            }
            0
        },
    };
    let cost = match gas {
        None => None,
        Some(g) => match scale_nearest(g, gas_price, 10) {
            Some(c) => Some(c),
            None => {
                return Err(NormalizeError::ValueOutOfRange);
            },
        },
    };
    let from_usd = match value_in_usd(from_amount, from.decimals, &from.price_usd) {
        Ok(v) => v,
        Err(e) => {
            return Err(e);
        },
    };
    let to_usd = match value_in_usd(paid, to.decimals, &to.price_usd) {
        Ok(v) => v,
        Err(e) => {
            return Err(e);
        },
    };
    let cost_usd = match cost_in_usd(cost, &native.price_usd) {
        Ok(v) => v,
        Err(e) => {
            return Err(e);
        },
    };
    let least = if keep_amount {
        paid
    } else {
        min_after_slippage(paid, slippage_bps)
    };
    Ok(
        QuoteFigures {
            from_amount,
            to_amount: paid,
            to_amount_min: least,
            gas,
            gas_price_wei: gas_price,
            from_amount_usd: from_usd,
            to_amount_usd: to_usd,
            swap_cost: cost,
            swap_cost_usd: cost_usd,
        },
    )
}

/// The text of a figure that may be unknown: the number with `places`
/// digits behind the point, or `none`.
pub open spec fn figure_text(v: Option<u128>, places: nat) -> Seq<char> {
    match v {
        Some(n) => fixed_text(n as nat, places),
        None => "none"@,
    }
}

/// The text of a price: its digits with the point where the scale puts it,
/// or `none`.
pub open spec fn price_text(price: Option<Price>) -> Seq<char> {
    match price {
        Some(p) => fixed_text(p.units as nat, p.scale as nat),
        None => "none"@,
    }
}

/// An optional text, or the fallback where there is none.
pub open spec fn text_or(field: Option<String>, fallback: Seq<char>) -> Seq<char> {
    match field {
        Some(t) => t@,
        None => fallback,
    }
}

/// Whether a quote describes a token as its metadata has it, on the chain
/// given.
pub open spec fn describes(t: QuoteToken, details: TokenInfo, chain_id: u64, with_key: bool) -> bool {
    &&& t.address == details.address
    &&& t.chain_id == chain_id
    &&& t.symbol@ == details.symbol@
    &&& t.decimals == details.decimals
    &&& t.name == details.name
    &&& t.coin_key == (if with_key {
        Some(details.coin_key)
    } else {
        None
    })
    &&& t.logo_uri == details.logo_uri
    &&& t.price_usd@ == price_text(details.price_usd)
}

/// Whether a transaction of a quote renders a provider's transaction with
/// the gas figures of the quote.
pub open spec fn renders(
    t: TransactionDescriptor,
    tx: RawTransaction,
    from_chain_id: u64,
    f: QuoteFigures,
) -> bool {
    &&& t.value@ == text_or(tx.value, "0"@)
    &&& t.to@ == text_or(tx.to, "none"@)
    &&& t.from@ == text_or(tx.from, "none"@)
    &&& t.data@ == text_or(tx.data, "none"@)
    &&& t.chain_id == (match tx.chain_id {
        Some(id) => id,
        None => from_chain_id,
    })
    &&& t.gas_price@ == decimal_text(f.gas_price_wei as nat)
    &&& t.gas@ == decimal_text(
        (match f.gas {
            Some(g) => g,
            None => 0,
        }) as nat,
    )
}

/// Whether a fee block is the one for a fee amount charged in the token
/// sent.
pub open spec fn fee_matches(
    fee: Option<AdditionalFee>,
    amount: Option<String>,
    from: TokenInfo,
) -> bool {
    match (fee, amount) {
        (Some(f), Some(a)) => f.symbol@ == from.symbol@ && f.decimals == from.decimals && f.amount
            == a,
        (None, None) => true,
        _ => false,
    }
}

/// Whether `q` is the canonical quote for the figures `f` and the rest of
/// the input.
pub open spec fn normalized(
    q: CanonicalQuote,
    f: QuoteFigures,
    tool: String,
    request: QuoteRequest,
    enrichment: Enrichment,
    transaction: RawTransaction,
    approval_address: Option<String>,
    additional_fee: Option<String>,
) -> bool {
    &&& q.tool == Some(tool)
    &&& q.from_chain_id == Some(request.from_chain_id)
    &&& q.to_chain_id == Some(destination(request))
    &&& q.from_amount is Some && q.from_amount->0@ == decimal_text(f.from_amount as nat)
    &&& q.from_amount_usd@ == figure_text(f.from_amount_usd, 2)
    &&& q.from_address == Some(request.from_address)
    &&& q.to_address == Some(request.to_address)
    &&& q.to_amount is Some && q.to_amount->0@ == decimal_text(f.to_amount as nat)
    &&& q.to_amount_min@ == decimal_text(f.to_amount_min as nat)
    &&& q.to_amount_usd@ == figure_text(f.to_amount_usd, 2)
    &&& enrichment.from_token_details is Some && q.from_token is Some && describes(
        q.from_token->0,
        enrichment.from_token_details->0,
        request.from_chain_id,
        false,
    )
    &&& enrichment.to_token_details is Some && q.to_token is Some && describes(
        q.to_token->0,
        enrichment.to_token_details->0,
        destination(request),
        true,
    )
    &&& q.swap_cost_eth@ == figure_text(f.swap_cost, 8)
    &&& q.swap_cost_usd@ == figure_text(f.swap_cost_usd, 3)
    &&& q.gas_gwei == enrichment.gas_prices.gwei
    &&& q.approval_address@ == text_or(approval_address, "none"@)
    &&& q.transaction is Some && renders(
        q.transaction->0,
        transaction,
        request.from_chain_id,
        f,
    )
    &&& q.options == Some(request.options)
    &&& fee_matches(q.additional_fee, additional_fee, enrichment.from_token_details->0)
}

/// The input of the figures, taken from the input of the normaliser.
pub open spec fn inputs_of(
    request: QuoteRequest,
    enrichment: Enrichment,
    transaction: RawTransaction,
    to_amount: Seq<char>,
    gas_estimate: Option<String>,
    dapp_options: Option<DappOptions>,
    reading: GasReading,
) -> FigureInputs {
    FigureInputs {
        amount: request.amount@,
        slippage_bps: slippage_of(request),
        gas_price_wei: enrichment.gas_prices.wei@,
        from_token: enrichment.from_token_details,
        to_token: enrichment.to_token_details,
        native_token: enrichment.native_token_details,
        to_amount,
        keep_amount: keeps_amount(dapp_options),
        plan: gas_plan(gas_estimate, transaction),
        reading,
    }
}

/// Writes a figure that may be unknown.
fn write_figure(v: Option<u128>, places: u32) -> (out: String)
    requires
        places <= 38,
    ensures
        out@ == figure_text(v, places as nat),
{
    match v {
        Some(n) => format_fixed(n, places),
        None => owned("none"),
    }
}

/// Writes a price.
fn write_price(price: &Option<Price>) -> (out: String)
    requires
        price_supported(*price),
    ensures
        out@ == price_text(*price),
{
    match price {
        Some(p) => format_fixed(p.units as u128, p.scale as u32),
        None => owned("none"),
    }
}

/// An optional text, or the fallback.
fn take_or(field: Option<String>, fallback: &str) -> (out: String)
    ensures
        out@ == text_or(field, fallback@),
{
    match field {
        Some(t) => t,
        None => owned(fallback),
    }
}

/// Describes a token for a quote.
fn describe_token(details: TokenInfo, chain_id: u64, with_key: bool) -> (t: QuoteToken)
    requires
        price_supported(details.price_usd),
    ensures
        describes(t, details, chain_id, with_key),
{
    let price_usd = write_price(&details.price_usd);
    let TokenInfo { address, chain_id: _, symbol, decimals, name, coin_key, logo_uri, price_usd: _ } =
        details;
    QuoteToken {
        address,
        chain_id,
        symbol,
        decimals,
        name,
        coin_key: if with_key {
            Some(coin_key)
        } else {
            None
        },
        logo_uri,
        price_usd,
    }
}

/// Normalises one provider's answer into the canonical quote.
///
/// `gas_reading` is what estimating gas gave; it is looked at only where
/// `plan_gas` says that gas has to be estimated. The quote comes out exactly
/// when the figures can be computed, and an error says why they cannot.
pub fn format_swap_details(
    tool: String,
    request: QuoteRequest,
    enrichment: Enrichment,
    transaction: RawTransaction,
    to_amount: &str,
    approval_address: Option<String>,
    gas_estimate: Option<String>,
    additional_fee: Option<String>,
    dapp_options: Option<DappOptions>,
    gas_reading: GasReading,
) -> (r: Result<CanonicalQuote, NormalizeError>)
    ensures
        match r {
            Ok(q) => {
                &&& figures(
                    inputs_of(
                        request,
                        enrichment,
                        transaction,
                        to_amount@,
                        gas_estimate,
                        dapp_options,
                        gas_reading,
                    ),
                ) is Ok
                &&& normalized(
                    q,
                    figures(
                        inputs_of(
                            request,
                            enrichment,
                            transaction,
                            to_amount@,
                            gas_estimate,
                            dapp_options,
                            gas_reading,
                        ),
                    )->Ok_0,
                    tool,
                    request,
                    enrichment,
                    transaction,
                    approval_address,
                    additional_fee,
                )
                &&& well_shaped(q)
                &&& amounts_in_order(q)
            },
            Err(e) => figures(
                inputs_of(
                    request,
                    enrichment,
                    transaction,
                    to_amount@,
                    gas_estimate,
                    dapp_options,
                    gas_reading,
                ),
            ) == Err::<QuoteFigures, NormalizeError>(e),
        },
{
    let plan = plan_gas(&gas_estimate, &transaction);
    let slippage_bps = match request.options.slippage_bps {
        Some(bps) => bps,
        None => DEFAULT_SLIPPAGE_BPS,
    };
    let keep_amount = match &dapp_options {
        Some(o) => match o.no_slippage {
            Some(true) => true,
            _ => false,
        },
        None => false,
    };
    let f = match compute_figures(
        request.amount.as_str(),
        slippage_bps,
        enrichment.gas_prices.wei.as_str(),
        &enrichment.from_token_details,
        &enrichment.to_token_details,
        &enrichment.native_token_details,
        to_amount,
        keep_amount,
        plan,
        gas_reading,
    ) {
        Ok(f) => f,
        Err(e) => {
            return Err(e);
        },
    };
    proof {
        law_least_amount_bounded(
            inputs_of(
                request,
                enrichment,
                transaction,
                to_amount@,
                gas_estimate,
                dapp_options,
                gas_reading,
            ),
        );
        crate::amount::lemma_text_round_trip(f.to_amount as nat);
        crate::amount::lemma_text_round_trip(f.to_amount_min as nat);
    }
    let to_chain_id = match request.to_chain_id {
        Some(id) => id,
        None => request.from_chain_id,
    };
    let from_chain_id = request.from_chain_id;
    let Enrichment {
        gas_prices,
        quote_only: _,
        from_token_details,
        to_token_details,
        native_token_details: _,
    } = enrichment;
    let from_details = match from_token_details {
        Some(t) => t,
        None => {
            return Err(NormalizeError::MissingFromTokenDetails);
        },
    };
    let to_details = match to_token_details {
        Some(t) => t,
        None => {
            return Err(NormalizeError::MissingToTokenDetails);
        },
    };
    let fee = match additional_fee {
        Some(amount) => Some(
            AdditionalFee {
                symbol: owned(from_details.symbol.as_str()),
                decimals: from_details.decimals,
                amount,
            },
        ),
        None => None,
    };
    let RawTransaction { from, to, data, value, chain_id } = transaction;
    let descriptor = TransactionDescriptor {
        from: take_or(from, "none"),
        to: take_or(to, "none"),
        data: take_or(data, "none"),
        value: take_or(value, "0"),
        chain_id: match chain_id {
            Some(id) => id,
            None => from_chain_id,
        },
        gas_price: format_u128(f.gas_price_wei),
        gas: format_u128(
            match f.gas {
                Some(g) => g,
                None => 0,
            },
        ),
    };
    let QuoteRequest {
        from_chain_id: _,
        to_chain_id: _,
        from_token_address: _,
        to_token_address: _,
        from_address,
        to_address,
        amount: _,
        options,
    } = request;
    Ok(
        CanonicalQuote {
            tool: Some(tool),
            from_chain_id: Some(from_chain_id),
            to_chain_id: Some(to_chain_id),
            from_amount: Some(format_u128(f.from_amount)),
            from_amount_usd: write_figure(f.from_amount_usd, 2),
            from_address: Some(from_address),
            to_address: Some(to_address),
            to_amount: Some(format_u128(f.to_amount)),
            to_amount_min: format_u128(f.to_amount_min),
            to_amount_usd: write_figure(f.to_amount_usd, 2),
            from_token: Some(describe_token(from_details, from_chain_id, false)),
            to_token: Some(describe_token(to_details, to_chain_id, true)),
            swap_cost_eth: write_figure(f.swap_cost, 8),
            swap_cost_usd: write_figure(f.swap_cost_usd, 3),
            gas_gwei: gas_prices.gwei,
            approval_address: take_or(approval_address, "none"),
            transaction: Some(descriptor),
            options: Some(options),
            additional_fee: fee,
        },
    )
}

/// In every quote that the normaliser gives, the least amount is a number no
/// greater than the amount paid out, and the same number where the provider
/// asked for the amount to stand.
pub proof fn law_quote_least_amount(
    q: CanonicalQuote,
    tool: String,
    request: QuoteRequest,
    enrichment: Enrichment,
    transaction: RawTransaction,
    to_amount: Seq<char>,
    approval_address: Option<String>,
    gas_estimate: Option<String>,
    additional_fee: Option<String>,
    dapp_options: Option<DappOptions>,
    gas_reading: GasReading,
)
    requires
        figures(
            inputs_of(
                request,
                enrichment,
                transaction,
                to_amount,
                gas_estimate,
                dapp_options,
                gas_reading,
            ),
        ) is Ok,
        normalized(
            q,
            figures(
                inputs_of(
                    request,
                    enrichment,
                    transaction,
                    to_amount,
                    gas_estimate,
                    dapp_options,
                    gas_reading,
                ),
            )->Ok_0,
            tool,
            request,
            enrichment,
            transaction,
            approval_address,
            additional_fee,
        ),
    ensures
        q.to_amount is Some,
        amount_value(q.to_amount_min@) <= amount_value(q.to_amount->0@),
        keeps_amount(dapp_options) ==> amount_value(q.to_amount_min@) == amount_value(
            q.to_amount->0@,
        ),
{
    let i = inputs_of(
        request,
        enrichment,
        transaction,
        to_amount,
        gas_estimate,
        dapp_options,
        gas_reading,
    );
    let f = figures(i)->Ok_0;
    law_least_amount_bounded(i);
    crate::amount::lemma_text_round_trip(f.to_amount as nat);
    crate::amount::lemma_text_round_trip(f.to_amount_min as nat);
}

} // verus!
