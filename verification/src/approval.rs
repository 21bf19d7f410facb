//! Token approvals: whether a spender has to be approved before a quote can
//! be executed, and for how much.
//!
//! Reading an allowance or a balance from a chain is the caller's work; the
//! functions here say what to read and what follows from what was read.
//! Amounts are decimal texts of any length and are ordered by value.

use vstd::prelude::*;
use crate::amount::{amount_less, amount_value};
use crate::fetch_token_details::zero_address;
use crate::quote::CanonicalQuote;
use crate::text::{owned, str_equal};

verus! {

/// The largest amount a token contract can hold: two to the 256, less one.
pub open spec fn max_amount() -> Seq<char> {
    "115792089237316195423570985008687907853269984665640564039457584007913129639935"@
}

/// What has to be read from the chain before an approval is decided.
pub struct AllowanceQuery {
    pub token: String,
    pub owner: String,
    pub spender: String,
    pub chain_id: u64,
    /// The amount the quote sends.
    pub required: String,
    /// The amount to approve if an approval is needed.
    pub approval_amount: String,
    pub gas_price: String,
}

/// What is to be done about the approval of a quote.
pub enum ApprovalPlan {
    /// The quote sends the native asset: nothing to approve.
    NotNeeded,
    /// Read the allowance, then decide.
    Check(AllowanceQuery),
    /// The quote lacks what an approval is made from.
    Incomplete,
}

/// An approval, ready to be signed.
pub struct ApprovalTransaction {
    pub from: String,
    pub to: String,
    pub spender: String,
    pub amount: String,
    pub gas_price: String,
    pub chain_id: u64,
    pub gas: String,
}

/// The amount to approve: the amount sent where the caller asks for
/// `value`, else the largest amount there is.
pub open spec fn approval_amount(mode: Option<Seq<char>>, from_amount: Seq<char>) -> Seq<char> {
    if mode == Some("value"@) {
        from_amount
    } else {
        max_amount()
    }
}

/// Whether `available` is at least `required`, by value.
pub open spec fn covers(available: Seq<char>, required: Seq<char>) -> bool {
    amount_value(available) >= amount_value(required)
}

/// Whether an amount that is at hand covers an amount that is needed.
pub fn amount_covers(available: &str, required: &str) -> (ok: bool)
    ensures
        ok == covers(available@, required@),
{
    !amount_less(available, required)
}

/// Whether a plan is the right one for a quote and an approval mode.
pub open spec fn plan_matches(plan: ApprovalPlan, quote: CanonicalQuote, mode: Option<Seq<char>>) -> bool {
    match (quote.from_token, quote.transaction, quote.from_amount) {
        (Some(token), Some(tx), Some(amount)) => if token.address@ == zero_address() {
            plan is NotNeeded
        } else {
            match plan {
                ApprovalPlan::Check(q) => {
                    &&& q.token@ == token.address@
                    &&& q.owner@ == tx.from@
                    &&& q.spender@ == quote.approval_address@
                    &&& q.chain_id == token.chain_id
                    &&& q.required@ == amount@
                    &&& q.approval_amount@ == approval_amount(mode, amount@)
                    &&& q.gas_price@ == tx.gas_price@
                },
                _ => false,
            }
        },
        _ => plan is Incomplete,
    }
}

/// The approval mode by its characters.
pub open spec fn mode_view(mode: Option<&str>) -> Option<Seq<char>> {
    match mode {
        Some(m) => Some(m@),
        None => None,
    }
}

/// Says what is to be done about the approval of a quote.
pub fn plan_approval(quote: &CanonicalQuote, approve: Option<&str>) -> (plan: ApprovalPlan)
    ensures
        plan_matches(plan, *quote, mode_view(approve)),
{
    let token = match &quote.from_token {
        Some(t) => t,
        None => {
            return ApprovalPlan::Incomplete;
        },
    };
    let tx = match &quote.transaction {
        Some(t) => t,
        None => {
            return ApprovalPlan::Incomplete;
        },
    };
    let amount = match &quote.from_amount {
        Some(a) => a,
        None => {
            return ApprovalPlan::Incomplete;
        },
    };
    if str_equal(token.address.as_str(), "0x0000000000000000000000000000000000000000") {
        return ApprovalPlan::NotNeeded;
    }
    let by_value = match approve {
        Some(m) => str_equal(m, "value"),
        None => false,
    };
    let approval = if by_value {
        owned(amount.as_str())
    } else {
        owned("115792089237316195423570985008687907853269984665640564039457584007913129639935")
    };
    ApprovalPlan::Check(
        AllowanceQuery {
            token: owned(token.address.as_str()),
            owner: owned(tx.from.as_str()),
            spender: owned(quote.approval_address.as_str()),
            chain_id: token.chain_id,
            required: owned(amount.as_str()),
            approval_amount: approval,
            gas_price: owned(tx.gas_price.as_str()),
        },
    )
}

/// Whether a transaction is the approval that a query asks for, with the
/// gas given.
pub open spec fn approves(t: ApprovalTransaction, query: AllowanceQuery, gas: Seq<char>) -> bool {
    &&& t.from == query.owner
    &&& t.to == query.token
    &&& t.spender == query.spender
    &&& t.amount == query.approval_amount
    &&& t.gas_price == query.gas_price
    &&& t.chain_id == query.chain_id
    &&& t.gas@ == gas
}

/// The approval to sign, if one is needed and its gas could be estimated.
///
/// `allowance` is what the chain says the spender may take. No approval is
/// needed where that covers the amount sent; none is made where gas could
/// not be estimated.
pub fn generate_approval_transaction(query: AllowanceQuery, allowance: &str, gas: Option<String>) -> (tx:
    Option<ApprovalTransaction>)
    ensures
        match tx {
            Some(t) => !covers(allowance@, query.required@) && gas is Some && approves(
                t,
                query,
                gas->0@,
            ),
            None => covers(allowance@, query.required@) || gas is None,
        },
{
    if amount_covers(allowance, query.required.as_str()) {
        return None;
    }
    match gas {
        Some(g) => {
            let AllowanceQuery {
                token,
                owner,
                spender,
                chain_id,
                required: _,
                approval_amount,
                gas_price,
            } = query;
            Some(
                ApprovalTransaction {
                    from: owner,
                    to: token,
                    spender,
                    amount: approval_amount,
                    gas_price,
                    chain_id,
                    gas: g,
                },
            )
        },
        None => None,
    }
}

/// Whether the spender of a quote may take the amount the quote sends. The
/// native asset needs no allowance; for a token, `allowance` is what the
/// chain says the spender may take.
pub fn check_user_allowance(quote: &CanonicalQuote, allowance: &str) -> (r: Result<bool, String>)
    ensures
        match r {
            Ok(enough) => quote.from_token is Some && quote.from_amount is Some && enough == (
            quote.from_token->0.address@ == zero_address() || covers(
                allowance@,
                quote.from_amount->0@,
            )),
            Err(e) => (quote.from_amount is None && e@ == "Missing fromAmount"@) || (
            quote.from_amount is Some && quote.from_token is None && e@
                == "Missing fromToken address"@),
        },
{
    let amount = match &quote.from_amount {
        Some(a) => a,
        None => {
            return Err(owned("Missing fromAmount"));
        },
    };
    let token = match &quote.from_token {
        Some(t) => t,
        None => {
            return Err(owned("Missing fromToken address"));
        },
    };
    if str_equal(token.address.as_str(), "0x0000000000000000000000000000000000000000") {
        return Ok(true);
    }
    Ok(amount_covers(allowance, amount.as_str()))
}

/// Where the balance of a token is read: from the account for the native
/// asset, else from the token's contract.
#[derive(Clone, Copy, Debug, PartialEq, Eq)]
pub enum BalanceSource {
    Native,
    Contract,
}

/// Says where the balance of a token is read.
pub fn balance_source(token_address: &str) -> (source: BalanceSource)
    ensures
        source == (if token_address@ == zero_address() {
            BalanceSource::Native
        } else {
            BalanceSource::Contract
        }),
{
    if str_equal(token_address, "0x0000000000000000000000000000000000000000") {
        BalanceSource::Native
    } else {
        BalanceSource::Contract
    }
}

/// Whether a balance covers an amount.
pub fn check_user_balance(balance: &str, amount: &str) -> (enough: bool)
    ensures
        enough == covers(balance@, amount@),
{
    amount_covers(balance, amount)
}

} // verus!
