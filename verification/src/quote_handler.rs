//! From the parameters of an incoming call to the request that the
//! dispatcher works on.

use vstd::prelude::*;
use crate::load_resources::AppState;
use crate::quote::{OptionEntry, QuoteOptions, QuoteRequest};
use crate::validate_params::{
    format_options, options_of, refusal, validate_required_params, QuoteParams,
};

verus! {

/// The parameters of a request that came in as a query.
pub struct GetQuoteParams {
    pub from_chain_id: u32,
    pub from_address: String,
    pub amount: String,
    pub from_token_address: String,
    pub to_token_address: String,
    pub to_address: Option<String>,
    pub to_chain_id: Option<u32>,
    pub dapps: Vec<String>,
    /// Tolerated shortfall in hundredths of a percent.
    pub slippage_bps: u32,
    pub options: Option<QuoteOptions>,
    pub other_params: Vec<OptionEntry>,
}

/// Whether `request` is the request that accepted parameters stand for: the
/// recipient is the sender where none is named, the destination is the source
/// chain where none is named, and the options are those of the body for a
/// posted request and those of the query otherwise.
pub open spec fn request_of(request: QuoteRequest, params: QuoteParams, is_post: bool) -> bool {
    &&& request.from_chain_id == params.from_chain_id
    &&& request.to_chain_id == Some(
        (match params.to_chain_id {
            Some(id) => id,
            None => params.from_chain_id,
        }) as u64,
    )
    &&& request.from_token_address == params.from_token_address
    &&& request.to_token_address == params.to_token_address
    &&& request.from_address == params.from_address
    &&& request.to_address == (match params.to_address {
        Some(a) => a,
        None => params.from_address,
    })
    &&& request.amount == params.amount
    &&& if is_post {
        match params.options {
            Some(o) => request.options == o,
            None => request.options.slippage_bps is None && request.options.dapps is None
                && request.options.extra@.len() == 0,
        }
    } else {
        options_of(request.options, params.other_params@)
    }
}

/// Turns the parameters of a call into a request, or refuses them with the
/// reason that validation gives.
pub fn handle_quote_request(params: QuoteParams, is_post: bool, state: &AppState) -> (r: Result<
    QuoteRequest,
    String,
>)
    ensures
        match r {
            Ok(request) => refusal(params, state.chains@) is None && request_of(
                request,
                params,
                is_post,
            ),
            Err(message) => refusal(params, state.chains@) == Some(message@),
        },
{
    let validation = validate_required_params(&params, state);
    if !validation.valid {
        return Err(validation.message);
    }
    let query_options = if is_post {
        None
    } else {
        Some(format_options(&params.other_params))
    };
    let QuoteParams {
        from_chain_id,
        from_address,
        amount,
        from_token_address,
        to_token_address,
        to_address,
        to_chain_id,
        dapps: _,
        options,
        other_params: _,
    } = params;
    let to_address = match to_address {
        Some(a) => a,
        None => from_address.clone(),
    };
    let to_chain = match to_chain_id {
        Some(id) => id,
        None => from_chain_id,
    };
    let options = match query_options {
        Some(o) => o,
        None => match options {
            Some(o) => o,
            None => QuoteOptions { slippage_bps: None, dapps: None, extra: Vec::new() },
        },
    };
    Ok(
        QuoteRequest {
            from_chain_id: from_chain_id as u64,
            to_chain_id: Some(to_chain as u64),
            from_token_address,
            to_token_address,
            from_address,
            to_address,
            amount,
            options,
        },
    )
}

/// Turns the parameters of a posted call into a request.
pub fn post_quote_handler(params: QuoteParams, state: &AppState) -> (r: Result<QuoteRequest, String>)
    ensures
        match r {
            Ok(request) => refusal(params, state.chains@) is None && request_of(request, params, true),
            Err(message) => refusal(params, state.chains@) == Some(message@),
        },
{
    handle_quote_request(params, true, state)
}

/// The parameters of a query in the form of the parameters of a posted
/// call.
pub open spec fn as_posted(params: GetQuoteParams) -> QuoteParams {
    QuoteParams {
        from_chain_id: params.from_chain_id,
        from_address: params.from_address,
        amount: params.amount,
        from_token_address: params.from_token_address,
        to_token_address: params.to_token_address,
        to_address: params.to_address,
        to_chain_id: params.to_chain_id,
        dapps: params.dapps,
        options: params.options,
        other_params: params.other_params,
    }
}

/// Turns the parameters of a query into a request. The options of the
/// request are read from the query's remaining parameters alone; a shortfall
/// that the query names in its own field is not among them.
pub fn get_quote_handler(params: GetQuoteParams, state: &AppState) -> (r: Result<QuoteRequest, String>)
    ensures
        match r {
            Ok(request) => refusal(as_posted(params), state.chains@) is None && request_of(
                request,
                as_posted(params),
                false,
            ),
            Err(message) => refusal(as_posted(params), state.chains@) == Some(message@),
        },
{
    let GetQuoteParams {
        from_chain_id,
        from_address,
        amount,
        from_token_address,
        to_token_address,
        to_address,
        to_chain_id,
        dapps,
        slippage_bps: _,
        options,
        other_params,
    } = params;
    handle_quote_request(
        QuoteParams {
            from_chain_id,
            from_address,
            amount,
            from_token_address,
            to_token_address,
            to_address,
            to_chain_id,
            dapps,
            options,
            other_params,
        },
        false,
        state,
    )
}

} // verus!
