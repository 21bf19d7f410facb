//! The dispatcher: which providers to ask, which answers to keep, and how
//! the kept ones are ranked.
//!
//! Asking a provider is the caller's work. The dispatcher is a machine that
//! is told what came back and says what to do next; it never waits itself.

use vstd::prelude::*;
use crate::amount::{amount_less, amount_value};
use crate::fetch_token_details::{zero_address, TokenInfo};
use crate::filter_dapps::{chain_names, eligible_names, filter_dapps};
use crate::load_resources::AppState;
use crate::quote::{well_shaped, CanonicalQuote, Enrichment, GasPrices, QuoteRequest};
use crate::text::{append_str, names_view, owned, str_equal};

verus! {

/// Seconds a provider is given to answer. It is the same for every request.
pub const PROVIDER_DEADLINE_SECS: u64 = 30;

/// Whether a provider of this name is integrated.
pub open spec fn available_service(name: Seq<char>) -> bool {
    ||| name == "across"@
    ||| name == "balancer"@
    ||| name == "bungee"@
    ||| name == "debridge"@
    ||| name == "jumper"@
    ||| name == "koi"@
}

/// Whether a provider of this name is integrated.
pub fn is_available_service(name: &str) -> (known: bool)
    ensures
        known == available_service(name@),
{
    str_equal(name, "across") || str_equal(name, "balancer") || str_equal(name, "bungee")
        || str_equal(name, "debridge") || str_equal(name, "jumper") || str_equal(name, "koi")
}

/// The integrated providers.
#[derive(Clone, Copy, Debug, PartialEq, Eq)]
pub enum ProviderName {
    Across,
    Balancer,
    Bungee,
    Debridge,
    Jumper,
    Koi,
}

/// The name a provider goes by.
pub open spec fn name_of(provider: ProviderName) -> Seq<char> {
    match provider {
        ProviderName::Across => "across"@,
        ProviderName::Balancer => "balancer"@,
        ProviderName::Bungee => "bungee"@,
        ProviderName::Debridge => "debridge"@,
        ProviderName::Jumper => "jumper"@,
        ProviderName::Koi => "koi"@,
    }
}

/// The provider that goes by a name, if the name is that of an integrated
/// provider.
pub fn provider_named(name: &str) -> (provider: Option<ProviderName>)
    ensures
        provider is Some <==> available_service(name@),
        provider matches Some(p) ==> name_of(p) == name@,
{
    if str_equal(name, "across") {
        Some(ProviderName::Across)
    } else if str_equal(name, "balancer") {
        Some(ProviderName::Balancer)
    } else if str_equal(name, "bungee") {
        Some(ProviderName::Bungee)
    } else if str_equal(name, "debridge") {
        Some(ProviderName::Debridge)
    } else if str_equal(name, "jumper") {
        Some(ProviderName::Jumper)
    } else if str_equal(name, "koi") {
        Some(ProviderName::Koi)
    } else {
        None
    }
}

/// Those of `names` that are integrated and eligible, in their order.
pub open spec fn selected(names: Seq<Seq<char>>, eligible: Seq<Seq<char>>) -> Seq<Seq<char>>
    decreases names.len(),
{
    if names.len() == 0 {
        Seq::empty()
    } else {
        let before = selected(names.drop_last(), eligible);
        if available_service(names.last()) && eligible.contains(names.last()) {
            before.push(names.last())
        } else {
            before
        }
    }
}

/// The providers to ask: of those the caller named, the eligible ones; of all
/// eligible ones where the caller named none.
pub open spec fn candidates(eligible: Seq<Seq<char>>, requested: Option<Vec<String>>) -> Seq<
    Seq<char>,
> {
    match requested {
        Some(r) => if r@.len() > 0 {
            selected(names_view(r@), eligible)
        } else {
            selected(eligible, eligible)
        },
        None => selected(eligible, eligible),
    }
}

/// Whether a name is among those the caller named, or the caller named
/// none.
pub open spec fn named_or_free(requested: Option<Vec<String>>, name: Seq<char>) -> bool {
    match requested {
        Some(r) => r@.len() > 0 ==> names_view(r@).contains(name),
        None => true,
    }
}

/// Every provider that is asked is integrated and eligible, and, where the
/// caller named providers, is among those named.
pub proof fn lemma_candidates_are_eligible(eligible: Seq<Seq<char>>, requested: Option<Vec<String>>)
    ensures
        forall|i: int|
            0 <= i < candidates(eligible, requested).len() ==> {
                &&& available_service(#[trigger] candidates(eligible, requested)[i])
                &&& eligible.contains(candidates(eligible, requested)[i])
                &&& named_or_free(requested, candidates(eligible, requested)[i])
            },
{
    match requested {
        Some(r) => {
            if r@.len() > 0 {
                lemma_selected(names_view(r@), eligible);
            } else {
                lemma_selected(eligible, eligible);
            }
        },
        None => {
            lemma_selected(eligible, eligible);
        },
    }
}

/// Every selected name is among the names, integrated and eligible.
pub proof fn lemma_selected(names: Seq<Seq<char>>, eligible: Seq<Seq<char>>)
    ensures
        forall|i: int|
            0 <= i < selected(names, eligible).len() ==> {
                &&& available_service(#[trigger] selected(names, eligible)[i])
                &&& eligible.contains(selected(names, eligible)[i])
                &&& names.contains(selected(names, eligible)[i])
            },
    decreases names.len(),
{
    if names.len() > 0 {
        let rest = names.drop_last();
        lemma_selected(rest, eligible);
        let now = selected(names, eligible);
        let before = selected(rest, eligible);
        assert forall|i: int| 0 <= i < now.len() implies {
            &&& available_service(#[trigger] now[i])
            &&& eligible.contains(now[i])
            &&& names.contains(now[i])
        } by {
            if i < before.len() {
                assert(now[i] == before[i]);
                assert(rest.contains(before[i]));
                let k = choose|k: int| 0 <= k < rest.len() && rest[k] == before[i];
                assert(names[k] == before[i]);
            } else {
                assert(now[i] == names[names.len() - 1]);
            }
        }
    }
}

/// Whether a list of names holds `name`.
fn holds_name(names: &Vec<String>, name: &str) -> (found: bool)
    ensures
        found == names_view(names@).contains(name@),
{
    let mut i: usize = 0;
    while i < names.len()
        invariant
            i <= names.len(),
            forall|k: int| 0 <= k < i ==> names_view(names@)[k] != name@,
        decreases names.len() - i,
    {
        if str_equal(names[i].as_str(), name) {
            proof {
                assert(names_view(names@)[i as int] == name@);
            }
            return true;
        }
        i = i + 1;
    }
    false
}

/// Those of `names` that are integrated and eligible.
fn select_from(names: &Vec<String>, eligible: &Vec<String>) -> (out: Vec<String>)
    ensures
        names_view(out@) == selected(names_view(names@), names_view(eligible@)),
{
    let mut out: Vec<String> = Vec::new();
    let mut i: usize = 0;
    proof {
        assert(names_view(names@).subrange(0, 0) =~= Seq::<Seq<char>>::empty());
        assert(names_view(out@) =~= Seq::<Seq<char>>::empty());
    }
    while i < names.len()
        invariant
            i <= names.len(),
            names_view(out@) == selected(
                names_view(names@).subrange(0, i as int),
                names_view(eligible@),
            ),
        decreases names.len() - i,
    {
        proof {
            let next = names_view(names@).subrange(0, i + 1);
            assert(next.drop_last() =~= names_view(names@).subrange(0, i as int));
            assert(next.last() == names@[i as int]@);
        }
        let ghost before = out@;
        if is_available_service(names[i].as_str()) && holds_name(eligible, names[i].as_str()) {
            out.push(owned(names[i].as_str()));
            proof {
                assert(names_view(out@) =~= names_view(before).push(names@[i as int]@));
            }
        }
        i = i + 1;
    }
    proof {
        assert(names_view(names@).subrange(0, names@.len() as int) =~= names_view(names@));
    }
    out
}

/// The providers to ask for a request, given the eligible ones.
pub fn select_candidates(eligible: &Vec<String>, requested: &Option<Vec<String>>) -> (out: Vec<
    String,
>)
    ensures
        names_view(out@) == candidates(names_view(eligible@), *requested),
{
    match requested {
        Some(r) => {
            if r.len() > 0 {
                select_from(r, eligible)
            } else {
                select_from(eligible, eligible)
            }
        },
        None => select_from(eligible, eligible),
    }
}

/// How one provider's attempt ended.
pub enum ProviderReply {
    /// It answered in time.
    Quote(CanonicalQuote),
    /// It reported an error.
    Failed(String),
    /// It did not answer within the deadline.
    TimedOut,
}

/// One provider's attempt.
pub struct ProviderOutcome {
    pub provider: String,
    pub reply: ProviderReply,
}

/// A provider's quote that passed validation.
pub struct ProviderResult {
    pub provider_name: String,
    pub canonical_quote: CanonicalQuote,
}

/// A quote with its place in the ranking, counted from 1.
pub struct RankedQuote {
    pub id: u64,
    pub name: String,
    pub data: CanonicalQuote,
}

/// Whether an answer has the shape of a quote.
pub fn validate_response_format(data: &CanonicalQuote) -> (ok: bool)
    ensures
        ok == well_shaped(*data),
{
    data.tool.is_some() && data.from_chain_id.is_some() && data.to_chain_id.is_some()
        && data.from_amount.is_some() && data.to_amount.is_some() && data.from_token.is_some()
        && data.to_token.is_some() && data.transaction.is_some()
}

/// Whether an attempt ended in a quote of the right shape.
pub open spec fn survives(o: ProviderOutcome) -> bool {
    match o.reply {
        ProviderReply::Quote(q) => well_shaped(q),
        _ => false,
    }
}

/// The quote of an attempt that survives.
pub open spec fn result_of(o: ProviderOutcome) -> ProviderResult
    recommends
        survives(o),
{
    ProviderResult { provider_name: o.provider, canonical_quote: o.reply->Quote_0 }
}

/// The quotes of the attempts that survive, in the order of the attempts.
pub open spec fn survivors(outcomes: Seq<ProviderOutcome>) -> Seq<ProviderResult>
    decreases outcomes.len(),
{
    if outcomes.len() == 0 {
        Seq::empty()
    } else {
        let before = survivors(outcomes.drop_last());
        if survives(outcomes.last()) {
            before.push(result_of(outcomes.last()))
        } else {
            before
        }
    }
}

/// The amount a quote is ranked by: what it pays out, and 0 where it names
/// no amount.
pub open spec fn quote_key(q: CanonicalQuote) -> nat {
    match q.to_amount {
        Some(t) => amount_value(t@),
        None => 0,
    }
}

/// The amount a result is ranked by: that of its quote.
pub open spec fn rank_key(r: ProviderResult) -> nat {
    quote_key(r.canonical_quote)
}

/// `sorted` with `x` put behind the last entry that pays out at least as
/// much as `x`.
pub open spec fn insert_ranked(sorted: Seq<ProviderResult>, x: ProviderResult) -> Seq<
    ProviderResult,
>
    decreases sorted.len(),
{
    if sorted.len() == 0 {
        seq![x]
    } else if rank_key(sorted.last()) >= rank_key(x) {
        sorted.push(x)
    } else {
        insert_ranked(sorted.drop_last(), x).push(sorted.last())
    }
}

/// The results by falling pay-out; results that pay out the same keep their
/// order.
pub open spec fn ranked(results: Seq<ProviderResult>) -> Seq<ProviderResult>
    decreases results.len(),
{
    if results.len() == 0 {
        Seq::empty()
    } else {
        insert_ranked(ranked(results.drop_last()), results.last())
    }
}

/// Whether pay-outs never rise along `s`.
pub open spec fn falling(s: Seq<ProviderResult>) -> bool {
    forall|i: int, j: int| 0 <= i <= j < s.len() ==> rank_key(s[i]) >= rank_key(s[j])
}

/// The results with their places: the first gets 1, each next one more.
pub open spec fn numbered(results: Seq<ProviderResult>) -> Seq<RankedQuote> {
    Seq::new(
        results.len(),
        |i: int|
            (RankedQuote {
                id: (i + 1) as u64,
                name: results[i].provider_name,
                data: results[i].canonical_quote,
            }),
    )
}

/// Putting a result into a ranking keeps every result, adds the new one, and
/// keeps pay-outs falling.
pub proof fn lemma_insert_ranked(sorted: Seq<ProviderResult>, x: ProviderResult)
    ensures
        insert_ranked(sorted, x).len() == sorted.len() + 1,
        insert_ranked(sorted, x).to_multiset() == sorted.to_multiset().insert(x),
        falling(sorted) ==> falling(insert_ranked(sorted, x)),
        forall|i: int|
            0 <= i < insert_ranked(sorted, x).len() ==> #[trigger] insert_ranked(sorted, x)[i] == x
                || sorted.contains(insert_ranked(sorted, x)[i]),
    decreases sorted.len(),
{
    broadcast use vstd::seq_lib::to_multiset_build;

    let out = insert_ranked(sorted, x);
    if sorted.len() == 0 {
        assert(out =~= Seq::<ProviderResult>::empty().push(x));
        assert(sorted =~= Seq::<ProviderResult>::empty());
    } else if rank_key(sorted.last()) >= rank_key(x) {
        assert forall|i: int| 0 <= i < out.len() implies #[trigger] out[i] == x || sorted.contains(
            out[i],
        ) by {
            if i < sorted.len() {
                assert(sorted[i] == out[i]);
            }
        }
    } else {
        let rest = sorted.drop_last();
        let inner = insert_ranked(rest, x);
        lemma_insert_ranked(rest, x);
        assert(rest.push(sorted.last()) =~= sorted);
        assert(out.to_multiset() =~= sorted.to_multiset().insert(x));
        assert forall|i: int| 0 <= i < out.len() implies #[trigger] out[i] == x || sorted.contains(
            out[i],
        ) by {
            if i < inner.len() {
                if inner[i] != x {
                    assert(rest.contains(inner[i]));
                    let k = choose|k: int| 0 <= k < rest.len() && rest[k] == inner[i];
                    assert(sorted[k] == inner[i]);
                }
            } else {
                assert(sorted[sorted.len() - 1] == out[i]);
            }
        }
        if falling(sorted) {
            assert(falling(rest)) by {
                assert forall|i: int, j: int| 0 <= i <= j < rest.len() implies rank_key(rest[i])
                    >= rank_key(rest[j]) by {
                    assert(rest[i] == sorted[i] && rest[j] == sorted[j]);
                }
            }
            assert forall|i: int, j: int| 0 <= i <= j < out.len() implies rank_key(out[i])
                >= rank_key(out[j]) by {
                if j < inner.len() {
                    assert(out[i] == inner[i] && out[j] == inner[j]);
                } else if i < inner.len() {
                    assert(out[i] == inner[i]);
                    if inner[i] != x {
                        assert(rest.contains(inner[i]));
                        let k = choose|k: int| 0 <= k < rest.len() && rest[k] == inner[i];
                        assert(sorted[k] == inner[i]);
                        assert(rank_key(sorted[k]) >= rank_key(sorted[sorted.len() - 1]));
                    }
                }
            }
        }
    }
}

/// A ranking holds exactly the results it was made from, and pay-outs never
/// rise along it.
pub proof fn lemma_ranked(results: Seq<ProviderResult>)
    ensures
        ranked(results).len() == results.len(),
        ranked(results).to_multiset() == results.to_multiset(),
        falling(ranked(results)),
    decreases results.len(),
{
    broadcast use vstd::seq_lib::to_multiset_build;

    if results.len() == 0 {
        assert(results =~= Seq::<ProviderResult>::empty());
    } else {
        lemma_ranked(results.drop_last());
        lemma_insert_ranked(ranked(results.drop_last()), results.last());
        assert(results.drop_last().push(results.last()) =~= results);
    }
}

/// Whether the first result pays out less than the second.
fn pays_less(a: &ProviderResult, b: &ProviderResult) -> (less: bool)
    ensures
        less == (rank_key(*a) < rank_key(*b)),
{
    proof {
        reveal_strlit("");
        assert(amount_value(""@) == 0) by {
            assert(crate::amount::is_decimal(""@));
            assert(crate::amount::decimal_value(""@) == 0);
        }
    }
    let ta: &str = match &a.canonical_quote.to_amount {
        Some(t) => t.as_str(),
        None => "",
    };
    let tb: &str = match &b.canonical_quote.to_amount {
        Some(t) => t.as_str(),
        None => "",
    };
    amount_less(ta, tb)
}

/// Where `insert_ranked` puts `x`: behind the last entry that pays out at
/// least as much.
proof fn lemma_insert_position(sorted: Seq<ProviderResult>, x: ProviderResult, at: int)
    requires
        0 <= at <= sorted.len(),
        forall|k: int| at <= k < sorted.len() ==> rank_key(#[trigger] sorted[k]) < rank_key(x),
        at > 0 ==> rank_key(sorted[at - 1]) >= rank_key(x),
    ensures
        insert_ranked(sorted, x) == sorted.insert(at, x),
    decreases sorted.len() - at,
{
    if sorted.len() == 0 {
        assert(sorted.insert(at, x) =~= seq![x]);
    } else if at == sorted.len() {
        assert(sorted.insert(at, x) =~= sorted.push(x));
    } else {
        assert(rank_key(sorted[sorted.len() - 1]) < rank_key(x));
        lemma_insert_position(sorted.drop_last(), x, at);
        assert(sorted.insert(at, x) =~= sorted.drop_last().insert(at, x).push(sorted.last()));
    }
}

/// Ranks results by falling pay-out.
pub fn rank_results(results: Vec<ProviderResult>) -> (out: Vec<ProviderResult>)
    ensures
        out@ == ranked(results@),
{
    let mut out: Vec<ProviderResult> = Vec::new();
    proof {
        assert(results@.subrange(0, 0) =~= Seq::<ProviderResult>::empty());
    }
    for x in it: results
        invariant
            it.seq() == results@,
            out@ == ranked(results@.subrange(0, it.index() as int)),
    {
        proof {
            let next = results@.subrange(0, it.index() + 1);
            assert(next.drop_last() =~= results@.subrange(0, it.index() as int));
            assert(next.last() == x);
        }
        let mut at: usize = out.len();
        while at > 0 && pays_less(&out[at - 1], &x)
            invariant
                at <= out.len(),
                forall|k: int| at <= k < out@.len() ==> rank_key(#[trigger] out@[k]) < rank_key(x),
            decreases at,
        {
            at = at - 1;
        }
        proof {
            lemma_insert_position(out@, x, at as int);
        }
        out.insert(at, x);
    }
    proof {
        assert(results@.subrange(0, results@.len() as int) =~= results@);
    }
    out
}

/// Keeps the attempts that ended in a quote of the right shape.
pub fn keep_survivors(outcomes: Vec<ProviderOutcome>) -> (out: Vec<ProviderResult>)
    ensures
        out@ == survivors(outcomes@),
{
    let mut out: Vec<ProviderResult> = Vec::new();
    proof {
        assert(outcomes@.subrange(0, 0) =~= Seq::<ProviderOutcome>::empty());
    }
    for o in it: outcomes
        invariant
            it.seq() == outcomes@,
            out@ == survivors(outcomes@.subrange(0, it.index() as int)),
    {
        proof {
            let next = outcomes@.subrange(0, it.index() + 1);
            assert(next.drop_last() =~= outcomes@.subrange(0, it.index() as int));
            assert(next.last() == o);
        }
        let ProviderOutcome { provider, reply } = o;
        match reply {
            ProviderReply::Quote(q) => {
                if validate_response_format(&q) {
                    out.push(ProviderResult { provider_name: provider, canonical_quote: q });
                }
            },
            ProviderReply::Failed(_) => {},
            ProviderReply::TimedOut => {},
        }
    }
    proof {
        assert(outcomes@.subrange(0, outcomes@.len() as int) =~= outcomes@);
    }
    out
}

/// Gives each result its place.
pub fn number_results(results: Vec<ProviderResult>) -> (out: Vec<RankedQuote>)
    ensures
        out@ == numbered(results@),
{
    let mut out: Vec<RankedQuote> = Vec::new();
    let total = results.len();
    for r in it: results
        invariant
            it.seq() == results@,
            total == results@.len(),
            out@.len() == it.index(),
            forall|k: int| 0 <= k < out@.len() ==> out@[k] == numbered(results@)[k],
    {
        let id: u64 = (out.len() as u64) + 1;
        let ProviderResult { provider_name, canonical_quote } = r;
        out.push(RankedQuote { id, name: provider_name, data: canonical_quote });
    }
    proof {
        assert(out@ =~= numbered(results@));
    }
    out
}

/// A token to resolve: its address and the chain it lives on.
pub struct TokenRequest {
    pub address: String,
    pub chain_id: u64,
}

/// What a run of the dispatcher ends in.
pub enum RouteOutcome {
    /// At least one provider gave a usable quote; the quotes, best first.
    Quotes(Vec<RankedQuote>),
    /// No quote; the reason in words.
    NoQuotes(String),
}

/// Where a run of the dispatcher stands.
pub enum RouteState {
    Start,
    AwaitingGasPrice { providers: Vec<String> },
    AwaitingTokens { providers: Vec<String>, gas_prices: GasPrices },
    AwaitingQuotes,
    Done,
}

/// What the caller reports to the dispatcher.
pub enum RouteEvent {
    /// The request has come in.
    Begin,
    /// The gas price of the source chain.
    GasPrice(GasPrices),
    /// What is known of the source token, the destination token and the
    /// source chain's native asset.
    Tokens { from: Option<TokenInfo>, to: Option<TokenInfo>, native: Option<TokenInfo> },
    /// Token metadata could not be had.
    TokensFailed(String),
    /// Every provider's attempt has ended.
    Quotes(Vec<ProviderOutcome>),
}

/// What the dispatcher asks of the caller.
pub enum RouteAction {
    FetchGasPrice { chain_id: u64 },
    ResolveTokens { wanted: Vec<TokenRequest> },
    /// Ask every listed provider at once, each with its own deadline, and
    /// wait for all of them.
    CallProviders { providers: Vec<String>, enrichment: Enrichment, deadline_secs: u64 },
    /// The run is over: hand this to the requester.
    Respond(RouteOutcome),
    /// The run is over: the aggregation failed as a whole.
    Fail(String),
}

/// The chain a request sends to.
pub open spec fn destination(request: QuoteRequest) -> u64 {
    match request.to_chain_id {
        Some(id) => id,
        None => request.from_chain_id,
    }
}

/// The providers that are eligible for a request.
pub open spec fn eligible_for(request: QuoteRequest, app: AppState) -> Seq<Seq<char>> {
    eligible_names(
        app.dapp_config@,
        request.from_token_address@,
        request.from_chain_id,
        destination(request),
        chain_names(app.rpc_config@),
    )
}

/// The tokens a request needs resolved: the one sent, the one received, and
/// the native asset of the source chain.
pub open spec fn wanted_tokens(request: QuoteRequest) -> Seq<(Seq<char>, u64)> {
    seq![
        (request.from_token_address@, request.from_chain_id),
        (request.to_token_address@, destination(request)),
        (zero_address(), request.from_chain_id),
    ]
}

/// Token requests as pairs of address and chain.
pub open spec fn wanted_view(wanted: Seq<TokenRequest>) -> Seq<(Seq<char>, u64)> {
    Seq::new(wanted.len(), |i: int| (wanted[i].address@, wanted[i].chain_id))
}

/// Whether an action answers the requester that there are no quotes, with
/// the given reason.
pub open spec fn responds_no_quotes(action: RouteAction, reason: Seq<char>) -> bool {
    match action {
        RouteAction::Respond(RouteOutcome::NoQuotes(m)) => m@ == reason,
        _ => false,
    }
}

/// Whether an action answers the requester with the given quotes.
pub open spec fn responds_quotes(action: RouteAction, data: Seq<RankedQuote>) -> bool {
    match action {
        RouteAction::Respond(RouteOutcome::Quotes(d)) => d@ == data,
        _ => false,
    }
}

/// Whether an action fails the aggregation with the given reason.
pub open spec fn fails_with(action: RouteAction, reason: Seq<char>) -> bool {
    match action {
        RouteAction::Fail(m) => m@ == reason,
        _ => false,
    }
}

/// Whether an action asks for the given tokens.
pub open spec fn asks_tokens(action: RouteAction, wanted: Seq<(Seq<char>, u64)>) -> bool {
    match action {
        RouteAction::ResolveTokens { wanted: w } => wanted_view(w@) == wanted,
        _ => false,
    }
}

/// Whether a state waits for the gas price with the given providers in mind.
pub open spec fn awaits_gas_price(state: RouteState, providers: Seq<Seq<char>>) -> bool {
    match state {
        RouteState::AwaitingGasPrice { providers: p } => names_view(p@) == providers,
        _ => false,
    }
}

/// The step the dispatcher takes from a state on an event.
///
/// A run goes from `Start` through the gas price and the token metadata to
/// the providers' answers. It ends at once, before anything is fetched, where
/// no provider is eligible or none of the requested ones is. It fails as a
/// whole where a token cannot be resolved. An event that the state does not
/// wait for ends the run in failure.
pub open spec fn route_step(
    state: RouteState,
    event: RouteEvent,
    request: QuoteRequest,
    app: AppState,
    next: RouteState,
    action: RouteAction,
) -> bool {
    match state {
        RouteState::Start => match event {
            RouteEvent::Begin => {
                let eligible = eligible_for(request, app);
                let asked = candidates(eligible, request.options.dapps);
                if eligible.len() == 0 {
                    next is Done && responds_no_quotes(action, "No dApps available"@)
                } else if asked.len() == 0 {
                    next is Done && responds_no_quotes(action, "No valid quotes found."@)
                } else {
                    awaits_gas_price(next, asked) && action == (RouteAction::FetchGasPrice {
                        chain_id: request.from_chain_id,
                    })
                }
            },
            _ => next is Done && fails_with(action, "Unexpected event"@),
        },
        RouteState::AwaitingGasPrice { providers } => match event {
            RouteEvent::GasPrice(g) => {
                &&& next == (RouteState::AwaitingTokens { providers, gas_prices: g })
                &&& asks_tokens(action, wanted_tokens(request))
            },
            _ => next is Done && fails_with(action, "Unexpected event"@),
        },
        RouteState::AwaitingTokens { providers, gas_prices } => match event {
            RouteEvent::Tokens { from, to, native } => {
                if from is Some && to is Some && native is Some {
                    &&& next is AwaitingQuotes
                    &&& action == (RouteAction::CallProviders {
                        providers,
                        enrichment: Enrichment {
                            gas_prices,
                            quote_only: true,
                            from_token_details: from,
                            to_token_details: to,
                            native_token_details: native,
                        },
                        deadline_secs: PROVIDER_DEADLINE_SECS,
                    })
                } else {
                    next is Done && fails_with(
                        action,
                        "Failed to fetch token details: token not found"@,
                    )
                }
            },
            RouteEvent::TokensFailed(e) => next is Done && fails_with(
                action,
                "Failed to fetch token details: "@ + e@,
            ),
            _ => next is Done && fails_with(action, "Unexpected event"@),
        },
        RouteState::AwaitingQuotes => match event {
            RouteEvent::Quotes(outcomes) => {
                &&& next is Done
                &&& if survivors(outcomes@).len() == 0 {
                    responds_no_quotes(action, "No valid quotes found."@)
                } else {
                    responds_quotes(action, numbered(ranked(survivors(outcomes@))))
                }
            },
            _ => next is Done && fails_with(action, "Unexpected event"@),
        },
        RouteState::Done => next is Done && fails_with(action, "Unexpected event"@),
    }
}

/// The answer to a finished round of provider calls: the surviving quotes,
/// ranked and numbered, or the report that none survived.
pub fn collect_quotes(outcomes: Vec<ProviderOutcome>) -> (outcome: RouteOutcome)
    ensures
        survivors(outcomes@).len() == 0 ==> responds_no_quotes(
            RouteAction::Respond(outcome),
            "No valid quotes found."@,
        ),
        survivors(outcomes@).len() > 0 ==> responds_quotes(
            RouteAction::Respond(outcome),
            numbered(ranked(survivors(outcomes@))),
        ),
{
    let kept = keep_survivors(outcomes);
    if kept.len() == 0 {
        RouteOutcome::NoQuotes(owned("No valid quotes found."))
    } else {
        RouteOutcome::Quotes(number_results(rank_results(kept)))
    }
}

/// Ends a run on an event that its state does not wait for.
fn unexpected() -> (step: (RouteState, RouteAction))
    ensures
        step.0 is Done,
        fails_with(step.1, "Unexpected event"@),
{
    (RouteState::Done, RouteAction::Fail(owned("Unexpected event")))
}

/// Takes one step of a run: from where the run stands and what the caller
/// reports, to where it stands next and what the caller is to do.
pub fn route_quote(state: RouteState, event: RouteEvent, request: &QuoteRequest, app: &AppState) -> (step:
    (RouteState, RouteAction))
    ensures
        route_step(state, event, *request, *app, step.0, step.1),
{
    match state {
        RouteState::Start => match event {
            RouteEvent::Begin => {
                let to_chain = match request.to_chain_id {
                    Some(id) => id,
                    None => request.from_chain_id,
                };
                let eligible = filter_dapps(
                    request.from_token_address.as_str(),
                    request.from_chain_id,
                    to_chain,
                    &app.dapp_config,
                    &app.rpc_config,
                );
                if eligible.len() == 0 {
                    return (
                        RouteState::Done,
                        RouteAction::Respond(RouteOutcome::NoQuotes(owned("No dApps available"))),
                    );
                }
                let asked = select_candidates(&eligible, &request.options.dapps);
                if asked.len() == 0 {
                    return (
                        RouteState::Done,
                        RouteAction::Respond(
                            RouteOutcome::NoQuotes(owned("No valid quotes found.")),
                        ),
                    );
                }
                (
                    RouteState::AwaitingGasPrice { providers: asked },
                    RouteAction::FetchGasPrice { chain_id: request.from_chain_id },
                )
            },
            _ => unexpected(),
        },
        RouteState::AwaitingGasPrice { providers } => match event {
            RouteEvent::GasPrice(g) => {
                let to_chain = match request.to_chain_id {
                    Some(id) => id,
                    None => request.from_chain_id,
                };
                let mut wanted: Vec<TokenRequest> = Vec::new();
                wanted.push(
                    TokenRequest {
                        address: owned(request.from_token_address.as_str()),
                        chain_id: request.from_chain_id,
                    },
                );
                wanted.push(
                    TokenRequest {
                        address: owned(request.to_token_address.as_str()),
                        chain_id: to_chain,
                    },
                );
                wanted.push(
                    TokenRequest {
                        address: owned("0x0000000000000000000000000000000000000000"),
                        chain_id: request.from_chain_id,
                    },
                );
                proof {
                    assert(wanted_view(wanted@) =~= wanted_tokens(*request));
                }
                (
                    RouteState::AwaitingTokens { providers, gas_prices: g },
                    RouteAction::ResolveTokens { wanted },
                )
            },
            _ => unexpected(),
        },
        RouteState::AwaitingTokens { providers, gas_prices } => match event {
            RouteEvent::Tokens { from, to, native } => {
                if from.is_some() && to.is_some() && native.is_some() {
                    (
                        RouteState::AwaitingQuotes,
                        RouteAction::CallProviders {
                            providers,
                            enrichment: Enrichment {
                                gas_prices,
                                quote_only: true,
                                from_token_details: from,
                                to_token_details: to,
                                native_token_details: native,
                            },
                            deadline_secs: PROVIDER_DEADLINE_SECS,
                        },
                    )
                } else {
                    (
                        RouteState::Done,
                        RouteAction::Fail(owned("Failed to fetch token details: token not found")),
                    )
                }
            },
            RouteEvent::TokensFailed(e) => (
                RouteState::Done,
                RouteAction::Fail(append_str("Failed to fetch token details: ", e.as_str())),
            ),
            _ => unexpected(),
        },
        RouteState::AwaitingQuotes => match event {
            RouteEvent::Quotes(outcomes) => (
                RouteState::Done,
                RouteAction::Respond(collect_quotes(outcomes)),
            ),
            _ => unexpected(),
        },
        RouteState::Done => unexpected(),
    }
}

/// Where no provider is eligible for a request, the run's first step is its
/// last: it answers that there are no quotes and asks for nothing to be
/// fetched or called.
pub proof fn law_no_eligible_provider_no_call(
    request: QuoteRequest,
    app: AppState,
    next: RouteState,
    action: RouteAction,
)
    requires
        eligible_for(request, app).len() == 0,
        route_step(RouteState::Start, RouteEvent::Begin, request, app, next, action),
    ensures
        next is Done,
        action matches RouteAction::Respond(RouteOutcome::NoQuotes(_)),
{
}

/// Where at least one provider answered in time with a quote of the right
/// shape, the run answers with quotes: exactly the surviving ones, none
/// paying out more than one before it, and numbered from 1 without a gap.
pub proof fn law_success_is_ranked(
    outcomes: Vec<ProviderOutcome>,
    request: QuoteRequest,
    app: AppState,
    next: RouteState,
    action: RouteAction,
)
    requires
        exists|i: int| 0 <= i < outcomes@.len() && survives(#[trigger] outcomes@[i]),
        route_step(RouteState::AwaitingQuotes, RouteEvent::Quotes(outcomes), request, app, next, action),
    ensures
        action matches RouteAction::Respond(RouteOutcome::Quotes(d)) && {
            &&& d@.len() == survivors(outcomes@).len()
            &&& d@.len() >= 1
            &&& forall|i: int| 0 <= i < d@.len() ==> (#[trigger] d@[i]).id == i + 1
            &&& forall|i: int, j: int|
                0 <= i <= j < d@.len() ==> quote_key(d@[i].data) >= quote_key(d@[j].data)
            &&& quotes_of(d@).to_multiset() == survivors(outcomes@).to_multiset()
        },
{
    let i = choose|i: int| 0 <= i < outcomes@.len() && survives(#[trigger] outcomes@[i]);
    lemma_survivors_hold(outcomes@, i);
    lemma_survivors_len(outcomes@);
    assert(outcomes@.len() == outcomes.len());
    let kept = survivors(outcomes@);
    lemma_ranked(kept);
    let d = numbered(ranked(kept));
    assert(responds_quotes(action, d));
    assert(quotes_of(d) =~= ranked(kept));
    assert forall|a: int, b: int| 0 <= a <= b < d.len() implies quote_key(d[a].data) >= quote_key(
        d[b].data,
    ) by {
        assert(rank_key(ranked(kept)[a]) >= rank_key(ranked(kept)[b]));
    }
}

/// Ranked quotes without their places.
pub open spec fn quotes_of(data: Seq<RankedQuote>) -> Seq<ProviderResult> {
    Seq::new(
        data.len(),
        |i: int| (ProviderResult { provider_name: data[i].name, canonical_quote: data[i].data }),
    )
}

/// There are no more survivors than attempts.
pub proof fn lemma_survivors_len(outcomes: Seq<ProviderOutcome>)
    ensures
        survivors(outcomes).len() <= outcomes.len(),
    decreases outcomes.len(),
{
    if outcomes.len() > 0 {
        lemma_survivors_len(outcomes.drop_last());
    }
}

/// An attempt that survives is among the survivors.
pub proof fn lemma_survivors_hold(outcomes: Seq<ProviderOutcome>, i: int)
    requires
        0 <= i < outcomes.len(),
        survives(outcomes[i]),
    ensures
        survivors(outcomes).len() >= 1,
        survivors(outcomes).contains(result_of(outcomes[i])),
    decreases outcomes.len(),
{
    let before = survivors(outcomes.drop_last());
    if i == outcomes.len() - 1 {
        assert(survivors(outcomes) == before.push(result_of(outcomes.last())));
        assert(survivors(outcomes)[before.len() as int] == result_of(outcomes[i]));
    } else {
        lemma_survivors_hold(outcomes.drop_last(), i);
        let k = choose|k: int| 0 <= k < before.len() && before[k] == result_of(outcomes[i]);
        assert(survivors(outcomes)[k] == before[k]);
    }
}

} // verus!
