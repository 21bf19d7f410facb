//! Token metadata: what is known of a token on a chain.

use vstd::prelude::*;
use crate::quote_router::TokenRequest;
use crate::text::{append_str, lower, owned, str_equal, to_lower};
use crate::token_storage::{make_token_key, token_key, HybridTokenStorage};

verus! {

/// A price in US dollars as a decimal fraction: `units` divided by ten to
/// the power `scale`.
#[derive(Clone, Copy, Debug, PartialEq, Eq)]
pub struct Price {
    pub units: u64,
    pub scale: u8,
}

/// What is known of a token on a chain. A token resolved from the chain
/// itself has no price.
#[derive(Clone, Debug)]
pub struct TokenInfo {
    pub address: String,
    pub chain_id: u64,
    pub symbol: String,
    pub decimals: u8,
    pub name: String,
    pub coin_key: String,
    pub logo_uri: String,
    pub price_usd: Option<Price>,
}

/// The address that stands for a chain's native asset.
pub open spec fn zero_address() -> Seq<char> {
    "0x0000000000000000000000000000000000000000"@
}

/// The other address in use for a chain's native asset.
pub open spec fn native_marker() -> Seq<char> {
    "0xeeeeeeeeeeeeeeeeeeeeeeeeeeeeeeeeeeeeeeee"@
}

/// The form of an address that tokens are looked up by: in lower case, and
/// the zero address for either address of the native asset.
pub open spec fn normalized_address(address: Seq<char>) -> Seq<char> {
    if lower(address) == native_marker() {
        zero_address()
    } else {
        lower(address)
    }
}

/// Brings an address into the form that tokens are looked up by.
pub fn normalize_token_address(token_address: &str) -> (out: String)
    ensures
        out@ == normalized_address(token_address@),
{
    let lowered = to_lower(token_address);
    if str_equal(lowered.as_str(), "0xeeeeeeeeeeeeeeeeeeeeeeeeeeeeeeeeeeeeeeee") {
        owned("0x0000000000000000000000000000000000000000")
    } else {
        lowered
    }
}

/// A copy of a token's metadata.
pub fn copy_token(t: &TokenInfo) -> (c: TokenInfo)
    ensures
        c == *t,
{
    TokenInfo {
        address: t.address.clone(),
        chain_id: t.chain_id,
        symbol: t.symbol.clone(),
        decimals: t.decimals,
        name: t.name.clone(),
        coin_key: t.coin_key.clone(),
        logo_uri: t.logo_uri.clone(),
        price_usd: t.price_usd,
    }
}

/// What is cached of a token: the entry of the static list, else the entry
/// resolved on a chain, under the token's key.
pub open spec fn cached(
    older: Map<Seq<char>, TokenInfo>,
    newer: Map<Seq<char>, TokenInfo>,
    chain_id: u64,
    address: Seq<char>,
) -> Option<TokenInfo> {
    let key = token_key(chain_id, normalized_address(address));
    if older.contains_key(key) {
        Some(older[key])
    } else if newer.contains_key(key) {
        Some(newer[key])
    } else {
        None
    }
}

/// What is to be done for one token.
pub enum TokenLookup {
    /// The cache has it.
    Cached(TokenInfo),
    /// It has to be read from its chain, under the address given.
    Missing { address: String, chain_id: u64 },
}

/// What a chain said of a token: its symbol and decimals, or why it said
/// nothing.
pub enum NetworkAnswer {
    Token { symbol: String, decimals: u8 },
    Failed(String),
}

/// Whether a lookup is the right one for a token, given the cache.
pub open spec fn lookup_matches(
    lookup: TokenLookup,
    older: Map<Seq<char>, TokenInfo>,
    newer: Map<Seq<char>, TokenInfo>,
    chain_id: u64,
    address: Seq<char>,
) -> bool {
    match cached(older, newer, chain_id, address) {
        Some(t) => lookup == TokenLookup::Cached(t),
        None => match lookup {
            TokenLookup::Missing { address: a, chain_id: c } => a@ == normalized_address(address)
                && c == chain_id,
            _ => false,
        },
    }
}

/// Looks one token up in the cache.
pub fn lookup_token(storage: &HybridTokenStorage, address: &str, chain_id: u64) -> (lookup: TokenLookup)
    requires
        storage.wf(),
    ensures
        lookup_matches(lookup, storage.older(), storage.newer(), chain_id, address@),
{
    let normalized = normalize_token_address(address);
    let key = make_token_key(chain_id, normalized.as_str());
    match storage.get_old(key.as_str()) {
        Some(t) => TokenLookup::Cached(copy_token(t)),
        None => match storage.get_new(chain_id, normalized.as_str()) {
            Some(t) => TokenLookup::Cached(copy_token(t)),
            None => TokenLookup::Missing { address: normalized, chain_id },
        },
    }
}

/// Says for each wanted token whether the cache has it or its chain has to
/// be asked.
pub fn plan_token_lookups(wanted: &Vec<TokenRequest>, storage: &HybridTokenStorage) -> (plan: Vec<
    TokenLookup,
>)
    requires
        storage.wf(),
    ensures
        plan@.len() == wanted@.len(),
        forall|i: int|
            0 <= i < plan@.len() ==> lookup_matches(
                #[trigger] plan@[i],
                storage.older(),
                storage.newer(),
                wanted@[i].chain_id,
                wanted@[i].address@,
            ),
{
    let mut plan: Vec<TokenLookup> = Vec::new();
    let mut i: usize = 0;
    while i < wanted.len()
        invariant
            i <= wanted.len(),
            storage.wf(),
            plan@.len() == i,
            forall|k: int|
                0 <= k < i ==> lookup_matches(
                    #[trigger] plan@[k],
                    storage.older(),
                    storage.newer(),
                    wanted@[k].chain_id,
                    wanted@[k].address@,
                ),
        decreases wanted.len() - i,
    {
        plan.push(lookup_token(storage, wanted[i].address.as_str(), wanted[i].chain_id));
        i = i + 1;
    }
    plan
}

/// The metadata of a token as read from its chain: the symbol stands in for
/// the name, and no price is known.
pub open spec fn resolved_token(t: TokenInfo, address: Seq<char>, chain_id: u64, symbol: Seq<char>, decimals: u8) -> bool {
    &&& t.address@ == address
    &&& t.chain_id == chain_id
    &&& t.symbol@ == symbol
    &&& t.decimals == decimals
    &&& t.name@ == symbol
    &&& t.coin_key@ == symbol
    &&& t.logo_uri@.len() == 0
    &&& t.price_usd is None
}

/// The metadata of a token from what its chain said of it.
pub fn network_token(address: &str, chain_id: u64, symbol: &str, decimals: u8) -> (t: TokenInfo)
    ensures
        resolved_token(t, address@, chain_id, symbol@, decimals),
{
    TokenInfo {
        address: owned(address),
        chain_id,
        symbol: owned(symbol),
        decimals,
        name: owned(symbol),
        coin_key: owned(symbol),
        logo_uri: String::new(),
        price_usd: None,
    }
}

/// Writes a token that was read from its chain into the cache.
pub fn save_token_to_new_tokens(token_info: TokenInfo, storage: &mut HybridTokenStorage)
    requires
        old(storage).wf(),
    ensures
        final(storage).wf(),
        final(storage).older() == old(storage).older(),
        final(storage).newer() == old(storage).newer().insert(
            token_key(token_info.chain_id, token_info.address@),
            token_info,
        ),
{
    let address = owned(token_info.address.as_str());
    storage.insert_new(token_info.chain_id, address, token_info);
}

/// The message for a token that its chain gave nothing of.
pub fn network_failure(error: &str) -> (message: String)
    ensures
        message@ == "Failed to fetch token from network: "@ + error@,
{
    append_str("Failed to fetch token from network: ", error)
}

/// The key under which a wanted token is cached.
pub open spec fn wanted_key(want: TokenRequest) -> Seq<char> {
    token_key(want.chain_id, normalized_address(want.address@))
}

/// The message with which resolving the wanted tokens from `at` on fails,
/// if it does: `known` are the keys that the cache holds by then, and `used`
/// is the number of answers that are spent. A token whose key is not known
/// takes the next answer; without one, or with a failure for one, resolving
/// fails.
pub open spec fn resolution_failure(
    known: Set<Seq<char>>,
    wanted: Seq<TokenRequest>,
    answers: Seq<NetworkAnswer>,
    at: int,
    used: int,
) -> Option<Seq<char>>
    decreases wanted.len() - at,
{
    if at < 0 || at >= wanted.len() {
        None
    } else if known.contains(wanted_key(wanted[at])) {
        resolution_failure(known, wanted, answers, at + 1, used)
    } else if used < 0 || used >= answers.len() {
        Some("Failed to fetch token from network: "@ + "no answer"@)
    } else {
        match answers[used] {
            NetworkAnswer::Token { .. } => resolution_failure(
                known.insert(wanted_key(wanted[at])),
                wanted,
                answers,
                at + 1,
                used + 1,
            ),
            NetworkAnswer::Failed(e) => Some("Failed to fetch token from network: "@ + e@),
        }
    }
}

/// Whether a cache entry was made from one of the answers.
pub open spec fn made_from(t: TokenInfo, key: Seq<char>, answers: Seq<NetworkAnswer>) -> bool {
    exists|j: int|
        0 <= j < answers.len() && match #[trigger] answers[j] {
            NetworkAnswer::Token { symbol, decimals } => {
                &&& token_key(t.chain_id, t.address@) == key
                &&& resolved_token(t, t.address@, t.chain_id, symbol@, decimals)
            },
            NetworkAnswer::Failed(_) => false,
        }
}

/// Resolves tokens: from the cache where it has them, else from what their
/// chains said.
///
/// `answers` holds, in order, what the chains said of the tokens that
/// `plan_token_lookups` reports missing. A token that was read from its chain
/// is written into the second layer of the cache; no entry that the cache
/// had is changed. The first token that is missing and has no answer, or a
/// failure for an answer, fails the whole call.
pub fn fetch_token_details(
    tokens_with_chain_ids: &Vec<TokenRequest>,
    storage: &mut HybridTokenStorage,
    answers: &Vec<NetworkAnswer>,
) -> (r: Result<Vec<TokenInfo>, String>)
    requires
        old(storage).wf(),
    ensures
        final(storage).wf(),
        final(storage).older() == old(storage).older(),
        old(storage).newer().submap_of(final(storage).newer()),
        forall|key: Seq<char>|
            final(storage).newer().contains_key(key) && !old(storage).newer().contains_key(key)
                ==> made_from(#[trigger] final(storage).newer()[key], key, answers@),
        match r {
            Ok(tokens) => {
                &&& resolution_failure(
                    old(storage).older().dom().union(old(storage).newer().dom()),
                    tokens_with_chain_ids@,
                    answers@,
                    0,
                    0,
                ) is None
                &&& tokens@.len() == tokens_with_chain_ids@.len()
                &&& forall|i: int|
                    0 <= i < tokens@.len() ==> cached(
                        final(storage).older(),
                        final(storage).newer(),
                        tokens_with_chain_ids@[i].chain_id,
                        tokens_with_chain_ids@[i].address@,
                    ) == Some(#[trigger] tokens@[i])
            },
            Err(message) => resolution_failure(
                old(storage).older().dom().union(old(storage).newer().dom()),
                tokens_with_chain_ids@,
                answers@,
                0,
                0,
            ) == Some(message@),
        },
        all_cached(
            old(storage).older(),
            old(storage).newer(),
            tokens_with_chain_ids@,
            tokens_with_chain_ids@.len() as int,
        ) ==> r is Ok && final(storage).newer() == old(storage).newer(),
{
    let mut tokens: Vec<TokenInfo> = Vec::new();
    let mut used: usize = 0;
    let mut i: usize = 0;
    let ghost known_at_start = storage.older().dom().union(storage.newer().dom());
    while i < tokens_with_chain_ids.len()
        invariant
            i <= tokens_with_chain_ids.len(),
            storage.wf(),
            storage.older() == old(storage).older(),
            old(storage).newer().submap_of(storage.newer()),
            forall|key: Seq<char>|
                storage.newer().contains_key(key) && !old(storage).newer().contains_key(key)
                    ==> made_from(#[trigger] storage.newer()[key], key, answers@),
            tokens@.len() == i,
            used <= i,
            known_at_start == old(storage).older().dom().union(old(storage).newer().dom()),
            resolution_failure(known_at_start, tokens_with_chain_ids@, answers@, 0, 0)
                == resolution_failure(
                storage.older().dom().union(storage.newer().dom()),
                tokens_with_chain_ids@,
                answers@,
                i as int,
                used as int,
            ),
            forall|k: int|
                0 <= k < i ==> cached(
                    storage.older(),
                    storage.newer(),
                    tokens_with_chain_ids@[k].chain_id,
                    tokens_with_chain_ids@[k].address@,
                ) == Some(#[trigger] tokens@[k]),
            all_cached(old(storage).older(), old(storage).newer(), tokens_with_chain_ids@, i as int)
                ==> storage.newer() == old(storage).newer(),
        decreases tokens_with_chain_ids.len() - i,
    {
        let want = &tokens_with_chain_ids[i];
        let ghost newer_before = storage.newer();
        let ghost known = storage.older().dom().union(storage.newer().dom());
        match lookup_token(storage, want.address.as_str(), want.chain_id) {
            TokenLookup::Cached(t) => {
                proof {
                    assert(known.contains(wanted_key(*want)));
                }
                tokens.push(t);
            },
            TokenLookup::Missing { address, chain_id } => {
                proof {
                    assert(!known.contains(wanted_key(*want)));
                }
                if used >= answers.len() {
                    proof {
                        reveal_strlit("no answer");
                    }
                    return Err(network_failure("no answer"));
                }
                match &answers[used] {
                    NetworkAnswer::Token { symbol, decimals } => {
                        let t = network_token(address.as_str(), chain_id, symbol.as_str(), *decimals);
                        let kept = copy_token(&t);
                        save_token_to_new_tokens(t, storage);
                        proof {
                            let key = token_key(chain_id, address@);
                            assert(key == wanted_key(*want));
                            assert(storage.older().dom().union(storage.newer().dom()) =~= known.insert(
                                key,
                            ));
                            assert(!newer_before.contains_key(key));
                            assert(old(storage).newer().submap_of(storage.newer())) by {
                                assert forall|k: Seq<char>| #[trigger]
                                    old(storage).newer().dom().contains(k) implies storage.newer().dom().contains(
                                    k,
                                ) && old(storage).newer()[k] == storage.newer()[k] by {
                                    assert(newer_before.dom().contains(k));
                                    assert(old(storage).newer()[k] == newer_before[k]);
                                }
                            }
                            assert(made_from(storage.newer()[key], key, answers@)) by {
                                assert(answers@[used as int] is Token);
                            }
                            assert forall|k: int| 0 <= k < i implies cached(
                                storage.older(),
                                storage.newer(),
                                tokens_with_chain_ids@[k].chain_id,
                                tokens_with_chain_ids@[k].address@,
                            ) == Some(#[trigger] tokens@[k]) by {
                                let other = token_key(
                                    tokens_with_chain_ids@[k].chain_id,
                                    normalized_address(tokens_with_chain_ids@[k].address@),
                                );
                                assert(cached(
                                    storage.older(),
                                    newer_before,
                                    tokens_with_chain_ids@[k].chain_id,
                                    tokens_with_chain_ids@[k].address@,
                                ) == Some(tokens@[k]));
                                if other == key {
                                    assert(!newer_before.contains_key(key));
                                    assert(storage.older().contains_key(key));
                                }
                            }
                        }
                        tokens.push(kept);
                        used = used + 1;
                    },
                    NetworkAnswer::Failed(e) => {
                        return Err(network_failure(e.as_str()));
                    },
                }
            },
        }
        i = i + 1;
    }
    Ok(tokens)
}

/// Whether the cache has the first `n` of the wanted tokens.
pub open spec fn all_cached(
    older: Map<Seq<char>, TokenInfo>,
    newer: Map<Seq<char>, TokenInfo>,
    wanted: Seq<TokenRequest>,
    n: int,
) -> bool {
    forall|i: int|
        0 <= i < n && i < wanted.len() ==> (#[trigger] cached(
            older,
            newer,
            wanted[i].chain_id,
            wanted[i].address@,
        )) is Some
}

/// Resolving tokens that the cache all has never fails for want of an
/// answer: it succeeds whatever answers are handed in, none among them.
pub proof fn law_cached_tokens_need_no_answers(
    older: Map<Seq<char>, TokenInfo>,
    newer: Map<Seq<char>, TokenInfo>,
    wanted: Seq<TokenRequest>,
    answers: Seq<NetworkAnswer>,
    at: int,
    used: int,
)
    requires
        0 <= at,
        all_cached(older, newer, wanted, wanted.len() as int),
    ensures
        resolution_failure(older.dom().union(newer.dom()), wanted, answers, at, used) is None,
    decreases wanted.len() - at,
{
    if at < wanted.len() {
        assert(cached(older, newer, wanted[at].chain_id, wanted[at].address@) is Some);
        assert(older.dom().union(newer.dom()).contains(wanted_key(wanted[at])));
        law_cached_tokens_need_no_answers(older, newer, wanted, answers, at + 1, used);
    }
}

/// Once a token is in the cache, looking it up asks no chain: the lookup is
/// the cached entry. This holds for a token that was just saved after being
/// read from its chain, so asking a second time asks no chain again.
pub proof fn law_cached_token_needs_no_network(
    older: Map<Seq<char>, TokenInfo>,
    newer: Map<Seq<char>, TokenInfo>,
    chain_id: u64,
    address: Seq<char>,
    lookup: TokenLookup,
    saved: TokenInfo,
)
    ensures
        cached(older, newer, chain_id, address) is Some && lookup_matches(
            lookup,
            older,
            newer,
            chain_id,
            address,
        ) ==> lookup is Cached,
        saved.chain_id == chain_id && saved.address@ == normalized_address(address) ==> cached(
            older,
            newer.insert(token_key(saved.chain_id, saved.address@), saved),
            chain_id,
            address,
        ) is Some,
{
}

/// The price that a decimal text stands for: digits with or without a
/// point among them, at most 18 of them behind the point, whose digits
/// without the point write a number that fits 64 bits. Any other text stands
/// for no price.
pub open spec fn price_of_text(s: Seq<char>) -> Option<Price> {
    let parts = crate::text::split(s, '.');
    let whole = parts[0];
    let frac = if parts.len() == 2 {
        parts[1]
    } else {
        Seq::<char>::empty()
    };
    if parts.len() <= 2 && whole.len() + frac.len() > 0 && frac.len() <= 18
        && crate::amount::is_decimal(whole + frac) && crate::amount::decimal_value(whole + frac)
        <= u64::MAX {
        Some(Price { units: crate::amount::decimal_value(whole + frac) as u64, scale: frac.len() as u8 })
    } else {
        None
    }
}

/// Reads a price from decimal text.
pub fn parse_price(text: &str) -> (price: Option<Price>)
    ensures
        price == price_of_text(text@),
{
    let parts = crate::text::split_on(text, '.');
    proof {
        crate::text::lemma_split_join(text@, '.');
    }
    if parts.len() > 2 {
        return None;
    }
    let whole = parts[0].as_str();
    let empty = String::new();
    let frac: &str = if parts.len() == 2 {
        parts[1].as_str()
    } else {
        empty.as_str()
    };
    proof {
        if parts@.len() != 2 {
            assert(frac@ =~= Seq::<char>::empty());
        }
    }
    let places = frac.unicode_len();
    if places > 18 {
        return None;
    }
    if whole.is_empty() && frac.is_empty() {
        return None;
    }
    let digits = append_str(whole, frac);
    match crate::amount::parse_u128(digits.as_str()) {
        Some(units) => {
            if units <= 18446744073709551615 {
                Some(Price { units: units as u64, scale: places as u8 })
            } else {
                None
            }
        },
        None => None,
    }
}

} // verus!
