//! The configuration that the engine works from.

use vstd::prelude::*;
use crate::fetch_token_details::TokenInfo;
use crate::filter_dapps::{DappConfig, RpcEntry};
use crate::text::{lower, to_lower};
use crate::token_storage::{make_token_key, token_key, HybridTokenStorage};

verus! {

/// One chain of the chain list.
pub struct ChainInfo {
    /// The chain's identifier, where the list gives a number.
    pub id: Option<u64>,
    /// The chain's RPC endpoints, in the order of the list; `None` where the
    /// list holds none for the chain.
    pub rpc_urls: Option<Vec<Option<String>>>,
}

/// The configuration loaded at start: the chain list, the provider table and
/// the RPC configuration.
pub struct AppState {
    pub chains: Vec<ChainInfo>,
    pub dapp_config: Vec<DappConfig>,
    pub rpc_config: Vec<RpcEntry>,
}

/// The first layer of the token cache for a token list: every token under
/// its chain and its address in lower case. A later token replaces an earlier
/// one of the same chain and address.
pub open spec fn indexed(tokens: Seq<TokenInfo>) -> Map<Seq<char>, TokenInfo>
    decreases tokens.len(),
{
    if tokens.len() == 0 {
        Map::empty()
    } else {
        indexed(tokens.drop_last()).insert(
            token_key(tokens.last().chain_id, lower(tokens.last().address@)),
            tokens.last(),
        )
    }
}

/// Puts every token of a list into the first layer of the cache.
fn fill_old(storage: &mut HybridTokenStorage, tokens: Vec<TokenInfo>)
    requires
        old(storage).wf(),
        old(storage).older() == Map::<Seq<char>, TokenInfo>::empty(),
    ensures
        final(storage).wf(),
        final(storage).older() == indexed(tokens@),
        final(storage).newer() == old(storage).newer(),
{
    proof {
        assert(tokens@.subrange(0, 0) =~= Seq::<TokenInfo>::empty());
    }
    for token in it: tokens
        invariant
            it.seq() == tokens@,
            storage.wf(),
            storage.older() == indexed(tokens@.subrange(0, it.index() as int)),
            storage.newer() == old(storage).newer(),
    {
        proof {
            let next = tokens@.subrange(0, it.index() + 1);
            assert(next.drop_last() =~= tokens@.subrange(0, it.index() as int));
            assert(next.last() == token);
        }
        let address = to_lower(token.address.as_str());
        let key = make_token_key(token.chain_id, address.as_str());
        storage.insert_old(key, token);
    }
    proof {
        assert(tokens@.subrange(0, tokens@.len() as int) =~= tokens@);
    }
}

/// Builds the token cache from the static token list.
pub fn index_tokens(tokens: Vec<TokenInfo>) -> (storage: HybridTokenStorage)
    ensures
        storage.wf(),
        storage.older() == indexed(tokens@),
        storage.newer() == Map::<Seq<char>, TokenInfo>::empty(),
{
    let mut storage = HybridTokenStorage::new();
    fill_old(&mut storage, tokens);
    storage
}

/// Replaces what the cache holds of the static token list by a list that
/// was read anew. What was resolved on a chain stays.
pub fn reload_tokens(storage: &mut HybridTokenStorage, tokens: Vec<TokenInfo>)
    requires
        old(storage).wf(),
    ensures
        final(storage).wf(),
        final(storage).older() == indexed(tokens@),
        final(storage).newer() == old(storage).newer(),
{
    storage.clear_old();
    fill_old(storage, tokens);
}

} // verus!
