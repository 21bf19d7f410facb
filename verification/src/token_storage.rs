//! The token cache: a layer filled from the static token list and a layer
//! filled with what was resolved on a chain.

use vstd::prelude::*;
use crate::amount::{decimal_text, format_u128};
use crate::fetch_token_details::TokenInfo;
use crate::keyed_store::KeyedStore;
use crate::text::append_str;

verus! {

/// The key of a token: its chain's identifier in decimal, a colon, and its
/// address.
pub open spec fn token_key(chain_id: u64, address: Seq<char>) -> Seq<char> {
    decimal_text(chain_id as nat) + seq![':'] + address
}

/// Builds the key of a token.
pub fn make_token_key(chain_id: u64, address: &str) -> (key: String)
    ensures
        key@ == token_key(chain_id, address@),
{
    proof {
        reveal_strlit(":");
        assert(":"@ =~= seq![':']);
    }
    let chain = format_u128(chain_id as u128);
    let head = append_str(chain.as_str(), ":");
    append_str(head.as_str(), address)
}

/// Token metadata in two layers, each by token key.
pub struct HybridTokenStorage {
    old_storage: KeyedStore<TokenInfo>,
    new_storage: KeyedStore<TokenInfo>,
}

impl HybridTokenStorage {
    /// Both layers are in order.
    pub closed spec fn wf(&self) -> bool {
        self.old_storage.wf() && self.new_storage.wf()
    }

    /// The layer filled from the static token list.
    pub closed spec fn older(&self) -> Map<Seq<char>, TokenInfo> {
        self.old_storage@
    }

    /// The layer filled with what was resolved on a chain.
    pub closed spec fn newer(&self) -> Map<Seq<char>, TokenInfo> {
        self.new_storage@
    }

    /// A storage without entries.
    pub fn new() -> (storage: Self)
        ensures
            storage.wf(),
            storage.older() == Map::<Seq<char>, TokenInfo>::empty(),
            storage.newer() == Map::<Seq<char>, TokenInfo>::empty(),
    {
        HybridTokenStorage { old_storage: KeyedStore::new(), new_storage: KeyedStore::new() }
    }

    /// Puts a token of the static list under its key.
    pub fn insert_old(&mut self, key: String, value: TokenInfo)
        requires
            old(self).wf(),
        ensures
            final(self).wf(),
            final(self).older() == old(self).older().insert(key@, value),
            final(self).newer() == old(self).newer(),
    {
        let _ = self.old_storage.insert(key.as_str(), value);
    }

    /// The token of the static list under a key.
    pub fn get_old(&self, key: &str) -> (value: Option<&TokenInfo>)
        requires
            self.wf(),
        ensures
            match value {
                Some(v) => self.older().contains_key(key@) && *v == self.older()[key@],
                None => !self.older().contains_key(key@),
            },
    {
        self.old_storage.get(key)
    }

    /// Puts a token that was resolved on a chain under its key.
    pub fn insert_new(&mut self, chain_id: u64, address: String, token_info: TokenInfo)
        requires
            old(self).wf(),
        ensures
            final(self).wf(),
            final(self).newer() == old(self).newer().insert(token_key(chain_id, address@), token_info),
            final(self).older() == old(self).older(),
    {
        let key = make_token_key(chain_id, address.as_str());
        let _ = self.new_storage.insert(key.as_str(), token_info);
    }

    /// The token that was resolved on a chain, by chain and address.
    pub fn get_new(&self, chain_id: u64, address: &str) -> (value: Option<&TokenInfo>)
        requires
            self.wf(),
        ensures
            match value {
                Some(v) => self.newer().contains_key(token_key(chain_id, address@)) && *v
                    == self.newer()[token_key(chain_id, address@)],
                None => !self.newer().contains_key(token_key(chain_id, address@)),
            },
    {
        let key = make_token_key(chain_id, address);
        self.new_storage.get(key.as_str())
    }

    /// Empties the layer of the static token list.
    pub fn clear_old(&mut self)
        requires
            old(self).wf(),
        ensures
            final(self).wf(),
            final(self).older() == Map::<Seq<char>, TokenInfo>::empty(),
            final(self).newer() == old(self).newer(),
    {
        self.old_storage = KeyedStore::new();
    }

    /// The layer of tokens that were resolved on a chain.
    pub fn optimized_lookup(&self) -> (layer: &KeyedStore<TokenInfo>)
        requires
            self.wf(),
        ensures
            layer.wf(),
            layer@ == self.newer(),
    {
        &self.new_storage
    }
}

} // verus!
