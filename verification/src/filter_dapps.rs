//! Provider eligibility: which providers are configured for a token and a
//! pair of chains.

use vstd::prelude::*;
use crate::amount::{parse_u64, u64_of_text};
use crate::text::{equal_ignoring_case, names_view, owned, same_ignoring_case, str_equal};

verus! {

/// One entry of a provider's list of source or destination chains.
pub enum ChainRef {
    /// A chain by its numeric identifier.
    Id(u64),
    /// A chain by its name, or the wildcard `all`.
    Name(String),
    /// Anything else; it names no chain.
    Other,
}

/// One entry of the RPC configuration: the key it stands under and the
/// chain's name, where it has one.
pub struct RpcEntry {
    pub id: String,
    pub name: Option<String>,
}

/// A chain's name with its identifier.
pub struct ChainName {
    pub name: String,
    pub id: u64,
}

/// A chain-specific native-asset address of a provider.
pub struct ChainAlias {
    pub chain_id: u64,
    pub eth_address: Option<String>,
}

/// What is configured for one provider.
pub struct DappConfig {
    pub name: String,
    pub enabled: bool,
    /// Supported token addresses or the wildcard `all`; `None` where the
    /// configuration holds no list.
    pub tokens: Option<Vec<String>>,
    /// The address under which this provider knows the native asset.
    pub eth_address: Option<String>,
    pub from_chain_ids: Option<Vec<ChainRef>>,
    pub to_chain_ids: Option<Vec<ChainRef>>,
    /// `Some(false)`: source and destination chain must be the same.
    pub bridge: Option<bool>,
    /// Native-asset addresses that differ by chain.
    pub chains: Vec<ChainAlias>,
}

/// The wildcard that stands for every token or every chain.
pub open spec fn wildcard() -> Seq<char> {
    seq!['a', 'l', 'l']
}

/// The names with identifiers that the RPC configuration gives: one for each
/// entry that has a name and whose key is a number, in the order of the
/// entries.
pub open spec fn chain_names(entries: Seq<RpcEntry>) -> Seq<(Seq<char>, u64)>
    decreases entries.len(),
{
    if entries.len() == 0 {
        Seq::empty()
    } else {
        let before = chain_names(entries.drop_last());
        let e = entries.last();
        match (e.name, u64_of_text(e.id@)) {
            (Some(name), Some(id)) => before.push((name@, id)),
            _ => before,
        }
    }
}

/// The table as name and identifier pairs.
pub open spec fn table_view(table: Seq<ChainName>) -> Seq<(Seq<char>, u64)> {
    Seq::new(table.len(), |i: int| (table[i].name@, table[i].id))
}

/// The identifier that a name resolves to: that of the last entry with the
/// name, if there is one.
pub open spec fn named_chain(table: Seq<(Seq<char>, u64)>, name: Seq<char>) -> Option<u64>
    decreases table.len(),
{
    if table.len() == 0 {
        None
    } else if table.last().0 == name {
        Some(table.last().1)
    } else {
        named_chain(table.drop_last(), name)
    }
}

/// The chain one list entry stands for, if any.
pub open spec fn resolved_chain(r: ChainRef, table: Seq<(Seq<char>, u64)>) -> Option<u64> {
    match r {
        ChainRef::Id(id) => Some(id),
        ChainRef::Name(name) => named_chain(table, name@),
        ChainRef::Other => None,
    }
}

/// The chains a list stands for, in the order of the list.
pub open spec fn resolved_chains(list: Seq<ChainRef>, table: Seq<(Seq<char>, u64)>) -> Seq<u64>
    decreases list.len(),
{
    if list.len() == 0 {
        Seq::empty()
    } else {
        let before = resolved_chains(list.drop_last(), table);
        match resolved_chain(list.last(), table) {
            Some(id) => before.push(id),
            None => before,
        }
    }
}

/// Whether a list entry is the wildcard.
pub open spec fn is_wildcard_ref(r: ChainRef) -> bool {
    match r {
        ChainRef::Name(n) => n@ == wildcard(),
        _ => false,
    }
}

/// Whether a list holds the wildcard.
pub open spec fn has_wildcard(list: Seq<ChainRef>) -> bool {
    exists|i: int| 0 <= i < list.len() && is_wildcard_ref(#[trigger] list[i])
}

/// Whether a chain list accepts a chain: by the wildcard, by the chain's
/// identifier, or by a name that resolves to it. No list accepts nothing.
pub open spec fn accepts_chain(
    list: Option<Vec<ChainRef>>,
    chain: u64,
    table: Seq<(Seq<char>, u64)>,
) -> bool {
    match list {
        None => false,
        Some(l) => has_wildcard(l@) || resolved_chains(l@, table).contains(chain),
    }
}

/// Whether `token` is the native-asset address `alias`, in any case.
pub open spec fn alias_is(alias: Option<String>, token: Seq<char>) -> bool {
    match alias {
        Some(a) => same_ignoring_case(a@, token),
        None => false,
    }
}

/// Whether one entry of a token list admits `token` for a provider with the
/// native-asset address `alias`.
pub open spec fn entry_admits(entry: Seq<char>, alias: Option<String>, token: Seq<char>) -> bool {
    ||| entry == wildcard()
    ||| same_ignoring_case(entry, token)
    ||| alias_is(alias, token)
}

/// Whether a provider supports a token: some entry of its token list is the
/// wildcard or the token's address, or the list is not empty and the token is
/// the provider's native-asset address. Addresses match in any case.
pub open spec fn supports_token(config: DappConfig, token: Seq<char>) -> bool {
    match config.tokens {
        None => false,
        Some(tokens) => exists|i: int|
            0 <= i < tokens@.len() && entry_admits((#[trigger] tokens@[i])@, config.eth_address, token),
    }
}

/// Whether a provider is eligible for a token and a pair of chains.
pub open spec fn eligible(
    config: DappConfig,
    token: Seq<char>,
    from_chain: u64,
    to_chain: u64,
    table: Seq<(Seq<char>, u64)>,
) -> bool {
    &&& config.enabled
    &&& supports_token(config, token)
    &&& accepts_chain(config.from_chain_ids, from_chain, table)
    &&& accepts_chain(config.to_chain_ids, to_chain, table)
    &&& (config.bridge == Some(false) ==> from_chain == to_chain)
}

/// The names of the eligible providers, in the order of the configuration.
pub open spec fn eligible_names(
    configs: Seq<DappConfig>,
    token: Seq<char>,
    from_chain: u64,
    to_chain: u64,
    table: Seq<(Seq<char>, u64)>,
) -> Seq<Seq<char>>
    decreases configs.len(),
{
    if configs.len() == 0 {
        Seq::empty()
    } else {
        let before = eligible_names(configs.drop_last(), token, from_chain, to_chain, table);
        if eligible(configs.last(), token, from_chain, to_chain, table) {
            before.push(configs.last().name@)
        } else {
            before
        }
    }
}

/// Builds the table of chain names from the RPC configuration.
pub fn create_chain_name_to_id_map(rpc_config: &Vec<RpcEntry>) -> (table: Vec<ChainName>)
    ensures
        table_view(table@) == chain_names(rpc_config@),
{
    let mut table: Vec<ChainName> = Vec::new();
    let mut i: usize = 0;
    proof {
        assert(rpc_config@.subrange(0, 0) =~= Seq::<RpcEntry>::empty());
        assert(table_view(table@) =~= chain_names(rpc_config@.subrange(0, 0)));
    }
    while i < rpc_config.len()
        invariant
            i <= rpc_config.len(),
            table_view(table@) == chain_names(rpc_config@.subrange(0, i as int)),
        decreases rpc_config.len() - i,
    {
        let entry = &rpc_config[i];
        proof {
            let next = rpc_config@.subrange(0, i + 1);
            assert(next.drop_last() =~= rpc_config@.subrange(0, i as int));
            assert(next.last() == *entry);
        }
        let ghost before = table@;
        if let Some(name) = &entry.name {
            if let Some(id) = parse_u64(entry.id.as_str()) {
                table.push(ChainName { name: owned(name.as_str()), id });
                proof {
                    assert(table_view(table@) =~= table_view(before).push((name@, id)));
                }
            }
        }
        i = i + 1;
    }
    proof {
        assert(rpc_config@.subrange(0, rpc_config@.len() as int) =~= rpc_config@);
    }
    table
}

/// Looks a chain up by its name.
pub fn lookup_chain_name(table: &Vec<ChainName>, name: &str) -> (id: Option<u64>)
    ensures
        id == named_chain(table_view(table@), name@),
{
    let mut i: usize = table.len();
    proof {
        assert(table_view(table@).subrange(0, i as int) =~= table_view(table@));
    }
    while i > 0
        invariant
            i <= table.len(),
            named_chain(table_view(table@), name@) == named_chain(
                table_view(table@).subrange(0, i as int),
                name@,
            ),
        decreases i,
    {
        let ghost prefix = table_view(table@).subrange(0, i as int);
        proof {
            assert(prefix.last() == (table@[i - 1].name@, table@[i - 1].id));
            assert(prefix.drop_last() =~= table_view(table@).subrange(0, i - 1));
        }
        if str_equal(table[i - 1].name.as_str(), name) {
            return Some(table[i - 1].id);
        }
        i = i - 1;
    }
    None
}

/// Resolves the entries of a chain list to chain identifiers.
pub fn resolve_chain_ids(chain_identifiers: &Vec<ChainRef>, table: &Vec<ChainName>) -> (ids: Vec<u64>)
    ensures
        ids@ == resolved_chains(chain_identifiers@, table_view(table@)),
{
    let mut ids: Vec<u64> = Vec::new();
    let mut i: usize = 0;
    proof {
        assert(chain_identifiers@.subrange(0, 0) =~= Seq::<ChainRef>::empty());
    }
    while i < chain_identifiers.len()
        invariant
            i <= chain_identifiers.len(),
            ids@ == resolved_chains(chain_identifiers@.subrange(0, i as int), table_view(table@)),
        decreases chain_identifiers.len() - i,
    {
        proof {
            let next = chain_identifiers@.subrange(0, i + 1);
            assert(next.drop_last() =~= chain_identifiers@.subrange(0, i as int));
            assert(next.last() == chain_identifiers@[i as int]);
        }
        match &chain_identifiers[i] {
            ChainRef::Id(id) => {
                ids.push(*id);
            },
            ChainRef::Name(name) => {
                if let Some(id) = lookup_chain_name(table, name.as_str()) {
                    ids.push(id);
                }
            },
            ChainRef::Other => {},
        }
        i = i + 1;
    }
    proof {
        assert(chain_identifiers@.subrange(0, chain_identifiers@.len() as int) =~= chain_identifiers@);
    }
    ids
}

/// Whether a chain list holds the wildcard.
fn list_has_wildcard(list: &Vec<ChainRef>) -> (found: bool)
    ensures
        found == has_wildcard(list@),
{
    proof {
        reveal_strlit("all");
        assert("all"@ =~= wildcard());
    }
    let mut i: usize = 0;
    while i < list.len()
        invariant
            i <= list.len(),
            "all"@ == wildcard(),
            forall|k: int| 0 <= k < i ==> !is_wildcard_ref(#[trigger] list@[k]),
        decreases list.len() - i,
    {
        if let ChainRef::Name(name) = &list[i] {
            if str_equal(name.as_str(), "all") {
                return true;
            }
        }
        i = i + 1;
    }
    false
}

/// Whether a list of numbers holds `wanted`.
fn holds_chain(ids: &Vec<u64>, wanted: u64) -> (found: bool)
    ensures
        found == ids@.contains(wanted),
{
    let mut i: usize = 0;
    while i < ids.len()
        invariant
            i <= ids.len(),
            forall|k: int| 0 <= k < i ==> ids@[k] != wanted,
        decreases ids.len() - i,
    {
        if ids[i] == wanted {
            return true;
        }
        i = i + 1;
    }
    false
}

/// Whether a chain list accepts a chain.
fn list_accepts(list: &Option<Vec<ChainRef>>, chain: u64, table: &Vec<ChainName>) -> (ok: bool)
    ensures
        ok == accepts_chain(*list, chain, table_view(table@)),
{
    match list {
        None => false,
        Some(l) => {
            if list_has_wildcard(l) {
                true
            } else {
                let ids = resolve_chain_ids(l, table);
                holds_chain(&ids, chain)
            }
        },
    }
}

/// Whether some entry of a token list admits a token.
fn tokens_admit(tokens: &Vec<String>, alias: &Option<String>, token: &str) -> (found: bool)
    ensures
        found == exists|i: int|
            0 <= i < tokens@.len() && entry_admits((#[trigger] tokens@[i])@, *alias, token@),
{
    proof {
        reveal_strlit("all");
        assert("all"@ =~= wildcard());
    }
    let alias_matches = match alias {
        Some(a) => equal_ignoring_case(a.as_str(), token),
        None => false,
    };
    let mut i: usize = 0;
    while i < tokens.len()
        invariant
            i <= tokens.len(),
            "all"@ == wildcard(),
            alias_matches == alias_is(*alias, token@),
            forall|k: int| 0 <= k < i ==> !entry_admits((#[trigger] tokens@[k])@, *alias, token@),
        decreases tokens.len() - i,
    {
        if alias_matches || str_equal(tokens[i].as_str(), "all") || equal_ignoring_case(
            tokens[i].as_str(),
            token,
        ) {
            proof {
                assert(entry_admits(tokens@[i as int]@, *alias, token@));
            }
            return true;
        }
        i = i + 1;
    }
    false
}

/// Whether a provider supports a token.
fn config_supports_token(config: &DappConfig, token: &str) -> (ok: bool)
    ensures
        ok == supports_token(*config, token@),
{
    match &config.tokens {
        None => false,
        Some(tokens) => tokens_admit(tokens, &config.eth_address, token),
    }
}

/// Whether one provider is eligible.
pub fn is_eligible(
    config: &DappConfig,
    token_address: &str,
    from_chain_id: u64,
    to_chain_id: u64,
    table: &Vec<ChainName>,
) -> (ok: bool)
    ensures
        ok == eligible(*config, token_address@, from_chain_id, to_chain_id, table_view(table@)),
{
    if !config.enabled {
        return false;
    }
    if !config_supports_token(config, token_address) {
        return false;
    }
    if !list_accepts(&config.from_chain_ids, from_chain_id, table) {
        return false;
    }
    if !list_accepts(&config.to_chain_ids, to_chain_id, table) {
        return false;
    }
    match config.bridge {
        Some(false) => from_chain_id == to_chain_id,
        _ => true,
    }
}

/// The providers that are configured for a token and a pair of chains.
///
/// A provider is listed when it is enabled, supports the token, accepts both
/// chains, and, where it is no bridge, the two chains are the same. The
/// names come out in the order of the configuration. Nothing outside the
/// configuration is consulted.
pub fn filter_dapps(
    token_address: &str,
    from_chain_id: u64,
    to_chain_id: u64,
    dapp_config: &Vec<DappConfig>,
    rpc_config: &Vec<RpcEntry>,
) -> (names: Vec<String>)
    ensures
        names_view(names@) == eligible_names(
            dapp_config@,
            token_address@,
            from_chain_id,
            to_chain_id,
            chain_names(rpc_config@),
        ),
{
    let table = create_chain_name_to_id_map(rpc_config);
    let mut names: Vec<String> = Vec::new();
    let mut i: usize = 0;
    proof {
        assert(dapp_config@.subrange(0, 0) =~= Seq::<DappConfig>::empty());
        assert(names_view(names@) =~= Seq::<Seq<char>>::empty());
    }
    while i < dapp_config.len()
        invariant
            i <= dapp_config.len(),
            table_view(table@) == chain_names(rpc_config@),
            names_view(names@) == eligible_names(
                dapp_config@.subrange(0, i as int),
                token_address@,
                from_chain_id,
                to_chain_id,
                chain_names(rpc_config@),
            ),
        decreases dapp_config.len() - i,
    {
        proof {
            let next = dapp_config@.subrange(0, i + 1);
            assert(next.drop_last() =~= dapp_config@.subrange(0, i as int));
            assert(next.last() == dapp_config@[i as int]);
        }
        let ghost before = names@;
        if is_eligible(&dapp_config[i], token_address, from_chain_id, to_chain_id, &table) {
            names.push(owned(dapp_config[i].name.as_str()));
            proof {
                assert(names_view(names@) =~= names_view(before).push(dapp_config@[i as int].name@));
            }
        }
        i = i + 1;
    }
    proof {
        assert(dapp_config@.subrange(0, dapp_config@.len() as int) =~= dapp_config@);
    }
    names
}

} // verus!
