//! Shared pieces: the pools of interchangeable network handles, the retry
//! rule of the gas price source, and lookups in the configuration.

use vstd::prelude::*;
use rand::Rng;
use crate::amount::{decimal_text, format_u128};
use crate::fetch_token_details::{native_marker, zero_address};
use crate::filter_dapps::DappConfig;
use crate::fixed_point::{fixed_text, format_fixed};
use crate::keyed_store::{KeyedStore, Slot};
use crate::load_resources::AppState;
use crate::quote::GasPrices;
use crate::text::{append_str, owned, str_equal};
use crate::token_storage::{make_token_key, token_key};

verus! {

/// A number below `n`, drawn at random.
///
/// Trusted: `rand::thread_rng` and `Rng::gen_range` of the crate `rand` on
/// the range from 0 up to `n`, which returns a number of the range and
/// panics on an empty range.
#[verifier::external_body]
fn random_below(n: usize) -> (r: usize)
    requires
        n > 0,
    ensures
        r < n,
{
    rand::thread_rng().gen_range(0..n)
}

/// One handle of a pool: the chain it serves, what tells it from the others
/// of its chain, and the number under which the caller keeps the handle
/// itself.
pub struct PoolEntry {
    pub chain_id: u64,
    pub identity: String,
    pub handle: usize,
}

/// A pool of interchangeable handles. Entries are put in at start and only
/// read afterwards.
pub struct ResourcePool {
    entries: KeyedStore<PoolEntry>,
}

/// Whether a slot holds an entry for the chain; any entry where no chain is
/// asked for.
pub open spec fn slot_serves(slot: Option<Slot<PoolEntry>>, chain: Option<u64>) -> bool {
    match slot {
        Some(s) => match chain {
            Some(c) => s.value.chain_id == c,
            None => true,
        },
        None => false,
    }
}

/// The numbers of the slots that serve a chain, in rising order.
pub open spec fn serving(slots: Seq<Option<Slot<PoolEntry>>>, chain: Option<u64>) -> Seq<int>
    decreases slots.len(),
{
    if slots.len() == 0 {
        Seq::empty()
    } else {
        let before = serving(slots.drop_last(), chain);
        if slot_serves(slots.last(), chain) {
            before.push(slots.len() - 1)
        } else {
            before
        }
    }
}

/// The slots that serve a chain are exactly those listed.
pub proof fn lemma_serving(slots: Seq<Option<Slot<PoolEntry>>>, chain: Option<u64>)
    ensures
        forall|k: int|
            0 <= k < serving(slots, chain).len() ==> 0 <= (#[trigger] serving(slots, chain)[k])
                < slots.len() && slot_serves(slots[serving(slots, chain)[k]], chain),
        forall|i: int|
            0 <= i < slots.len() && slot_serves(#[trigger] slots[i], chain) ==> serving(
                slots,
                chain,
            ).contains(i),
    decreases slots.len(),
{
    if slots.len() > 0 {
        let rest = slots.drop_last();
        lemma_serving(rest, chain);
        let now = serving(slots, chain);
        let before = serving(rest, chain);
        assert forall|k: int| 0 <= k < now.len() implies 0 <= (#[trigger] now[k]) < slots.len()
            && slot_serves(slots[now[k]], chain) by {
            if k < before.len() {
                assert(now[k] == before[k]);
                assert(slots[before[k]] == rest[before[k]]);
            }
        }
        assert forall|i: int| 0 <= i < slots.len() && slot_serves(
            #[trigger] slots[i],
            chain,
        ) implies now.contains(i) by {
            if i < rest.len() {
                assert(rest[i] == slots[i]);
                assert(before.contains(i));
                let k = choose|k: int| 0 <= k < before.len() && before[k] == i;
                assert(now[k] == i);
            } else {
                assert(now[now.len() - 1] == i);
            }
        }
    }
}

impl ResourcePool {
    /// The store underneath is in order.
    pub closed spec fn wf(&self) -> bool {
        self.entries.wf()
    }

    /// The entries by key: the chain's identifier, a colon, the identity.
    pub closed spec fn view(&self) -> Map<Seq<char>, PoolEntry> {
        self.entries@
    }

    /// The entries in the order they were put in.
    pub closed spec fn listing(&self) -> Seq<Option<Slot<PoolEntry>>> {
        self.entries.slots()
    }

    /// A pool without entries.
    pub fn new() -> (pool: Self)
        ensures
            pool.wf(),
            pool@ == Map::<Seq<char>, PoolEntry>::empty(),
    {
        ResourcePool { entries: KeyedStore::new() }
    }

    /// Puts a handle into the pool. An entry of the same chain and identity
    /// is replaced; its handle comes back.
    pub fn insert(&mut self, chain_id: u64, identity: String, handle: usize) -> (was: Option<usize>)
        requires
            old(self).wf(),
        ensures
            final(self).wf(),
            final(self)@ == old(self)@.insert(
                token_key(chain_id, identity@),
                PoolEntry { chain_id, identity, handle },
            ),
            was == (if old(self)@.contains_key(token_key(chain_id, identity@)) {
                Some(old(self)@[token_key(chain_id, identity@)].handle)
            } else {
                None
            }),
    {
        let key = make_token_key(chain_id, identity.as_str());
        match self.entries.insert(key.as_str(), PoolEntry { chain_id, identity, handle }) {
            Some(e) => Some(e.handle),
            None => None,
        }
    }

    /// The numbers of the slots that serve a chain.
    fn serving_slots(&self, chain: Option<u64>) -> (found: Vec<usize>)
        requires
            self.wf(),
        ensures
            found@.len() == serving(self.listing(), chain).len(),
            forall|k: int|
                0 <= k < found@.len() ==> (#[trigger] found@[k]) as int == serving(
                    self.listing(),
                    chain,
                )[k],
    {
        let n = self.entries.slot_count();
        let mut found: Vec<usize> = Vec::new();
        let mut i: usize = 0;
        proof {
            assert(self.listing().subrange(0, 0) =~= Seq::<Option<Slot<PoolEntry>>>::empty());
        }
        while i < n
            invariant
                i <= n,
                n == self.listing().len(),
                found@.len() == serving(self.listing().subrange(0, i as int), chain).len(),
                forall|k: int|
                    0 <= k < found@.len() ==> (#[trigger] found@[k]) as int == serving(
                        self.listing().subrange(0, i as int),
                        chain,
                    )[k],
            decreases n - i,
        {
            proof {
                let next = self.listing().subrange(0, i + 1);
                assert(next.drop_last() =~= self.listing().subrange(0, i as int));
                assert(next.last() == self.listing()[i as int]);
            }
            let serves = match self.entries.slot(i) {
                Some(s) => match chain {
                    Some(c) => s.value.chain_id == c,
                    None => true,
                },
                None => false,
            };
            if serves {
                found.push(i);
            }
            i = i + 1;
        }
        proof {
            assert(self.listing().subrange(0, n as int) =~= self.listing());
        }
        found
    }

    /// The entry that a draw selects among those that serve a chain, or
    /// among all entries where no chain is given: with `n` such entries, the
    /// one at place `draw` modulo `n` in the order they were put in. There is
    /// one exactly when the pool holds such an entry.
    pub fn pick(&self, chain: Option<u64>, draw: usize) -> (entry: Option<&PoolEntry>)
        requires
            self.wf(),
        ensures
            match entry {
                Some(e) => {
                    let found = serving(self.listing(), chain);
                    &&& found.len() > 0
                    &&& self.listing()[found[draw as int % found.len() as int]] is Some
                    &&& *e == self.listing()[found[draw as int % found.len() as int]]->0.value
                    &&& exists|key: Seq<char>| #[trigger] self@.contains_key(key) && self@[key] == *e
                    &&& chain matches Some(c) ==> e.chain_id == c
                },
                None => {
                    &&& serving(self.listing(), chain).len() == 0
                    &&& forall|key: Seq<char>| #[trigger]
                        self@.contains_key(key) ==> !(chain is None) && Some(self@[key].chain_id)
                            != chain
                },
            },
    {
        let found = self.serving_slots(chain);
        proof {
            lemma_serving(self.listing(), chain);
            self.entries.lemma_slots();
        }
        if found.len() == 0 {
            proof {
                assert forall|key: Seq<char>| #[trigger] self@.contains_key(key) implies !(chain
                    is None) && Some(self@[key].chain_id) != chain by {
                    let at = choose|at: int|
                        0 <= at < self.listing().len() && (#[trigger] self.listing()[at]) is Some
                            && self.listing()[at]->0.key@ == key;
                    if slot_serves(self.listing()[at], chain) {
                        assert(serving(self.listing(), chain).contains(at));
                    }
                }
            }
            return None;
        }
        let at = found[draw % found.len()];
        proof {
            let all = serving(self.listing(), chain);
            assert(at as int == all[draw as int % all.len() as int]);
            assert(slot_serves(self.listing()[at as int], chain));
        }
        match self.entries.slot(at) {
            Some(s) => {
                proof {
                    assert(self@.contains_key(s.key@) && self@[s.key@] == s.value);
                }
                Some(&s.value)
            },
            None => None,
        }
    }

    /// The number of entries that serve a chain, or of all entries where no
    /// chain is given.
    pub fn count(&self, chain: Option<u64>) -> (n: usize)
        requires
            self.wf(),
        ensures
            n == serving(self.listing(), chain).len(),
    {
        self.serving_slots(chain).len()
    }

    /// An entry drawn at random, each with the same chance, among those that
    /// serve a chain, or among all entries where no chain is given. There is
    /// one exactly when the pool holds such an entry.
    pub fn pick_random(&self, chain: Option<u64>) -> (entry: Option<&PoolEntry>)
        requires
            self.wf(),
        ensures
            match entry {
                Some(e) => {
                    &&& exists|key: Seq<char>| #[trigger] self@.contains_key(key) && self@[key] == *e
                    &&& chain matches Some(c) ==> e.chain_id == c
                },
                None => forall|key: Seq<char>| #[trigger]
                    self@.contains_key(key) ==> !(chain is None) && Some(self@[key].chain_id)
                        != chain,
            },
    {
        let n = self.count(chain);
        let draw = if n == 0 {
            0
        } else {
            random_below(n)
        };
        self.pick(chain, draw)
    }
}

/// The handle of a proxy client drawn at random from the pool, if the pool
/// holds one.
pub fn get_random_proxy_client(clients: &ResourcePool) -> (handle: Option<usize>)
    requires
        clients.wf(),
    ensures
        match handle {
            Some(h) => exists|key: Seq<char>| #[trigger]
                clients@.contains_key(key) && clients@[key].handle == h,
            None => forall|key: Seq<char>| !(#[trigger] clients@.contains_key(key)),
        },
{
    match clients.pick_random(None) {
        Some(e) => Some(e.handle),
        None => None,
    }
}

/// The handle of an RPC endpoint of a chain drawn at random from the pool,
/// if the pool holds one for the chain.
pub fn get_random_rpc_proxy_provider(chain_id: u64, rpc_proxy_providers: &ResourcePool) -> (handle:
    Option<usize>)
    requires
        rpc_proxy_providers.wf(),
    ensures
        match handle {
            Some(h) => exists|key: Seq<char>| #[trigger]
                rpc_proxy_providers@.contains_key(key) && rpc_proxy_providers@[key].handle == h
                    && rpc_proxy_providers@[key].chain_id == chain_id,
            None => forall|key: Seq<char>| #[trigger]
                rpc_proxy_providers@.contains_key(key) ==> rpc_proxy_providers@[key].chain_id
                    != chain_id,
        },
{
    match rpc_proxy_providers.pick_random(Some(chain_id)) {
        Some(e) => Some(e.handle),
        None => None,
    }
}

/// The handle and the endpoint address of a raw JSON-RPC endpoint of a chain
/// drawn at random from the pool, if the pool holds one for the chain.
pub fn get_random_jsonrpc_proxy_provider(chain_id: u64, providers: &ResourcePool) -> (found: Option<
    (usize, String),
>)
    requires
        providers.wf(),
    ensures
        match found {
            Some(f) => exists|key: Seq<char>| #[trigger]
                providers@.contains_key(key) && providers@[key].handle == f.0
                    && providers@[key].identity@ == f.1@ && providers@[key].chain_id == chain_id,
            None => forall|key: Seq<char>| #[trigger]
                providers@.contains_key(key) ==> providers@[key].chain_id != chain_id,
        },
{
    match providers.pick_random(Some(chain_id)) {
        Some(e) => Some((e.handle, owned(e.identity.as_str()))),
        None => None,
    }
}

/// The most attempts made at reading a gas price.
pub const MAX_GAS_PRICE_ATTEMPTS: u32 = 10;

/// What the caller reports to the gas price source.
pub enum GasPriceEvent {
    /// A gas price is wanted.
    Begin,
    /// The pool holds no endpoint for the chain.
    NoProvider,
    /// An endpoint gave the price of one gas unit, in wei.
    Price(u128),
    /// An endpoint was asked and gave nothing.
    Failed,
}

/// What the gas price source asks of the caller.
pub enum GasPriceAction {
    /// Draw an endpoint and ask it for the gas price.
    Ask,
    /// The gas price to go on with.
    Done(GasPrices),
}

/// Whether the prices are those of `wei` wei per gas unit: the number itself
/// and the number in gwei with nine digits behind the point.
pub open spec fn prices_of(prices: GasPrices, wei: u128) -> bool {
    prices.wei@ == decimal_text(wei as nat) && prices.gwei@ == fixed_text(wei as nat, 9)
}

/// Whether the prices are the stand-in for an unknown gas price: zero.
pub open spec fn fallback_prices(prices: GasPrices) -> bool {
    prices.wei@ == "0"@ && prices.gwei@ == "0"@
}

/// The step of the gas price source: a price ends the run; a failure is
/// followed by another attempt until ten have failed; without an endpoint,
/// and after the tenth failure, the run ends with the stand-in. `failed` is
/// the number of attempts that have failed so far.
pub open spec fn gas_price_step(failed: u32, event: GasPriceEvent, next: u32, action: GasPriceAction) -> bool {
    match event {
        GasPriceEvent::Begin => if failed < MAX_GAS_PRICE_ATTEMPTS {
            next == failed && action is Ask
        } else {
            next == failed && is_fallback(action)
        },
        GasPriceEvent::NoProvider => next == failed && is_fallback(action),
        GasPriceEvent::Price(wei) => next == failed && match action {
            GasPriceAction::Done(p) => prices_of(p, wei),
            _ => false,
        },
        GasPriceEvent::Failed => if failed + 1 < MAX_GAS_PRICE_ATTEMPTS {
            next == failed + 1 && action is Ask
        } else {
            next == MAX_GAS_PRICE_ATTEMPTS && is_fallback(action)
        },
    }
}

/// Whether an action ends the run with the stand-in.
pub open spec fn is_fallback(action: GasPriceAction) -> bool {
    match action {
        GasPriceAction::Done(p) => fallback_prices(p),
        _ => false,
    }
}

/// The stand-in for an unknown gas price.
fn zero_prices() -> (action: GasPriceAction)
    ensures
        is_fallback(action),
{
    GasPriceAction::Done(GasPrices { wei: owned("0"), gwei: owned("0") })
}

/// Takes one step of reading a gas price. Never fails: where no price can
/// be had, the run ends with a price of zero.
pub fn fetch_gas_price(failed: u32, event: GasPriceEvent) -> (step: (u32, GasPriceAction))
    ensures
        gas_price_step(failed, event, step.0, step.1),
{
    match event {
        GasPriceEvent::Begin => {
            if failed < MAX_GAS_PRICE_ATTEMPTS {
                (failed, GasPriceAction::Ask)
            } else {
                (failed, zero_prices())
            }
        },
        GasPriceEvent::NoProvider => (failed, zero_prices()),
        GasPriceEvent::Price(wei) => (
            failed,
            GasPriceAction::Done(GasPrices { wei: format_u128(wei), gwei: format_fixed(wei, 9) }),
        ),
        GasPriceEvent::Failed => {
            if failed < MAX_GAS_PRICE_ATTEMPTS - 1 {
                (failed + 1, GasPriceAction::Ask)
            } else {
                (MAX_GAS_PRICE_ATTEMPTS, zero_prices())
            }
        },
    }
}

/// An endpoint is asked only while fewer than ten attempts have failed.
pub proof fn law_gas_price_attempts_bounded(
    failed: u32,
    event: GasPriceEvent,
    next: u32,
    action: GasPriceAction,
)
    requires
        gas_price_step(failed, event, next, action),
        action is Ask,
    ensures
        next < MAX_GAS_PRICE_ATTEMPTS,
        next >= failed,
{
}

/// The place of the first configuration of a name, if there is one.
pub open spec fn config_position(configs: Seq<DappConfig>, name: Seq<char>) -> Option<int> {
    if exists|i: int| 0 <= i < configs.len() && (#[trigger] configs[i]).name@ == name {
        Some(first_named(configs, name, 0))
    } else {
        None
    }
}

/// The first place from `from` on whose configuration has the name; the
/// length where there is none.
pub open spec fn first_named(configs: Seq<DappConfig>, name: Seq<char>, from: int) -> int
    decreases configs.len() - from,
{
    if from < 0 || from >= configs.len() {
        configs.len() as int
    } else if configs[from].name@ == name {
        from
    } else {
        first_named(configs, name, from + 1)
    }
}

/// The message for a provider without configuration.
pub open spec fn missing_config_message(name: Seq<char>) -> Seq<char> {
    "DApp config for "@ + name + " not found in state.dapp_config"@
}

/// The configuration of a provider.
pub fn fetch_dapp_config<'a>(dapp_name: &str, state: &'a AppState) -> (r: Result<&'a DappConfig, String>)
    ensures
        match r {
            Ok(config) => config_position(state.dapp_config@, dapp_name@) is Some && *config
                == state.dapp_config@[config_position(state.dapp_config@, dapp_name@)->0],
            Err(message) => config_position(state.dapp_config@, dapp_name@) is None && message@
                == missing_config_message(dapp_name@),
        },
{
    let mut i: usize = 0;
    while i < state.dapp_config.len()
        invariant
            i <= state.dapp_config.len(),
            forall|k: int| 0 <= k < i ==> (#[trigger] state.dapp_config@[k]).name@ != dapp_name@,
            first_named(state.dapp_config@, dapp_name@, 0) == first_named(
                state.dapp_config@,
                dapp_name@,
                i as int,
            ),
        decreases state.dapp_config.len() - i,
    {
        if str_equal(state.dapp_config[i].name.as_str(), dapp_name) {
            return Ok(&state.dapp_config[i]);
        }
        i = i + 1;
    }
    let head = append_str("DApp config for ", dapp_name);
    Err(append_str(head.as_str(), " not found in state.dapp_config"))
}

/// Whether an address is one of the two that stand for the native asset,
/// letter for letter.
pub open spec fn is_native(address: Seq<char>) -> bool {
    address == zero_address() || address == native_marker()
}

/// The native-asset address of a provider: the one it is configured with,
/// else the zero address.
pub open spec fn base_alias(config: DappConfig) -> Seq<char> {
    match config.eth_address {
        Some(a) => a@,
        None => zero_address(),
    }
}

/// The native-asset address of a provider on a chain: that of the first
/// entry for the chain that names one, else `fallback`.
pub open spec fn chain_alias(aliases: Seq<crate::filter_dapps::ChainAlias>, chain_id: u64, fallback: Seq<char>) -> Seq<
    char,
>
    decreases aliases.len(),
{
    if aliases.len() == 0 {
        fallback
    } else if aliases[0].chain_id == chain_id {
        match aliases[0].eth_address {
            Some(a) => a@,
            None => fallback,
        }
    } else {
        chain_alias(aliases.drop_first(), chain_id, fallback)
    }
}

/// The address a provider is to be given for a token on a chain: its own
/// native-asset address of that chain for either address of the native
/// asset, else the token's address unchanged.
pub open spec fn replaced_address(config: DappConfig, token: Seq<char>, chain_id: u64) -> Seq<char> {
    if is_native(token) {
        chain_alias(config.chains@, chain_id, base_alias(config))
    } else {
        token
    }
}

/// The native-asset address of a provider on a chain.
fn alias_on_chain(config: &DappConfig, chain_id: u64) -> (alias: String)
    ensures
        alias@ == chain_alias(config.chains@, chain_id, base_alias(*config)),
{
    let mut i: usize = 0;
    proof {
        assert(config.chains@.subrange(0, config.chains@.len() as int) =~= config.chains@);
    }
    while i < config.chains.len()
        invariant
            i <= config.chains.len(),
            chain_alias(config.chains@, chain_id, base_alias(*config)) == chain_alias(
                config.chains@.subrange(i as int, config.chains@.len() as int),
                chain_id,
                base_alias(*config),
            ),
        decreases config.chains.len() - i,
    {
        let ghost rest = config.chains@.subrange(i as int, config.chains@.len() as int);
        proof {
            assert(rest[0] == config.chains@[i as int]);
            assert(rest.drop_first() =~= config.chains@.subrange(
                i + 1,
                config.chains@.len() as int,
            ));
        }
        if config.chains[i].chain_id == chain_id {
            return match &config.chains[i].eth_address {
                Some(a) => owned(a.as_str()),
                None => alias_of(config),
            };
        }
        i = i + 1;
    }
    alias_of(config)
}

/// The native-asset address of a provider.
fn alias_of(config: &DappConfig) -> (alias: String)
    ensures
        alias@ == base_alias(*config),
{
    match &config.eth_address {
        Some(a) => owned(a.as_str()),
        None => owned("0x0000000000000000000000000000000000000000"),
    }
}

/// Whether an address stands for the native asset.
fn address_is_native(address: &str) -> (yes: bool)
    ensures
        yes == is_native(address@),
{
    str_equal(address, "0x0000000000000000000000000000000000000000") || str_equal(
        address,
        "0xeeeeeeeeeeeeeeeeeeeeeeeeeeeeeeeeeeeeeeee",
    )
}

/// The addresses a provider is to be given for the two tokens of a request:
/// its own native-asset addresses in place of the two addresses that stand
/// for the native asset. Fails for a provider without configuration.
pub fn get_replaced_addresses(
    from_token_address: &str,
    to_token_address: &str,
    from_chain_id: u64,
    to_chain_id: u64,
    dapp_name: &str,
    state: &AppState,
) -> (r: Result<(String, String), String>)
    ensures
        match r {
            Ok(pair) => {
                &&& config_position(state.dapp_config@, dapp_name@) is Some
                &&& pair.0@ == replaced_address(
                    state.dapp_config@[config_position(state.dapp_config@, dapp_name@)->0],
                    from_token_address@,
                    from_chain_id,
                )
                &&& pair.1@ == replaced_address(
                    state.dapp_config@[config_position(state.dapp_config@, dapp_name@)->0],
                    to_token_address@,
                    to_chain_id,
                )
            },
            Err(message) => config_position(state.dapp_config@, dapp_name@) is None && message@
                == "Dapp config not found: "@ + missing_config_message(dapp_name@),
        },
{
    let config = match fetch_dapp_config(dapp_name, state) {
        Ok(c) => c,
        Err(e) => {
            return Err(append_str("Dapp config not found: ", e.as_str()));
        },
    };
    let from_token = if address_is_native(from_token_address) {
        alias_on_chain(config, from_chain_id)
    } else {
        owned(from_token_address)
    };
    let to_token = if address_is_native(to_token_address) {
        alias_on_chain(config, to_chain_id)
    } else {
        owned(to_token_address)
    };
    Ok((from_token, to_token))
}

/// The first RPC endpoint of a chain: the first entry of the endpoint list
/// of the first chain with the identifier, if that entry is text.
pub open spec fn rpc_url_of(chains: Seq<crate::load_resources::ChainInfo>, chain_id: u64) -> Option<Seq<char>>
    decreases chains.len(),
{
    if chains.len() == 0 {
        None
    } else if chains[0].id == Some(chain_id) {
        match chains[0].rpc_urls {
            Some(urls) => if urls@.len() > 0 {
                match urls@[0] {
                    Some(u) => Some(u@),
                    None => None,
                }
            } else {
                None
            },
            None => None,
        }
    } else {
        rpc_url_of(chains.drop_first(), chain_id)
    }
}

/// The first RPC endpoint of a chain.
pub fn get_rpc_url(chain_id: u64, state: &AppState) -> (url: Option<String>)
    ensures
        match url {
            Some(u) => rpc_url_of(state.chains@, chain_id) == Some(u@),
            None => rpc_url_of(state.chains@, chain_id) is None,
        },
{
    let mut i: usize = 0;
    proof {
        assert(state.chains@.subrange(0, state.chains@.len() as int) =~= state.chains@);
    }
    while i < state.chains.len()
        invariant
            i <= state.chains.len(),
            rpc_url_of(state.chains@, chain_id) == rpc_url_of(
                state.chains@.subrange(i as int, state.chains@.len() as int),
                chain_id,
            ),
        decreases state.chains.len() - i,
    {
        let ghost rest = state.chains@.subrange(i as int, state.chains@.len() as int);
        proof {
            assert(rest[0] == state.chains@[i as int]);
            assert(rest.drop_first() =~= state.chains@.subrange(i + 1, state.chains@.len() as int));
        }
        let chain = &state.chains[i];
        let hit = match chain.id {
            Some(id) => id == chain_id,
            None => false,
        };
        if hit {
            return match &chain.rpc_urls {
                Some(urls) => {
                    if urls.len() > 0 {
                        match &urls[0] {
                            Some(u) => Some(owned(u.as_str())),
                            None => None,
                        }
                    } else {
                        None
                    }
                },
                None => None,
            };
        }
        i = i + 1;
    }
    None
}

} // verus!
