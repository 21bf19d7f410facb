use quote_aggregator::filter_dapps::{ChainAlias, ChainRef, DappConfig};
use quote_aggregator::load_resources::{AppState, ChainInfo};
use quote_aggregator::utils::{
    fetch_dapp_config, fetch_gas_price, get_random_jsonrpc_proxy_provider,
    get_random_proxy_client, get_random_rpc_proxy_provider, get_replaced_addresses, get_rpc_url,
    GasPriceAction, GasPriceEvent, ResourcePool, MAX_GAS_PRICE_ATTEMPTS,
};

const ZERO: &str = "0x0000000000000000000000000000000000000000";
const NATIVE: &str = "0xeeeeeeeeeeeeeeeeeeeeeeeeeeeeeeeeeeeeeeee";
const USDC: &str = "0xA0b86991c6218b36c1d19D4a2e9Eb0cE3606eB48";
const WETH: &str = "0xC02aaA39b223FE8D0A0e5C4F27eAD9083C756Cc2";
const WETH_ZK: &str = "0x5AEa5775959fBC2557Cc8789bC1bf90A239D9a91";

fn provider(name: &str, eth_address: Option<&str>, chains: Vec<ChainAlias>) -> DappConfig {
    DappConfig {
        name: name.to_string(),
        enabled: true,
        tokens: Some(vec!["all".to_string()]),
        eth_address: eth_address.map(|s| s.to_string()),
        from_chain_ids: Some(vec![ChainRef::Name("all".to_string())]),
        to_chain_ids: Some(vec![ChainRef::Name("all".to_string())]),
        bridge: None,
        chains,
    }
}

fn state() -> AppState {
    AppState {
        chains: vec![
            ChainInfo {
                id: Some(1),
                rpc_urls: Some(vec![
                    Some("https://eth.example/rpc".to_string()),
                    Some("https://eth2.example/rpc".to_string()),
                ]),
            },
            ChainInfo { id: None, rpc_urls: Some(vec![Some("https://nobody".to_string())]) },
            ChainInfo { id: Some(10), rpc_urls: Some(vec![]) },
            ChainInfo { id: Some(324), rpc_urls: None },
            ChainInfo { id: Some(56), rpc_urls: Some(vec![None, Some("https://later".to_string())]) },
            ChainInfo { id: Some(1), rpc_urls: Some(vec![Some("https://shadowed".to_string())]) },
        ],
        dapp_config: vec![
            provider(
                "across",
                Some(WETH),
                vec![
                    ChainAlias { chain_id: 324, eth_address: Some(WETH_ZK.to_string()) },
                    ChainAlias { chain_id: 10, eth_address: None },
                ],
            ),
            provider("koi", None, vec![]),
        ],
        rpc_config: vec![],
    }
}

#[test]
fn an_empty_pool_gives_nothing() {
    let pool = ResourcePool::new();
    assert_eq!(get_random_proxy_client(&pool), None);
    assert_eq!(get_random_rpc_proxy_provider(1, &pool), None);
    assert_eq!(get_random_jsonrpc_proxy_provider(1, &pool), None);
    assert!(pool.pick(None, 3).is_none());
    assert_eq!(pool.count(None), 0);
}

#[test]
fn a_pool_gives_only_handles_of_the_chain() {
    let mut pool = ResourcePool::new();
    assert_eq!(pool.insert(1, "10.0.0.1:80".to_string(), 0), None);
    assert_eq!(pool.insert(1, "10.0.0.2:80".to_string(), 1), None);
    assert_eq!(pool.insert(10, "10.0.0.1:80".to_string(), 2), None);
    assert_eq!(pool.count(Some(1)), 2);
    assert_eq!(pool.count(Some(10)), 1);
    assert_eq!(pool.count(Some(5)), 0);
    assert_eq!(pool.count(None), 3);
    for _ in 0..50 {
        let h = get_random_rpc_proxy_provider(1, &pool).unwrap();
        assert!(h == 0 || h == 1);
        assert_eq!(get_random_rpc_proxy_provider(10, &pool), Some(2));
        assert_eq!(get_random_rpc_proxy_provider(5, &pool), None);
        let any = get_random_proxy_client(&pool).unwrap();
        assert!(any <= 2);
    }
    assert_eq!(
        get_random_jsonrpc_proxy_provider(10, &pool),
        Some((2, "10.0.0.1:80".to_string()))
    );
}

#[test]
fn every_handle_of_a_chain_is_drawn_sooner_or_later() {
    let mut pool = ResourcePool::new();
    for h in 0..4 {
        pool.insert(1, format!("proxy-{}", h), h);
    }
    let mut seen = [false; 4];
    for _ in 0..400 {
        seen[get_random_rpc_proxy_provider(1, &pool).unwrap()] = true;
    }
    assert_eq!(seen, [true; 4]);
}

#[test]
fn a_draw_selects_by_its_place() {
    let mut pool = ResourcePool::new();
    pool.insert(1, "a".to_string(), 10);
    pool.insert(2, "b".to_string(), 20);
    pool.insert(1, "c".to_string(), 30);
    assert_eq!(pool.pick(Some(1), 0).unwrap().handle, 10);
    assert_eq!(pool.pick(Some(1), 1).unwrap().handle, 30);
    assert_eq!(pool.pick(Some(1), 2).unwrap().handle, 10);
    assert_eq!(pool.pick(Some(2), 7).unwrap().identity, "b");
    assert_eq!(pool.pick(None, 1).unwrap().handle, 20);
    assert!(pool.pick(Some(3), 0).is_none());
}

#[test]
fn the_same_chain_and_identity_replace_the_handle() {
    let mut pool = ResourcePool::new();
    assert_eq!(pool.insert(1, "a".to_string(), 10), None);
    assert_eq!(pool.insert(1, "a".to_string(), 11), Some(10));
    assert_eq!(pool.count(Some(1)), 1);
    assert_eq!(get_random_rpc_proxy_provider(1, &pool), Some(11));
}

#[test]
fn a_gas_price_ends_the_run() {
    let (failed, action) = fetch_gas_price(0, GasPriceEvent::Begin);
    assert_eq!(failed, 0);
    assert!(matches!(action, GasPriceAction::Ask));
    let (failed, action) = fetch_gas_price(3, GasPriceEvent::Price(20_000_000_000));
    assert_eq!(failed, 3);
    match action {
        GasPriceAction::Done(p) => {
            assert_eq!(p.wei, "20000000000");
            assert_eq!(p.gwei, "20.000000000");
        },
        GasPriceAction::Ask => panic!("expected a price"),
    }
    match fetch_gas_price(0, GasPriceEvent::Price(1_234_567_890)).1 {
        GasPriceAction::Done(p) => assert_eq!(p.gwei, "1.234567890"),
        GasPriceAction::Ask => panic!("expected a price"),
    }
    match fetch_gas_price(0, GasPriceEvent::Price(1)).1 {
        GasPriceAction::Done(p) => assert_eq!(p.gwei, "0.000000001"),
        GasPriceAction::Ask => panic!("expected a price"),
    }
}

#[test]
fn ten_failures_end_in_a_price_of_zero() {
    assert_eq!(MAX_GAS_PRICE_ATTEMPTS, 10);
    let mut failed = 0;
    let mut asks = 0;
    let (_, mut action) = fetch_gas_price(failed, GasPriceEvent::Begin);
    loop {
        match action {
            GasPriceAction::Ask => {
                asks += 1;
                let step = fetch_gas_price(failed, GasPriceEvent::Failed);
                failed = step.0;
                action = step.1;
            },
            GasPriceAction::Done(p) => {
                assert_eq!(p.wei, "0");
                assert_eq!(p.gwei, "0");
                break;
            },
        }
    }
    assert_eq!(asks, 10);
    assert_eq!(failed, 10);
}

#[test]
fn no_endpoint_ends_in_a_price_of_zero() {
    match fetch_gas_price(0, GasPriceEvent::NoProvider).1 {
        GasPriceAction::Done(p) => {
            assert_eq!(p.wei, "0");
            assert_eq!(p.gwei, "0");
        },
        GasPriceAction::Ask => panic!("expected the stand-in"),
    }
}

#[test]
fn a_provider_is_found_by_its_name() {
    let s = state();
    assert_eq!(fetch_dapp_config("koi", &s).unwrap().name, "koi");
    assert_eq!(fetch_dapp_config("across", &s).unwrap().eth_address.as_deref(), Some(WETH));
    assert_eq!(
        fetch_dapp_config("bungee", &s).err().unwrap(),
        "DApp config for bungee not found in state.dapp_config"
    );
}

#[test]
fn native_addresses_are_replaced_by_the_provider_alias() {
    let s = state();
    assert_eq!(
        get_replaced_addresses(NATIVE, USDC, 1, 1, "across", &s).unwrap(),
        (WETH.to_string(), USDC.to_string())
    );
    assert_eq!(
        get_replaced_addresses(USDC, ZERO, 1, 324, "across", &s).unwrap(),
        (USDC.to_string(), WETH_ZK.to_string())
    );
    // a chain entry without an address falls back to the provider's own
    assert_eq!(
        get_replaced_addresses(ZERO, NATIVE, 10, 324, "across", &s).unwrap(),
        (WETH.to_string(), WETH_ZK.to_string())
    );
    // a provider without an alias gets the zero address
    assert_eq!(
        get_replaced_addresses(NATIVE, ZERO, 1, 1, "koi", &s).unwrap(),
        (ZERO.to_string(), ZERO.to_string())
    );
    // the two native addresses are matched letter for letter
    let upper = "0xEEEEEEEEEEEEEEEEEEEEEEEEEEEEEEEEEEEEEEEE";
    assert_eq!(
        get_replaced_addresses(upper, USDC, 1, 1, "across", &s).unwrap(),
        (upper.to_string(), USDC.to_string())
    );
}

#[test]
fn an_unconfigured_provider_has_no_replacements() {
    let s = state();
    assert_eq!(
        get_replaced_addresses(NATIVE, USDC, 1, 1, "bungee", &s).err().unwrap(),
        "Dapp config not found: DApp config for bungee not found in state.dapp_config"
    );
}

#[test]
fn the_first_endpoint_of_the_first_matching_chain_is_given() {
    let s = state();
    assert_eq!(get_rpc_url(1, &s), Some("https://eth.example/rpc".to_string()));
    assert_eq!(get_rpc_url(10, &s), None);
    assert_eq!(get_rpc_url(324, &s), None);
    assert_eq!(get_rpc_url(56, &s), None);
    assert_eq!(get_rpc_url(999, &s), None);
}
