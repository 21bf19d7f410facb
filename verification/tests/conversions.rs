use quote_aggregator::approval::{
    amount_covers, balance_source, check_user_allowance, check_user_balance,
    generate_approval_transaction, plan_approval, AllowanceQuery, ApprovalPlan, BalanceSource,
};
use quote_aggregator::create_clients::{
    create_rpc_proxy_providers, plan_rpc_endpoints, read_proxy_list, split_lines, ProxyLine,
};
use quote_aggregator::dapps::{
    hex_to_decimal, native_value, parse_hex_amount, quote_across_deposit, AcrossError,
};
use quote_aggregator::fetch_token_details::{lookup_token, TokenInfo, TokenLookup};
use quote_aggregator::json::{JsonNumber, JsonValue, Member};
use quote_aggregator::load_resources::{index_tokens, ChainInfo};
use quote_aggregator::quote::{CanonicalQuote, QuoteToken, TransactionDescriptor};
use quote_aggregator::serializer::{
    create_ordered_response, serialize_ordered_response, OrderedValue,
};
use quote_aggregator::token_conversion::{format_units, parse_units, take_integer_part, settle};
use quote_aggregator::utils::{get_random_jsonrpc_proxy_provider, get_random_rpc_proxy_provider};

const ZERO: &str = "0x0000000000000000000000000000000000000000";
const NATIVE: &str = "0xeeeeeeeeeeeeeeeeeeeeeeeeeeeeeeeeeeeeeeee";
const USDC: &str = "0xA0b86991c6218b36c1d19D4a2e9Eb0cE3606eB48";
const USER: &str = "0x1111111111111111111111111111111111111111";
const SPENDER: &str = "0x2222222222222222222222222222222222222222";
const MAX: &str = "115792089237316195423570985008687907853269984665640564039457584007913129639935";

// The number a decimal text stands for, without zeros at the end of its
// fraction.
fn plain(text: String) -> String {
    if text.contains('.') {
        text.trim_end_matches('0').trim_end_matches('.').to_string()
    } else {
        text
    }
}

#[test]
fn base_units_are_written_in_decimal_notation() {
    assert_eq!(plain(format_units(1_500_000, 6).unwrap()), "1.5");
    assert_eq!(plain(format_units(1_000_000, 6).unwrap()), "1");
    assert_eq!(plain(format_units(1, 6).unwrap()), "0.000001");
    assert_eq!(plain(format_units(0, 18).unwrap()), "0");
    assert_eq!(plain(format_units(123, 0).unwrap()), "123");
    assert_eq!(plain(format_units(1_000_000_000_000_000_000, 18).unwrap()), "1");
    assert_eq!(plain(format_units(1, 28).unwrap()), "0.0000000000000000000000000001");
    assert_eq!(plain(format_units(123_456_789, 4).unwrap()), "12345.6789");
}

#[test]
fn amounts_beyond_the_decimal_range_are_refused() {
    assert!(format_units(u128::MAX, 0).is_err());
    assert_eq!(format_units(1, 29), Err("Unsupported number of decimals".to_string()));
    assert_eq!(parse_units("1", 29), Err("Unsupported number of decimals".to_string()));
    assert_eq!(parse_units("1", 255), Err("Unsupported number of decimals".to_string()));
}

#[test]
fn decimal_notation_is_read_into_base_units() {
    assert_eq!(parse_units("1.5", 6), Ok("1500000".to_string()));
    assert_eq!(parse_units("1", 18), Ok("1000000000000000000".to_string()));
    assert_eq!(parse_units("0.0000001", 6), Ok("0".to_string()));
    assert_eq!(parse_units("2.5", 0), Ok("2".to_string()));
    assert_eq!(parse_units("12", 0), Ok("12".to_string()));
    assert!(parse_units("abc", 6).is_err());
    assert!(parse_units("", 6).is_err());
    assert_eq!(
        parse_units("79228162514264337593543950335", 1),
        Err("Multiplication overflowed".to_string())
    );
}

#[test]
fn units_round_trip_through_both_conversions() {
    for (amount, decimals) in [(1_234_567u128, 6u8), (5, 0), (10u128.pow(18) * 3 / 2, 18)] {
        let text = format_units(amount, decimals).unwrap();
        assert_eq!(parse_units(&text, decimals), Ok(amount.to_string()));
    }
}

#[test]
fn the_integer_part_ends_at_the_point() {
    assert_eq!(take_integer_part("12.75"), "12");
    assert_eq!(take_integer_part("12"), "12");
    assert_eq!(take_integer_part(".5"), "");
    assert_eq!(take_integer_part(""), "");
    assert_eq!(settle(Ok(Some("x".to_string())), "over"), Ok("x".to_string()));
    assert_eq!(settle(Ok(None), "over"), Err("over".to_string()));
    assert_eq!(settle(Err("bad".to_string()), "over"), Err("bad".to_string()));
}

#[test]
fn hexadecimal_amounts_are_read() {
    assert_eq!(parse_hex_amount("0x0"), Some(0));
    assert_eq!(parse_hex_amount("0xff"), Some(255));
    assert_eq!(parse_hex_amount("FF"), Some(255));
    assert_eq!(parse_hex_amount("0xDe0B6b3a7640000"), Some(1_000_000_000_000_000_000));
    assert_eq!(parse_hex_amount("0xffffffffffffffffffffffffffffffff"), Some(u128::MAX));
    assert_eq!(parse_hex_amount("0x100000000000000000000000000000000"), None);
    assert_eq!(parse_hex_amount("0x"), None);
    assert_eq!(parse_hex_amount(""), None);
    assert_eq!(parse_hex_amount("0xg"), None);
    assert_eq!(parse_hex_amount("0x0x1"), None);
    assert_eq!(hex_to_decimal("0x2540be400"), Some("10000000000".to_string()));
    assert_eq!(hex_to_decimal("zz"), None);
}

#[test]
fn only_the_native_asset_carries_value() {
    assert_eq!(native_value(ZERO, "5"), "5");
    assert_eq!(native_value(NATIVE, "5"), "5");
    assert_eq!(native_value(USDC, "5"), "0");
    assert_eq!(native_value("0xEEEEEEEEEEEEEEEEEEEEEEEEEEEEEEEEEEEEEEEE", "5"), "0");
}

#[test]
fn an_across_deposit_pays_out_the_amount_less_the_fee() {
    assert_eq!(quote_across_deposit("1000", "30", "10", "5000"), Ok("970".to_string()));
    assert_eq!(quote_across_deposit("1000", "1000", "10", "5000"), Ok("0".to_string()));
    assert_eq!(quote_across_deposit("1000", "1001", "10", "5000"), Err(AcrossError::FeeExceedsAmount));
    assert_eq!(quote_across_deposit("10", "1", "10", "5000"), Err(AcrossError::OutOfLimits));
    assert_eq!(quote_across_deposit("5000", "1", "10", "5000"), Err(AcrossError::OutOfLimits));
    assert_eq!(quote_across_deposit("11", "1", "10", "5000"), Ok("10".to_string()));
    assert_eq!(quote_across_deposit("x", "1", "10", "5000"), Err(AcrossError::InvalidAmount));
    assert_eq!(quote_across_deposit("1", "x", "10", "5000"), Err(AcrossError::InvalidRelayFee));
    assert_eq!(quote_across_deposit("1", "1", "x", "5000"), Err(AcrossError::InvalidMinDeposit));
    assert_eq!(quote_across_deposit("1", "1", "10", "x"), Err(AcrossError::InvalidMaxDeposit));
}

fn token(address: &str) -> QuoteToken {
    QuoteToken {
        address: address.to_string(),
        chain_id: 10,
        symbol: "T".to_string(),
        decimals: 18,
        name: "T".to_string(),
        coin_key: None,
        logo_uri: String::new(),
        price_usd: "none".to_string(),
    }
}

fn quote(from_token: &str, from_amount: &str) -> CanonicalQuote {
    CanonicalQuote {
        tool: Some("koi".to_string()),
        from_chain_id: Some(10),
        to_chain_id: Some(10),
        from_amount: Some(from_amount.to_string()),
        from_amount_usd: "none".to_string(),
        from_address: Some(USER.to_string()),
        to_address: Some(USER.to_string()),
        to_amount: Some("1".to_string()),
        to_amount_min: "1".to_string(),
        to_amount_usd: "none".to_string(),
        from_token: Some(token(from_token)),
        to_token: Some(token(USDC)),
        swap_cost_eth: "none".to_string(),
        swap_cost_usd: "none".to_string(),
        gas_gwei: "none".to_string(),
        approval_address: SPENDER.to_string(),
        transaction: Some(TransactionDescriptor {
            from: USER.to_string(),
            to: SPENDER.to_string(),
            data: "0x".to_string(),
            value: "0".to_string(),
            chain_id: 10,
            gas_price: "7".to_string(),
            gas: "0".to_string(),
        }),
        options: None,
        additional_fee: None,
    }
}

fn query(plan: ApprovalPlan) -> AllowanceQuery {
    match plan {
        ApprovalPlan::Check(q) => q,
        _ => panic!("expected an allowance query"),
    }
}

#[test]
fn the_native_asset_needs_no_approval() {
    assert!(matches!(plan_approval(&quote(ZERO, "5"), None), ApprovalPlan::NotNeeded));
    let mut q = quote(USDC, "5");
    q.from_amount = None;
    assert!(matches!(plan_approval(&q, None), ApprovalPlan::Incomplete));
    let mut q = quote(USDC, "5");
    q.transaction = None;
    assert!(matches!(plan_approval(&q, None), ApprovalPlan::Incomplete));
    let mut q = quote(USDC, "5");
    q.from_token = None;
    assert!(matches!(plan_approval(&q, None), ApprovalPlan::Incomplete));
}

#[test]
fn an_approval_is_for_the_largest_amount_unless_asked_by_value() {
    let q = query(plan_approval(&quote(USDC, "500"), None));
    assert_eq!(q.token, USDC);
    assert_eq!(q.owner, USER);
    assert_eq!(q.spender, SPENDER);
    assert_eq!(q.chain_id, 10);
    assert_eq!(q.required, "500");
    assert_eq!(q.approval_amount, MAX);
    assert_eq!(q.gas_price, "7");
    assert_eq!(query(plan_approval(&quote(USDC, "500"), Some("max"))).approval_amount, MAX);
    assert_eq!(query(plan_approval(&quote(USDC, "500"), Some("other"))).approval_amount, MAX);
    assert_eq!(query(plan_approval(&quote(USDC, "500"), Some("value"))).approval_amount, "500");
}

#[test]
fn an_approval_is_made_only_where_the_allowance_falls_short() {
    let q = query(plan_approval(&quote(USDC, "500"), Some("value")));
    assert!(generate_approval_transaction(q, "500", Some("60000".to_string())).is_none());
    let q = query(plan_approval(&quote(USDC, "500"), Some("value")));
    assert!(generate_approval_transaction(q, MAX, Some("60000".to_string())).is_none());
    let q = query(plan_approval(&quote(USDC, "500"), Some("value")));
    assert!(generate_approval_transaction(q, "499", None).is_none());
    let q = query(plan_approval(&quote(USDC, "500"), Some("value")));
    let tx = generate_approval_transaction(q, "499", Some("60000".to_string())).unwrap();
    assert_eq!(tx.from, USER);
    assert_eq!(tx.to, USDC);
    assert_eq!(tx.spender, SPENDER);
    assert_eq!(tx.amount, "500");
    assert_eq!(tx.gas_price, "7");
    assert_eq!(tx.chain_id, 10);
    assert_eq!(tx.gas, "60000");
}

#[test]
fn allowances_and_balances_are_held_against_the_amount() {
    assert_eq!(check_user_allowance(&quote(ZERO, "5"), "0"), Ok(true));
    assert_eq!(check_user_allowance(&quote(USDC, "5"), "5"), Ok(true));
    assert_eq!(check_user_allowance(&quote(USDC, "5"), "4"), Ok(false));
    assert_eq!(check_user_allowance(&quote(USDC, "5"), MAX), Ok(true));
    let mut q = quote(USDC, "5");
    q.from_amount = None;
    assert_eq!(check_user_allowance(&q, "5"), Err("Missing fromAmount".to_string()));
    let mut q = quote(USDC, "5");
    q.from_token = None;
    assert_eq!(check_user_allowance(&q, "5"), Err("Missing fromToken address".to_string()));
    assert!(check_user_balance("10", "10"));
    assert!(!check_user_balance("9", "10"));
    assert!(check_user_balance(MAX, "340282366920938463463374607431768211456"));
    assert!(amount_covers("0", "0"));
    assert_eq!(balance_source(ZERO), BalanceSource::Native);
    assert_eq!(balance_source(USDC), BalanceSource::Contract);
}

fn member(key: &str, value: JsonValue) -> Member {
    Member { key: key.to_string(), value }
}

fn text_of(v: &JsonValue) -> String {
    match v {
        JsonValue::Null => "null".to_string(),
        JsonValue::Bool(b) => b.to_string(),
        JsonValue::Text(t) => t.clone(),
        JsonValue::Number(JsonNumber::Unsigned(n)) => n.to_string(),
        _ => "?".to_string(),
    }
}

fn members_of(v: JsonValue) -> Vec<(String, String)> {
    match v {
        JsonValue::Object(members) => {
            members.iter().map(|m| (m.key.clone(), text_of(&m.value))).collect()
        },
        _ => panic!("expected an object"),
    }
}

#[test]
fn an_ordered_object_keeps_the_order_of_first_insertion() {
    let mut o = OrderedValue::new();
    o.insert("b", JsonValue::Text("1".to_string()));
    o.insert("a", JsonValue::Text("2".to_string()));
    o.insert("c", JsonValue::Null);
    o.insert("b", JsonValue::Text("3".to_string()));
    assert_eq!(
        members_of(o.into_object()),
        vec![
            ("b".to_string(), "3".to_string()),
            ("a".to_string(), "2".to_string()),
            ("c".to_string(), "null".to_string()),
        ]
    );
}

#[test]
fn a_response_is_put_into_its_fixed_order() {
    let response = JsonValue::Object(vec![
        member("data", JsonValue::Text("quotes".to_string())),
        member("extra", JsonValue::Bool(false)),
        member("success", JsonValue::Bool(true)),
        member("requestId", JsonValue::Text("id-1".to_string())),
        member("data", JsonValue::Text("shadowed".to_string())),
    ]);
    assert_eq!(
        members_of(serialize_ordered_response(response)),
        vec![
            ("requestId".to_string(), "id-1".to_string()),
            ("success".to_string(), "true".to_string()),
            ("data".to_string(), "quotes".to_string()),
        ]
    );
    let partial = JsonValue::Object(vec![member("success", JsonValue::Bool(false))]);
    assert_eq!(
        members_of(create_ordered_response(partial).into_object()),
        vec![
            ("requestId".to_string(), "null".to_string()),
            ("success".to_string(), "false".to_string()),
            ("data".to_string(), "null".to_string()),
        ]
    );
    assert_eq!(
        members_of(serialize_ordered_response(JsonValue::Null)),
        vec![
            ("requestId".to_string(), "null".to_string()),
            ("success".to_string(), "null".to_string()),
            ("data".to_string(), "null".to_string()),
        ]
    );
}

#[test]
fn a_text_is_split_into_lines() {
    assert_eq!(split_lines("a\nb\r\nc"), vec!["a", "b", "c"]);
    assert_eq!(split_lines("a\n"), vec!["a"]);
    assert_eq!(split_lines(""), Vec::<String>::new());
    assert_eq!(split_lines("\n"), vec![""]);
    assert_eq!(split_lines("a\n\nb"), vec!["a", "", "b"]);
    for s in ["x\r\ny\r", "\r\n", "one", "one\r\n\r\ntwo\n", "a\rb\nc", "\r", "a\n\r"] {
        let expected: Vec<String> = s.lines().map(|l| l.to_string()).collect();
        assert_eq!(split_lines(s), expected, "{:?}", s);
    }
}

#[test]
fn the_proxy_list_is_read_line_by_line() {
    let list = read_proxy_list("10.0.0.1:80:alice:pw\nbroken line\r\n10.0.0.2:81:bob:pw2\n");
    assert_eq!(list.len(), 3);
    match &list[0] {
        ProxyLine::Proxy { ip_port, url } => {
            assert_eq!(ip_port, "10.0.0.1:80");
            assert_eq!(url, "http://alice:pw@10.0.0.1:80");
        },
        ProxyLine::Invalid(_) => panic!("expected a proxy"),
    }
    match &list[1] {
        ProxyLine::Invalid(line) => assert_eq!(line, "broken line"),
        ProxyLine::Proxy { .. } => panic!("expected a refusal"),
    }
    match &list[2] {
        ProxyLine::Proxy { ip_port, .. } => assert_eq!(ip_port, "10.0.0.2:81"),
        ProxyLine::Invalid(_) => panic!("expected a proxy"),
    }
    assert!(read_proxy_list("").is_empty());
}

fn chains() -> Vec<ChainInfo> {
    vec![
        ChainInfo {
            id: Some(1),
            rpc_urls: Some(vec![
                Some("https://eth.example/rpc".to_string()),
                Some("not an address".to_string()),
                None,
                Some("https://eth2.example".to_string()),
            ]),
        },
        ChainInfo { id: None, rpc_urls: Some(vec![Some("https://nobody.example".to_string())]) },
        ChainInfo { id: Some(10), rpc_urls: None },
        ChainInfo { id: Some(324), rpc_urls: Some(vec![Some("https://zk.example/".to_string())]) },
    ]
}

#[test]
fn every_endpoint_is_planned_for_every_proxy() {
    let proxies = vec!["proxy-a".to_string(), "proxy-b".to_string()];
    let plans = plan_rpc_endpoints(&chains(), &proxies);
    let got: Vec<(u64, String, String)> =
        plans.iter().map(|p| (p.chain_id, p.rpc_url.clone(), p.proxy_id.clone())).collect();
    let expected: Vec<(u64, String, String)> = [
        (1, "https://eth.example/rpc", "proxy-a"),
        (1, "https://eth.example/rpc", "proxy-b"),
        (1, "https://eth2.example/", "proxy-a"),
        (1, "https://eth2.example/", "proxy-b"),
        (324, "https://zk.example/", "proxy-a"),
        (324, "https://zk.example/", "proxy-b"),
    ]
    .iter()
    .map(|(c, u, p)| (*c, u.to_string(), p.to_string()))
    .collect();
    assert_eq!(got, expected);
    assert!(plan_rpc_endpoints(&chains(), &vec![]).is_empty());
}

#[test]
fn the_pools_hold_the_last_plan_of_each_key() {
    let proxies = vec!["proxy-a".to_string(), "proxy-b".to_string()];
    let (by_proxy, by_url, plans) = create_rpc_proxy_providers(&chains(), &proxies);
    assert_eq!(plans.len(), 6);
    assert_eq!(by_proxy.count(Some(1)), 2);
    assert_eq!(by_proxy.count(Some(324)), 1 + 1);
    assert_eq!(by_proxy.count(None), 4);
    assert_eq!(by_url.count(Some(1)), 2);
    assert_eq!(by_url.count(Some(324)), 1);
    for _ in 0..20 {
        // on chain 1 the second endpoint replaced the first for both proxies
        let h = get_random_rpc_proxy_provider(1, &by_proxy).unwrap();
        assert!(h == 2 || h == 3);
        // every endpoint is kept once, with the last proxy
        let (h, url) = get_random_jsonrpc_proxy_provider(1, &by_url).unwrap();
        assert!((h == 1 && url == "https://eth.example/rpc") || (h == 3 && url == "https://eth2.example/"));
        assert_eq!(
            get_random_jsonrpc_proxy_provider(324, &by_url),
            Some((5, "https://zk.example/".to_string()))
        );
    }
    assert_eq!(get_random_rpc_proxy_provider(10, &by_proxy), None);
}

#[test]
fn the_token_list_is_indexed_by_chain_and_lowered_address() {
    let list = vec![
        TokenInfo {
            address: USDC.to_string(),
            chain_id: 1,
            symbol: "USDC".to_string(),
            decimals: 6,
            name: "USD Coin".to_string(),
            coin_key: "USDC".to_string(),
            logo_uri: String::new(),
            price_usd: None,
        },
        TokenInfo {
            address: ZERO.to_string(),
            chain_id: 1,
            symbol: "ETH".to_string(),
            decimals: 18,
            name: "Ether".to_string(),
            coin_key: "ETH".to_string(),
            logo_uri: String::new(),
            price_usd: None,
        },
    ];
    let storage = index_tokens(list);
    assert_eq!(storage.get_old(&format!("1:{}", USDC.to_lowercase())).unwrap().symbol, "USDC");
    assert!(storage.get_old(&format!("1:{}", USDC)).is_none());
    match lookup_token(&storage, NATIVE, 1) {
        TokenLookup::Cached(t) => assert_eq!(t.symbol, "ETH"),
        TokenLookup::Missing { .. } => panic!("expected a cached token"),
    }
    assert!(matches!(lookup_token(&storage, USDC, 2), TokenLookup::Missing { .. }));
}
