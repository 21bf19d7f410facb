use quote_aggregator::fetch_token_details::{Price, TokenInfo};
use quote_aggregator::format_swap_details::{
    compute_figures, format_swap_details, plan_gas, DappOptions, GasPlan, GasReading,
    NormalizeError, RawTransaction,
};
use quote_aggregator::quote::{Enrichment, GasPrices, QuoteOptions, QuoteRequest};

const USDC: &str = "0xA0b86991c6218b36c1d19D4a2e9Eb0cE3606eB48";
const NATIVE: &str = "0xeeeeeeeeeeeeeeeeeeeeeeeeeeeeeeeeeeeeeeee";
const ZERO: &str = "0x0000000000000000000000000000000000000000";
const USER: &str = "0x1111111111111111111111111111111111111111";
const ROUTER: &str = "0x8B791913eB07C32779a16750e3868aA8495F5964";

fn request(slippage_bps: Option<u32>) -> QuoteRequest {
    QuoteRequest {
        from_chain_id: 1,
        to_chain_id: Some(1),
        from_token_address: NATIVE.to_string(),
        to_token_address: USDC.to_string(),
        from_address: USER.to_string(),
        to_address: USER.to_string(),
        amount: "1000000000000000000".to_string(),
        options: QuoteOptions { slippage_bps, dapps: None, extra: vec![] },
    }
}

fn eth() -> TokenInfo {
    TokenInfo {
        address: ZERO.to_string(),
        chain_id: 1,
        symbol: "ETH".to_string(),
        decimals: 18,
        name: "Ether".to_string(),
        coin_key: "ETH".to_string(),
        logo_uri: "https://example.org/eth.png".to_string(),
        price_usd: Some(Price { units: 350012, scale: 2 }),
    }
}

fn usdc() -> TokenInfo {
    TokenInfo {
        address: USDC.to_lowercase(),
        chain_id: 1,
        symbol: "USDC".to_string(),
        decimals: 6,
        name: "USD Coin".to_string(),
        coin_key: "USDC".to_string(),
        logo_uri: String::new(),
        price_usd: Some(Price { units: 9998, scale: 4 }),
    }
}

fn enrichment() -> Enrichment {
    Enrichment {
        gas_prices: GasPrices { wei: "20000000000".to_string(), gwei: "20.000000000".to_string() },
        quote_only: true,
        from_token_details: Some(eth()),
        to_token_details: Some(usdc()),
        native_token_details: Some(eth()),
    }
}

fn transaction() -> RawTransaction {
    RawTransaction {
        from: Some(USER.to_string()),
        to: Some(ROUTER.to_string()),
        data: Some("0xdeadbeef".to_string()),
        value: Some("1000000000000000000".to_string()),
        chain_id: None,
    }
}

#[test]
fn one_percent_slippage_on_the_quoted_amount() {
    let q = format_swap_details(
        "koi".to_string(),
        request(Some(100)),
        enrichment(),
        transaction(),
        "2500000000",
        Some(ROUTER.to_string()),
        Some("150000".to_string()),
        None,
        None,
        GasReading::NotAsked,
    )
    .unwrap();
    assert_eq!(q.to_amount.as_deref(), Some("2500000000"));
    assert_eq!(q.to_amount_min, "2475000000");
}

#[test]
fn the_whole_quote_is_filled_in() {
    let q = format_swap_details(
        "koi".to_string(),
        request(None),
        enrichment(),
        transaction(),
        "2500000000",
        Some(ROUTER.to_string()),
        Some("150000".to_string()),
        None,
        None,
        GasReading::NotAsked,
    )
    .unwrap();
    assert_eq!(q.tool.as_deref(), Some("koi"));
    assert_eq!(q.from_chain_id, Some(1));
    assert_eq!(q.to_chain_id, Some(1));
    assert_eq!(q.from_amount.as_deref(), Some("1000000000000000000"));
    // 1 ETH at 3500.12 dollars
    assert_eq!(q.from_amount_usd, "3500.12");
    assert_eq!(q.from_address.as_deref(), Some(USER));
    assert_eq!(q.to_address.as_deref(), Some(USER));
    // default slippage of one percent
    assert_eq!(q.to_amount_min, "2475000000");
    // 2500 USDC at 0.9998 dollars
    assert_eq!(q.to_amount_usd, "2499.50");
    // 150000 gas at 20 gwei = 0.003 ETH
    assert_eq!(q.swap_cost_eth, "0.00300000");
    // 0.003 ETH at 3500.12 dollars = 10.50036 dollars
    assert_eq!(q.swap_cost_usd, "10.500");
    assert_eq!(q.gas_gwei, "20.000000000");
    assert_eq!(q.approval_address, ROUTER);
    let from = q.from_token.unwrap();
    assert_eq!(from.symbol, "ETH");
    assert_eq!(from.chain_id, 1);
    assert_eq!(from.decimals, 18);
    assert_eq!(from.coin_key, None);
    assert_eq!(from.price_usd, "3500.12");
    assert_eq!(from.logo_uri, "https://example.org/eth.png");
    let to = q.to_token.unwrap();
    assert_eq!(to.symbol, "USDC");
    assert_eq!(to.coin_key.as_deref(), Some("USDC"));
    assert_eq!(to.price_usd, "0.9998");
    let tx = q.transaction.unwrap();
    assert_eq!(tx.from, USER);
    assert_eq!(tx.to, ROUTER);
    assert_eq!(tx.data, "0xdeadbeef");
    assert_eq!(tx.value, "1000000000000000000");
    assert_eq!(tx.chain_id, 1);
    assert_eq!(tx.gas_price, "20000000000");
    assert_eq!(tx.gas, "150000");
    assert!(q.options.is_some());
    assert!(q.additional_fee.is_none());
}

#[test]
fn the_no_slippage_flag_keeps_the_amount() {
    let q = format_swap_details(
        "across".to_string(),
        request(Some(300)),
        enrichment(),
        transaction(),
        "2500000000",
        None,
        Some("0".to_string()),
        None,
        Some(DappOptions { no_slippage: Some(true) }),
        GasReading::NotAsked,
    )
    .unwrap();
    assert_eq!(q.to_amount_min, "2500000000");
    assert_eq!(q.approval_address, "none");
    let q = format_swap_details(
        "across".to_string(),
        request(Some(300)),
        enrichment(),
        transaction(),
        "2500000000",
        None,
        Some("0".to_string()),
        None,
        Some(DappOptions { no_slippage: Some(false) }),
        GasReading::NotAsked,
    )
    .unwrap();
    assert_eq!(q.to_amount_min, "2425000000");
}

#[test]
fn an_unknown_price_is_written_as_none() {
    let mut e = enrichment();
    e.from_token_details.as_mut().unwrap().price_usd = None;
    e.native_token_details.as_mut().unwrap().price_usd = None;
    let q = format_swap_details(
        "koi".to_string(),
        request(None),
        e,
        transaction(),
        "2500000000",
        None,
        Some("21000".to_string()),
        None,
        None,
        GasReading::NotAsked,
    )
    .unwrap();
    assert_eq!(q.from_amount_usd, "none");
    assert_eq!(q.swap_cost_usd, "none");
    assert_eq!(q.swap_cost_eth, "0.00042000");
    assert_eq!(q.from_token.unwrap().price_usd, "none");
    assert_eq!(q.to_amount_usd, "2499.50");
}

#[test]
fn a_placeholder_skips_gas_and_cost() {
    let mut tx = transaction();
    tx.data = Some("quote".to_string());
    tx.value = Some("quote".to_string());
    assert_eq!(plan_gas(&None, &tx), GasPlan::Skipped);
    assert_eq!(plan_gas(&Some("quote".to_string()), &transaction()), GasPlan::Skipped);
    let q = format_swap_details(
        "koi".to_string(),
        request(None),
        enrichment(),
        tx,
        "2500000000",
        Some(ROUTER.to_string()),
        Some("quote".to_string()),
        None,
        None,
        GasReading::NotAsked,
    )
    .unwrap();
    assert_eq!(q.swap_cost_eth, "none");
    assert_eq!(q.swap_cost_usd, "none");
    let t = q.transaction.unwrap();
    assert_eq!(t.gas, "0");
    assert_eq!(t.data, "quote");
}

#[test]
fn gas_is_planned_from_the_estimate_and_the_transaction() {
    assert_eq!(plan_gas(&Some("21000".to_string()), &transaction()), GasPlan::Supplied(21000));
    assert_eq!(plan_gas(&Some("0".to_string()), &transaction()), GasPlan::Supplied(0));
    assert_eq!(plan_gas(&Some("soon".to_string()), &transaction()), GasPlan::Supplied(0));
    assert_eq!(plan_gas(&None, &transaction()), GasPlan::Estimate);
    let mut tx = transaction();
    tx.from = Some("quote".to_string());
    assert_eq!(plan_gas(&None, &tx), GasPlan::Skipped);
    assert_eq!(plan_gas(&Some("5".to_string()), &tx), GasPlan::Supplied(5));
}

#[test]
fn an_estimate_is_raised_by_half() {
    let q = format_swap_details(
        "bungee".to_string(),
        request(None),
        enrichment(),
        transaction(),
        "2500000000",
        None,
        None,
        None,
        None,
        GasReading::Estimated(100_001),
    )
    .unwrap();
    assert_eq!(q.transaction.unwrap().gas, "150001");
    // 150001 gas at 20 gwei = 0.00300002 ETH
    assert_eq!(q.swap_cost_eth, "0.00300002");
}

#[test]
fn a_failed_estimate_fails_the_quote() {
    for reading in [GasReading::Failed, GasReading::NotAsked] {
        let r = format_swap_details(
            "bungee".to_string(),
            request(None),
            enrichment(),
            transaction(),
            "2500000000",
            None,
            None,
            None,
            None,
            reading,
        );
        assert_eq!(r.err(), Some(NormalizeError::GasEstimationFailed));
    }
}

#[test]
fn missing_token_details_fail_the_quote() {
    let mut e = enrichment();
    e.from_token_details = None;
    let r = compute_figures("1", 100, "1", &None, &Some(usdc()), &Some(eth()), "1", false, GasPlan::Skipped, GasReading::NotAsked);
    assert_eq!(r, Err(NormalizeError::MissingFromTokenDetails));
    let r = compute_figures("1", 100, "1", &Some(eth()), &None, &Some(eth()), "1", false, GasPlan::Skipped, GasReading::NotAsked);
    assert_eq!(r, Err(NormalizeError::MissingToTokenDetails));
    let r = compute_figures("1", 100, "1", &Some(eth()), &Some(usdc()), &None, "1", false, GasPlan::Skipped, GasReading::NotAsked);
    assert_eq!(r, Err(NormalizeError::MissingNativeTokenDetails));
    let r = format_swap_details(
        "koi".to_string(),
        request(None),
        e,
        transaction(),
        "1",
        None,
        Some("1".to_string()),
        None,
        None,
        GasReading::NotAsked,
    );
    assert_eq!(r.err(), Some(NormalizeError::MissingFromTokenDetails));
}

#[test]
fn amounts_and_gas_prices_must_be_numbers() {
    let ok = (Some(eth()), Some(usdc()), Some(eth()));
    let r = compute_figures("1.5", 100, "1", &ok.0, &ok.1, &ok.2, "1", false, GasPlan::Skipped, GasReading::NotAsked);
    assert_eq!(r, Err(NormalizeError::InvalidAmount));
    let r = compute_figures("340282366920938463463374607431768211456", 100, "1", &ok.0, &ok.1, &ok.2, "1", false, GasPlan::Skipped, GasReading::NotAsked);
    assert_eq!(r, Err(NormalizeError::InvalidAmount));
    let r = compute_figures("1", 100, "fast", &ok.0, &ok.1, &ok.2, "1", false, GasPlan::Skipped, GasReading::NotAsked);
    assert_eq!(r, Err(NormalizeError::InvalidGasPrice));
}

#[test]
fn figures_that_do_not_fit_are_refused() {
    let ok = (Some(eth()), Some(usdc()), Some(eth()));
    let r = compute_figures("1", 100, "1", &ok.0, &ok.1, &ok.2, "340282366920938463463374607431768211456", false, GasPlan::Skipped, GasReading::NotAsked);
    assert_eq!(r, Err(NormalizeError::ValueOutOfRange));
    let r = compute_figures("1", 100, "1", &ok.0, &ok.1, &ok.2, "1", false, GasPlan::Estimate, GasReading::Estimated(u128::MAX));
    assert_eq!(r, Err(NormalizeError::ValueOutOfRange));
    let mut fine = eth();
    fine.price_usd = Some(Price { units: 1, scale: 19 });
    let r = compute_figures("1", 100, "1", &Some(fine), &ok.1, &ok.2, "1", false, GasPlan::Skipped, GasReading::NotAsked);
    assert_eq!(r, Err(NormalizeError::ValueOutOfRange));
    let mut zero_decimals = eth();
    zero_decimals.decimals = 0;
    zero_decimals.price_usd = Some(Price { units: u64::MAX, scale: 0 });
    let max = u128::MAX.to_string();
    let r = compute_figures(&max, 100, "1", &Some(zero_decimals), &ok.1, &ok.2, "1", false, GasPlan::Skipped, GasReading::NotAsked);
    assert_eq!(r, Err(NormalizeError::ValueOutOfRange));
}

#[test]
fn a_paid_out_text_that_is_no_number_counts_as_zero() {
    let ok = (Some(eth()), Some(usdc()), Some(eth()));
    let f = compute_figures("5", 100, "7", &ok.0, &ok.1, &ok.2, "none", false, GasPlan::Skipped, GasReading::NotAsked).unwrap();
    assert_eq!(f.to_amount, 0);
    assert_eq!(f.to_amount_min, 0);
    assert_eq!(f.from_amount, 5);
    assert_eq!(f.gas_price_wei, 7);
    assert_eq!(f.gas, None);
    assert_eq!(f.swap_cost, None);
    assert_eq!(f.swap_cost_usd, None);
}

#[test]
fn figures_are_exact() {
    let ok = (Some(eth()), Some(usdc()), Some(eth()));
    let f = compute_figures(
        "1500000000000000000",
        250,
        "30000000000",
        &ok.0,
        &ok.1,
        &ok.2,
        "1234567",
        false,
        GasPlan::Estimate,
        GasReading::Estimated(21_001),
    )
    .unwrap();
    assert_eq!(f.from_amount, 1_500_000_000_000_000_000);
    assert_eq!(f.to_amount, 1_234_567);
    // 1234567 * 9750 / 10000 = 1203702.825
    assert_eq!(f.to_amount_min, 1_203_702);
    // 21001 * 3 / 2 = 31501.5
    assert_eq!(f.gas, Some(31_501));
    // 1.5 ETH * 3500.12 = 5250.18 dollars
    assert_eq!(f.from_amount_usd, Some(525_018));
    // 1.234567 USDC * 0.9998 = 1.2343200866 dollars
    assert_eq!(f.to_amount_usd, Some(123));
    // 31501 * 30 gwei = 0.00094503 ETH
    assert_eq!(f.swap_cost, Some(94_503));
    // 0.00094503 * 3500.12 = 3.3077184036 dollars
    assert_eq!(f.swap_cost_usd, Some(3_308));
}

#[test]
fn a_token_with_many_decimals_is_valued() {
    let mut t = usdc();
    t.decimals = 60;
    t.price_usd = Some(Price { units: 1, scale: 0 });
    let ok = (Some(eth()), Some(t), Some(eth()));
    let f = compute_figures("1", 0, "1", &ok.0, &ok.1, &ok.2, "340282366920938463463374607431768211455", true, GasPlan::Skipped, GasReading::NotAsked).unwrap();
    assert_eq!(f.to_amount_usd, Some(0));
    assert_eq!(f.to_amount_min, u128::MAX);
}

#[test]
fn an_additional_fee_is_attached_when_given() {
    let q = format_swap_details(
        "debridge".to_string(),
        request(None),
        enrichment(),
        transaction(),
        "2500000000",
        None,
        Some("quote".to_string()),
        Some("1000000000000000".to_string()),
        None,
        GasReading::NotAsked,
    )
    .unwrap();
    let fee = q.additional_fee.unwrap();
    assert_eq!(fee.symbol, "ETH");
    assert_eq!(fee.decimals, 18);
    assert_eq!(fee.amount, "1000000000000000");
}

#[test]
fn missing_transaction_fields_get_their_fallbacks() {
    let tx = RawTransaction { from: None, to: None, data: None, value: None, chain_id: Some(10) };
    let q = format_swap_details(
        "jumper".to_string(),
        request(None),
        enrichment(),
        tx,
        "1",
        None,
        Some("1".to_string()),
        None,
        None,
        GasReading::NotAsked,
    )
    .unwrap();
    let t = q.transaction.unwrap();
    assert_eq!(t.from, "none");
    assert_eq!(t.to, "none");
    assert_eq!(t.data, "none");
    assert_eq!(t.value, "0");
    assert_eq!(t.chain_id, 10);
}
