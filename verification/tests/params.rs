use quote_aggregator::deserialization_helpers::{
    number_to_string, string_or_number_to_option_u32, string_or_number_to_u32, string_or_seq,
};
use quote_aggregator::json::{serialize_big_ints, JsonNumber, JsonValue, Member};
use quote_aggregator::load_resources::{AppState, ChainInfo};
use quote_aggregator::quote::{OptionEntry, QuoteOptions};
use quote_aggregator::quote_handler::{
    get_quote_handler, handle_quote_request, post_quote_handler, GetQuoteParams,
};
use quote_aggregator::text::trim;
use quote_aggregator::validate_params::{
    comma_separated, format_options, is_valid_address, parse_percent_bps,
    validate_required_params, QuoteParams,
};

const USDC: &str = "0xA0b86991c6218b36c1d19D4a2e9Eb0cE3606eB48";
const NATIVE: &str = "0xeeeeeeeeeeeeeeeeeeeeeeeeeeeeeeeeeeeeeeee";
const USER: &str = "0x1111111111111111111111111111111111111111";

fn state() -> AppState {
    AppState {
        chains: vec![
            ChainInfo { id: Some(1), rpc_urls: None },
            ChainInfo { id: None, rpc_urls: None },
            ChainInfo { id: Some(324), rpc_urls: None },
        ],
        dapp_config: vec![],
        rpc_config: vec![],
    }
}

fn params() -> QuoteParams {
    QuoteParams {
        from_chain_id: 1,
        from_address: USER.to_string(),
        amount: "1000000000000000000".to_string(),
        from_token_address: NATIVE.to_string(),
        to_token_address: USDC.to_string(),
        to_address: None,
        to_chain_id: None,
        dapps: vec![],
        options: None,
        other_params: vec![],
    }
}

fn entry(key: &str, values: &[&str]) -> OptionEntry {
    OptionEntry { key: key.to_string(), values: values.iter().map(|v| v.to_string()).collect() }
}

fn check(p: &QuoteParams) -> (bool, String) {
    let r = validate_required_params(p, &state());
    (r.valid, r.message)
}

#[test]
fn complete_parameters_are_valid() {
    assert_eq!(check(&params()), (true, "Valid parameters".to_string()));
    let mut p = params();
    p.to_chain_id = Some(324);
    assert_eq!(check(&p), (true, "Valid parameters".to_string()));
}

#[test]
fn the_first_missing_parameter_is_named() {
    let mut p = params();
    p.from_chain_id = 0;
    p.amount = String::new();
    assert_eq!(check(&p), (false, "Missing mandatory parameter: fromChainId".to_string()));
    let mut p = params();
    p.from_address = String::new();
    assert_eq!(check(&p), (false, "Missing mandatory parameter: fromAddress".to_string()));
    let mut p = params();
    p.amount = String::new();
    assert_eq!(check(&p), (false, "Missing mandatory parameter: amount".to_string()));
    let mut p = params();
    p.from_token_address = String::new();
    assert_eq!(check(&p), (false, "Missing mandatory parameter: fromTokenAddress".to_string()));
    let mut p = params();
    p.to_token_address = String::new();
    assert_eq!(check(&p), (false, "Missing mandatory parameter: toTokenAddress".to_string()));
}

#[test]
fn chains_must_be_in_the_chain_list() {
    let mut p = params();
    p.from_chain_id = 5;
    assert_eq!(check(&p), (false, "Invalid fromChainId".to_string()));
    let mut p = params();
    p.to_chain_id = Some(5);
    assert_eq!(check(&p), (false, "Invalid toChainId".to_string()));
}

#[test]
fn addresses_must_have_the_address_form() {
    for bad in [
        "0x111111111111111111111111111111111111111",
        "0x11111111111111111111111111111111111111111",
        "1x1111111111111111111111111111111111111111",
        "0X1111111111111111111111111111111111111111",
        "0x111111111111111111111111111111111111111g",
        "0x1111111111111111111111111111111111111111\n",
    ] {
        let mut p = params();
        p.from_address = bad.to_string();
        assert_eq!(check(&p), (false, "Invalid address format".to_string()), "{}", bad);
        assert!(!is_valid_address(bad));
    }
    let mut p = params();
    p.to_token_address = "usdc".to_string();
    assert_eq!(check(&p), (false, "Invalid address format".to_string()));
    let mut p = params();
    p.from_token_address = "eth".to_string();
    assert_eq!(check(&p), (false, "Invalid address format".to_string()));
    assert!(is_valid_address(USDC));
    assert!(is_valid_address("0xabcdefABCDEF0123456789abcdefABCDEF012345"));
}

#[test]
fn percentages_are_read_in_hundredths() {
    assert_eq!(parse_percent_bps("1"), Some(100));
    assert_eq!(parse_percent_bps("0.5"), Some(50));
    assert_eq!(parse_percent_bps("0.25"), Some(25));
    assert_eq!(parse_percent_bps("1.234"), Some(123));
    assert_eq!(parse_percent_bps("100"), Some(10_000));
    assert_eq!(parse_percent_bps("3."), Some(300));
    assert_eq!(parse_percent_bps(".5"), Some(50));
    assert_eq!(parse_percent_bps("0"), Some(0));
    assert_eq!(parse_percent_bps("42949672.95"), Some(u32::MAX));
    assert_eq!(parse_percent_bps("42949672.96"), None);
    assert_eq!(parse_percent_bps("99999999999999999999999999999999999999999999"), None);
    assert_eq!(parse_percent_bps(""), None);
    assert_eq!(parse_percent_bps("."), None);
    assert_eq!(parse_percent_bps("1.2.3"), None);
    assert_eq!(parse_percent_bps("-1"), None);
    assert_eq!(parse_percent_bps("1e2"), None);
    assert_eq!(parse_percent_bps("one"), None);
}

#[test]
fn blanks_around_a_text_are_removed() {
    assert_eq!(trim("  koi \t"), "koi");
    assert_eq!(trim("koi"), "koi");
    assert_eq!(trim(" a b "), "a b");
    assert_eq!(trim("   "), "");
    assert_eq!(trim(""), "");
    assert_eq!(trim("\r\nx\n"), "x");
}

#[test]
fn comma_lists_are_split_and_trimmed() {
    assert_eq!(comma_separated("koi, across ,bungee"), vec!["koi", "across", "bungee"]);
    assert_eq!(comma_separated("koi"), vec!["koi"]);
    assert_eq!(comma_separated(""), vec![""]);
    assert_eq!(comma_separated("a,,b"), vec!["a", "", "b"]);
}

#[test]
fn options_default_to_one_percent() {
    let o = format_options(&vec![]);
    assert_eq!(o.slippage_bps, Some(100));
    assert_eq!(o.dapps, None);
    assert!(o.extra.is_empty());
}

#[test]
fn options_are_read_from_the_query() {
    let o = format_options(&vec![
        entry("referrer", &["me"]),
        entry("slippage", &["0.5", "9"]),
        entry("dapps", &["koi, across"]),
        entry("tags", &["a", "b"]),
        entry("empty", &[]),
        entry("slippage", &["7"]),
    ]);
    assert_eq!(o.slippage_bps, Some(50));
    assert_eq!(o.dapps, Some(vec!["koi".to_string(), "across".to_string()]));
    let extra: Vec<(String, Vec<String>)> =
        o.extra.iter().map(|e| (e.key.clone(), e.values.clone())).collect();
    assert_eq!(
        extra,
        vec![
            ("referrer".to_string(), vec!["me".to_string()]),
            ("tags".to_string(), vec!["a".to_string(), "b".to_string()]),
        ]
    );
}

#[test]
fn an_unreadable_slippage_counts_as_one_percent() {
    assert_eq!(format_options(&vec![entry("slippage", &["lots"])]).slippage_bps, Some(100));
    assert_eq!(format_options(&vec![entry("slippage", &[])]).slippage_bps, None);
    assert_eq!(format_options(&vec![entry("dapps", &[])]).dapps, None);
}

#[test]
fn a_posted_request_takes_its_options_from_the_body() {
    let mut p = params();
    p.options = Some(QuoteOptions {
        slippage_bps: Some(30),
        dapps: Some(vec!["koi".to_string()]),
        extra: vec![],
    });
    p.other_params = vec![entry("slippage", &["5"])];
    let r = post_quote_handler(p, &state()).unwrap();
    assert_eq!(r.from_chain_id, 1);
    assert_eq!(r.to_chain_id, Some(1));
    assert_eq!(r.to_address, USER);
    assert_eq!(r.from_address, USER);
    assert_eq!(r.amount, "1000000000000000000");
    assert_eq!(r.from_token_address, NATIVE);
    assert_eq!(r.to_token_address, USDC);
    assert_eq!(r.options.slippage_bps, Some(30));
    assert_eq!(r.options.dapps, Some(vec!["koi".to_string()]));
    let r = handle_quote_request(params(), true, &state()).unwrap();
    assert_eq!(r.options.slippage_bps, None);
    assert_eq!(r.options.dapps, None);
}

#[test]
fn a_queried_request_takes_its_options_from_the_query() {
    let g = GetQuoteParams {
        from_chain_id: 1,
        from_address: USER.to_string(),
        amount: "5".to_string(),
        from_token_address: NATIVE.to_string(),
        to_token_address: USDC.to_string(),
        to_address: Some(USDC.to_string()),
        to_chain_id: Some(324),
        dapps: vec!["koi".to_string()],
        slippage_bps: 300,
        options: None,
        other_params: vec![entry("dapps", &["across"])],
    };
    let r = get_quote_handler(g, &state()).unwrap();
    assert_eq!(r.to_chain_id, Some(324));
    assert_eq!(r.to_address, USDC);
    assert_eq!(r.options.slippage_bps, Some(100));
    assert_eq!(r.options.dapps, Some(vec!["across".to_string()]));
}

#[test]
fn refused_parameters_give_no_request() {
    let mut p = params();
    p.amount = String::new();
    assert_eq!(
        handle_quote_request(p, true, &state()).err().unwrap(),
        "Missing mandatory parameter: amount"
    );
}

fn object(members: Vec<(&str, JsonValue)>) -> JsonValue {
    JsonValue::Object(
        members.into_iter().map(|(k, v)| Member { key: k.to_string(), value: v }).collect(),
    )
}

fn show(v: &JsonValue) -> String {
    match v {
        JsonValue::Null => "null".to_string(),
        JsonValue::Bool(b) => b.to_string(),
        JsonValue::Number(JsonNumber::Unsigned(n)) => format!("#{}", n),
        JsonValue::Number(JsonNumber::Negative(n)) => format!("#{}", n),
        JsonValue::Number(JsonNumber::Other(t)) => format!("#{}", t),
        JsonValue::Text(t) => format!("'{}'", t),
        JsonValue::Array(items) => {
            format!("[{}]", items.iter().map(show).collect::<Vec<_>>().join(","))
        },
        JsonValue::Object(members) => format!(
            "{{{}}}",
            members.iter().map(|m| format!("{}:{}", m.key, show(&m.value))).collect::<Vec<_>>().join(",")
        ),
    }
}

#[test]
fn whole_numbers_become_text_in_objects() {
    let mut doc = object(vec![
        ("chainId", JsonValue::Number(JsonNumber::Unsigned(1))),
        ("delta", JsonValue::Number(JsonNumber::Negative(-42))),
        ("least", JsonValue::Number(JsonNumber::Negative(i64::MIN))),
        ("price", JsonValue::Number(JsonNumber::Other("1.5".to_string()))),
        ("name", JsonValue::Text("x".to_string())),
        ("list", JsonValue::Array(vec![JsonValue::Number(JsonNumber::Unsigned(7))])),
        (
            "inner",
            object(vec![
                ("gas", JsonValue::Number(JsonNumber::Unsigned(u64::MAX))),
                ("deep", object(vec![("n", JsonValue::Number(JsonNumber::Unsigned(0)))])),
            ]),
        ),
        ("none", JsonValue::Null),
        ("flag", JsonValue::Bool(true)),
    ]);
    serialize_big_ints(&mut doc);
    assert_eq!(
        show(&doc),
        "{chainId:'1',delta:'-42',least:'-9223372036854775808',price:#1.5,name:'x',list:[#7],\
         inner:{gas:'18446744073709551615',deep:{n:'0'}},none:null,flag:true}"
    );
    let mut alone = JsonValue::Number(JsonNumber::Unsigned(5));
    serialize_big_ints(&mut alone);
    assert_eq!(show(&alone), "'5'");
    let mut list = JsonValue::Array(vec![JsonValue::Number(JsonNumber::Unsigned(5))]);
    serialize_big_ints(&mut list);
    assert_eq!(show(&list), "[#5]");
}

#[test]
fn numbers_and_texts_read_as_u32() {
    assert_eq!(string_or_number_to_u32(&JsonValue::Number(JsonNumber::Unsigned(324))), Ok(324));
    assert_eq!(string_or_number_to_u32(&JsonValue::Text("324".to_string())), Ok(324));
    assert_eq!(string_or_number_to_u32(&JsonValue::Text("+1".to_string())), Ok(1));
    assert_eq!(
        string_or_number_to_u32(&JsonValue::Number(JsonNumber::Unsigned(u32::MAX as u64))),
        Ok(u32::MAX)
    );
    assert_eq!(
        string_or_number_to_u32(&JsonValue::Number(JsonNumber::Unsigned(u32::MAX as u64 + 1))),
        Err("Invalid number for u32".to_string())
    );
    assert_eq!(
        string_or_number_to_u32(&JsonValue::Number(JsonNumber::Negative(-1))),
        Err("Invalid number for u32".to_string())
    );
    assert_eq!(
        string_or_number_to_u32(&JsonValue::Number(JsonNumber::Other("1.5".to_string()))),
        Err("Invalid number for u32".to_string())
    );
    assert_eq!(
        string_or_number_to_u32(&JsonValue::Text("4294967296".to_string())),
        Err("Invalid string for u32".to_string())
    );
    assert_eq!(
        string_or_number_to_u32(&JsonValue::Text("one".to_string())),
        Err("Invalid string for u32".to_string())
    );
    assert_eq!(
        string_or_number_to_u32(&JsonValue::Null),
        Err("Expected a string or a number".to_string())
    );
    assert_eq!(
        string_or_number_to_u32(&JsonValue::Bool(true)),
        Err("Expected a string or a number".to_string())
    );
}

#[test]
fn null_reads_as_no_number() {
    assert_eq!(string_or_number_to_option_u32(&JsonValue::Null), Ok(None));
    assert_eq!(
        string_or_number_to_option_u32(&JsonValue::Number(JsonNumber::Unsigned(10))),
        Ok(Some(10))
    );
    assert_eq!(
        string_or_number_to_option_u32(&JsonValue::Text("10".to_string())),
        Ok(Some(10))
    );
    assert_eq!(
        string_or_number_to_option_u32(&JsonValue::Text("x".to_string())),
        Err("Invalid string for u32".to_string())
    );
    assert_eq!(
        string_or_number_to_option_u32(&JsonValue::Array(vec![])),
        Err("Expected a string, number, or null".to_string())
    );
}

#[test]
fn amounts_keep_their_digits_as_text() {
    assert_eq!(
        number_to_string(&JsonValue::Number(JsonNumber::Unsigned(u64::MAX))),
        Ok("18446744073709551615".to_string())
    );
    assert_eq!(
        number_to_string(&JsonValue::Number(JsonNumber::Negative(-5))),
        Ok("-5".to_string())
    );
    assert_eq!(
        number_to_string(&JsonValue::Number(JsonNumber::Other("1e30".to_string()))),
        Ok("1e30".to_string())
    );
    assert_eq!(
        number_to_string(&JsonValue::Text("1000000000000000000000000".to_string())),
        Ok("1000000000000000000000000".to_string())
    );
    assert_eq!(
        number_to_string(&JsonValue::Bool(false)),
        Err("Expected a string or a number".to_string())
    );
}

#[test]
fn a_text_or_a_list_of_texts_reads_as_a_list() {
    assert_eq!(string_or_seq(&JsonValue::Text("koi".to_string())), Ok(vec!["koi".to_string()]));
    assert_eq!(
        string_or_seq(&JsonValue::Array(vec![
            JsonValue::Text("koi".to_string()),
            JsonValue::Text("across".to_string())
        ])),
        Ok(vec!["koi".to_string(), "across".to_string()])
    );
    assert_eq!(string_or_seq(&JsonValue::Array(vec![])), Ok(vec![]));
    assert!(string_or_seq(&JsonValue::Array(vec![JsonValue::Null])).is_err());
    assert!(string_or_seq(&JsonValue::Null).is_err());
}
