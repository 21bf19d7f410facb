//! Checks on an incoming request, made before any provider is contacted.

use vstd::prelude::*;
use crate::amount::{decimal_value, is_decimal, is_digit, parse_u128};
use crate::dapps::is_hex;
use crate::load_resources::{AppState, ChainInfo};
use crate::quote::{OptionEntry, QuoteOptions};
use crate::text::{append_str, owned, split, split_on, str_equal, to_chars};

verus! {

/// Whether a request is acceptable, and why not where it is not.
pub struct ValidationResult {
    pub valid: bool,
    pub message: String,
}

/// The parameters of a request as they come in.
pub struct QuoteParams {
    pub from_chain_id: u32,
    pub from_address: String,
    pub amount: String,
    pub from_token_address: String,
    pub to_token_address: String,
    pub to_address: Option<String>,
    pub to_chain_id: Option<u32>,
    pub dapps: Vec<String>,
    pub options: Option<QuoteOptions>,
    pub other_params: Vec<OptionEntry>,
}

/// Whether a text is an address: `0x` and forty hexadecimal digits.
pub open spec fn is_address(s: Seq<char>) -> bool {
    &&& s.len() == 42
    &&& s[0] == '0'
    &&& s[1] == 'x'
    &&& forall|i: int| 2 <= i < 42 ==> is_hex(#[trigger] s[i])
}

/// Whether a text is an address.
pub fn is_valid_address(s: &str) -> (ok: bool)
    ensures
        ok == is_address(s@),
{
    let v = to_chars(s);
    if v.len() != 42 {
        return false;
    }
    if v[0] != '0' || v[1] != 'x' {
        return false;
    }
    let mut i: usize = 2;
    while i < 42
        invariant
            2 <= i <= 42,
            v@.len() == 42,
            v@ == s@,
            forall|k: int| 2 <= k < i ==> is_hex(#[trigger] s@[k]),
        decreases 42 - i,
    {
        let c = v[i];
        let hex = ('0' <= c && c <= '9') || ('a' <= c && c <= 'f') || ('A' <= c && c <= 'F');
        if !hex {
            proof {
                assert(!is_hex(s@[i as int]));
            }
            return false;
        }
        i = i + 1;
    }
    true
}

/// The first mandatory parameter that a request lacks, by name.
pub open spec fn missing_parameter(p: QuoteParams) -> Option<Seq<char>> {
    if p.from_chain_id == 0 {
        Some("fromChainId"@)
    } else if p.from_address@.len() == 0 {
        Some("fromAddress"@)
    } else if p.amount@.len() == 0 {
        Some("amount"@)
    } else if p.from_token_address@.len() == 0 {
        Some("fromTokenAddress"@)
    } else if p.to_token_address@.len() == 0 {
        Some("toTokenAddress"@)
    } else {
        None
    }
}

/// Whether the chain list holds a chain with the identifier.
pub open spec fn known_chain(chains: Seq<ChainInfo>, id: u32) -> bool {
    exists|i: int| 0 <= i < chains.len() && (#[trigger] chains[i]).id == Some(id as u64)
}

/// Why a request is refused, if it is: a mandatory parameter is missing, a
/// chain is not in the chain list, or an address is none.
pub open spec fn refusal(p: QuoteParams, chains: Seq<ChainInfo>) -> Option<Seq<char>> {
    match missing_parameter(p) {
        Some(name) => Some("Missing mandatory parameter: "@ + name),
        None => if !known_chain(chains, p.from_chain_id) {
            Some("Invalid fromChainId"@)
        } else if p.to_chain_id is Some && !known_chain(chains, p.to_chain_id->0) {
            Some("Invalid toChainId"@)
        } else if !(is_address(p.from_token_address@) && is_address(p.to_token_address@)
            && is_address(p.from_address@)) {
            Some("Invalid address format"@)
        } else {
            None
        },
    }
}

/// Whether the chain list holds a chain with the identifier.
fn chain_is_known(chains: &Vec<ChainInfo>, id: u32) -> (ok: bool)
    ensures
        ok == known_chain(chains@, id),
{
    let mut i: usize = 0;
    while i < chains.len()
        invariant
            i <= chains.len(),
            forall|k: int| 0 <= k < i ==> (#[trigger] chains@[k]).id != Some(id as u64),
        decreases chains.len() - i,
    {
        match chains[i].id {
            Some(found) => {
                if found == id as u64 {
                    return true;
                }
            },
            None => {},
        }
        i = i + 1;
    }
    false
}

/// A refusal for a missing parameter.
fn missing(name: &str) -> (r: ValidationResult)
    ensures
        !r.valid,
        r.message@ == "Missing mandatory parameter: "@ + name@,
{
    ValidationResult { valid: false, message: append_str("Missing mandatory parameter: ", name) }
}

/// A refusal with a reason.
fn refuse(reason: &str) -> (r: ValidationResult)
    ensures
        !r.valid,
        r.message@ == reason@,
{
    ValidationResult { valid: false, message: owned(reason) }
}

/// Checks a request before anything is done for it.
pub fn validate_required_params(params: &QuoteParams, state: &AppState) -> (r: ValidationResult)
    ensures
        r.valid == (refusal(*params, state.chains@) is None),
        r.message@ == (match refusal(*params, state.chains@) {
            Some(reason) => reason,
            None => "Valid parameters"@,
        }),
{
    if params.from_chain_id == 0 {
        return missing("fromChainId");
    }
    if params.from_address.as_str().is_empty() {
        return missing("fromAddress");
    }
    if params.amount.as_str().is_empty() {
        return missing("amount");
    }
    if params.from_token_address.as_str().is_empty() {
        return missing("fromTokenAddress");
    }
    if params.to_token_address.as_str().is_empty() {
        return missing("toTokenAddress");
    }
    if !chain_is_known(&state.chains, params.from_chain_id) {
        return refuse("Invalid fromChainId");
    }
    match params.to_chain_id {
        Some(id) => {
            if !chain_is_known(&state.chains, id) {
                return refuse("Invalid toChainId");
            }
        },
        None => {},
    }
    if !is_valid_address(params.from_token_address.as_str()) || !is_valid_address(
        params.to_token_address.as_str(),
    ) || !is_valid_address(params.from_address.as_str()) {
        return refuse("Invalid address format");
    }
    ValidationResult { valid: true, message: owned("Valid parameters") }
}

/// The hundredths that the digits behind a point stand for: the first two
/// count, the rest is cut off.
pub open spec fn hundredths(frac: Seq<char>) -> nat {
    (if frac.len() >= 1 {
        crate::amount::digit_of(frac[0]) * 10
    } else {
        0
    }) + (if frac.len() >= 2 {
        crate::amount::digit_of(frac[1])
    } else {
        0
    })
}

/// A percentage in hundredths of a percent, from the digits before and
/// behind the point.
pub open spec fn percent_parts_bps(whole: Seq<char>, frac: Seq<char>) -> Option<u32> {
    if is_decimal(whole) && is_decimal(frac) && whole.len() + frac.len() > 0 && decimal_value(whole)
        * 100 + hundredths(frac) <= u32::MAX {
        Some((decimal_value(whole) * 100 + hundredths(frac)) as u32)
    } else {
        None
    }
}

/// A percentage in hundredths of a percent. The text is digits, with or
/// without a point among them; digits behind the second after the point are
/// cut off. Any other text stands for no percentage.
pub open spec fn percent_bps(s: Seq<char>) -> Option<u32> {
    let parts = split(s, '.');
    if parts.len() == 1 {
        percent_parts_bps(parts[0], Seq::empty())
    } else if parts.len() == 2 {
        percent_parts_bps(parts[0], parts[1])
    } else {
        None
    }
}

/// The hundredths of the digits behind a point.
fn read_hundredths(frac: &str) -> (h: Option<u128>)
    ensures
        h is Some <==> is_decimal(frac@),
        h matches Some(v) ==> v == hundredths(frac@) && v < 100,
{
    if !crate::amount::all_digits(frac) {
        return None;
    }
    let v = to_chars(frac);
    let mut h: u128 = 0;
    if v.len() >= 1 {
        proof {
            assert(is_digit(frac@[0]));
        }
        h = h + (((v[0] as u8) - 48) as u128) * 10;
    }
    if v.len() >= 2 {
        proof {
            assert(is_digit(frac@[1]));
        }
        h = h + (((v[1] as u8) - 48) as u128);
    }
    Some(h)
}

/// Reads a percentage into hundredths of a percent.
pub fn parse_percent_bps(s: &str) -> (bps: Option<u32>)
    ensures
        bps == percent_bps(s@),
{
    let parts = split_on(s, '.');
    if parts.len() == 0 || parts.len() > 2 {
        return None;
    }
    let whole = parts[0].as_str();
    let empty = String::new();
    let frac: &str = if parts.len() == 2 {
        parts[1].as_str()
    } else {
        empty.as_str()
    };
    proof {
        crate::text::lemma_split_join(s@, '.');
        if parts@.len() == 1 {
            assert(frac@ =~= Seq::<char>::empty());
        }
    }
    let h = match read_hundredths(frac) {
        Some(h) => h,
        None => {
            return None;
        },
    };
    if whole.is_empty() && frac.is_empty() {
        return None;
    }
    let w = match parse_u128(whole) {
        Some(w) => w,
        None => {
            proof {
                if is_decimal(whole@) {
                    assert(decimal_value(whole@) * 100 > u32::MAX);
                }
            }
            return None;
        },
    };
    if w > 42949672 {
        return None;
    }
    let total: u128 = w * 100 + h;
    if total > 4294967295 {
        return None;
    }
    Some(total as u32)
}

/// The place of the first option of a key from `from` on; the length where
/// there is none.
pub open spec fn first_entry(params: Seq<OptionEntry>, key: Seq<char>, from: int) -> int
    decreases params.len() - from,
{
    if from < 0 || from >= params.len() {
        params.len() as int
    } else if params[from].key@ == key {
        from
    } else {
        first_entry(params, key, from + 1)
    }
}

/// The values of the first option of a key, if the key occurs.
pub open spec fn option_values(params: Seq<OptionEntry>, key: Seq<char>) -> Option<Seq<String>> {
    let at = first_entry(params, key, 0);
    if 0 <= at < params.len() {
        Some(params[at].values@)
    } else {
        None
    }
}

/// The tolerated shortfall that the options name: one percent where no
/// option names one or the one named cannot be read, and none at all where
/// the option is there without a value.
pub open spec fn slippage_option(params: Seq<OptionEntry>) -> Option<u32> {
    match option_values(params, "slippage"@) {
        None => Some(100),
        Some(values) => if values.len() == 0 {
            None
        } else {
            match percent_bps(values[0]@) {
                Some(bps) => Some(bps),
                None => Some(100),
            }
        },
    }
}

/// The parts of a list written with commas, each without the blanks around
/// it.
pub open spec fn comma_parts(s: Seq<char>) -> Seq<Seq<char>> {
    Seq::new(split(s, ',').len(), |i: int| crate::text::trimmed(split(s, ',')[i]))
}

/// The providers that the options name, if they name any.
pub open spec fn dapps_option(params: Seq<OptionEntry>) -> Option<Seq<Seq<char>>> {
    match option_values(params, "dapps"@) {
        None => None,
        Some(values) => if values.len() == 0 {
            None
        } else {
            Some(comma_parts(values[0]@))
        },
    }
}

/// Whether an option is passed through: it is neither of the two that are
/// read, and it has a value.
pub open spec fn passed_through(e: OptionEntry) -> bool {
    e.key@ != "slippage"@ && e.key@ != "dapps"@ && e.values@.len() > 0
}

/// The options that are passed through, in their order.
pub open spec fn passed_options(params: Seq<OptionEntry>) -> Seq<OptionEntry>
    decreases params.len(),
{
    if params.len() == 0 {
        Seq::empty()
    } else if passed_through(params.last()) {
        passed_options(params.drop_last()).push(params.last())
    } else {
        passed_options(params.drop_last())
    }
}

/// Whether two options have the same key and values.
pub open spec fn same_entry(a: OptionEntry, b: OptionEntry) -> bool {
    &&& a.key == b.key
    &&& a.values@.len() == b.values@.len()
    &&& forall|i: int| 0 <= i < a.values@.len() ==> #[trigger] a.values@[i] == b.values@[i]
}

/// Whether `options` are the options that the parameters of a query give.
pub open spec fn options_of(options: QuoteOptions, params: Seq<OptionEntry>) -> bool {
    &&& options.slippage_bps == slippage_option(params)
    &&& match (options.dapps, dapps_option(params)) {
        (Some(d), Some(expected)) => crate::text::names_view(d@) == expected,
        (None, None) => true,
        _ => false,
    }
    &&& options.extra@.len() == passed_options(params).len()
    &&& forall|i: int|
        0 <= i < options.extra@.len() ==> same_entry(
            #[trigger] options.extra@[i],
            passed_options(params)[i],
        )
}

/// The first option of a key.
fn find_entry<'a>(params: &'a Vec<OptionEntry>, key: &str) -> (found: Option<&'a OptionEntry>)
    ensures
        match found {
            Some(e) => 0 <= first_entry(params@, key@, 0) < params@.len() && *e
                == params@[first_entry(params@, key@, 0)],
            None => first_entry(params@, key@, 0) == params@.len(),
        },
{
    let mut i: usize = 0;
    while i < params.len()
        invariant
            i <= params.len(),
            first_entry(params@, key@, 0) == first_entry(params@, key@, i as int),
        decreases params.len() - i,
    {
        if str_equal(params[i].key.as_str(), key) {
            return Some(&params[i]);
        }
        i = i + 1;
    }
    None
}

/// The parts of a list written with commas, each without the blanks around
/// it.
pub fn comma_separated(s: &str) -> (parts: Vec<String>)
    ensures
        crate::text::names_view(parts@) == comma_parts(s@),
{
    let raw = split_on(s, ',');
    let mut parts: Vec<String> = Vec::new();
    let mut i: usize = 0;
    while i < raw.len()
        invariant
            i <= raw.len(),
            raw@.len() == split(s@, ',').len(),
            forall|k: int| 0 <= k < raw@.len() ==> (#[trigger] raw@[k])@ == split(s@, ',')[k],
            parts@.len() == i,
            forall|k: int| 0 <= k < i ==> (#[trigger] parts@[k])@ == comma_parts(s@)[k],
        decreases raw.len() - i,
    {
        parts.push(crate::text::trim(raw[i].as_str()));
        i = i + 1;
    }
    proof {
        assert(crate::text::names_view(parts@) =~= comma_parts(s@));
    }
    parts
}

/// The options of a request from the parameters of its query.
pub fn format_options(params: &Vec<OptionEntry>) -> (options: QuoteOptions)
    ensures
        options_of(options, params@),
{
    let slippage_bps = match find_entry(params, "slippage") {
        None => Some(100),
        Some(e) => {
            if e.values.len() == 0 {
                None
            } else {
                match parse_percent_bps(e.values[0].as_str()) {
                    Some(bps) => Some(bps),
                    None => Some(100),
                }
            }
        },
    };
    let dapps = match find_entry(params, "dapps") {
        None => None,
        Some(e) => {
            if e.values.len() == 0 {
                None
            } else {
                Some(comma_separated(e.values[0].as_str()))
            }
        },
    };
    let mut extra: Vec<OptionEntry> = Vec::new();
    let mut i: usize = 0;
    proof {
        assert(params@.subrange(0, 0) =~= Seq::<OptionEntry>::empty());
    }
    while i < params.len()
        invariant
            i <= params.len(),
            extra@.len() == passed_options(params@.subrange(0, i as int)).len(),
            forall|k: int|
                0 <= k < extra@.len() ==> same_entry(
                    #[trigger] extra@[k],
                    passed_options(params@.subrange(0, i as int))[k],
                ),
        decreases params.len() - i,
    {
        proof {
            let next = params@.subrange(0, i + 1);
            assert(next.drop_last() =~= params@.subrange(0, i as int));
            assert(next.last() == params@[i as int]);
        }
        let e = &params[i];
        if !str_equal(e.key.as_str(), "slippage") && !str_equal(e.key.as_str(), "dapps")
            && e.values.len() > 0 {
            extra.push(
                OptionEntry { key: e.key.clone(), values: crate::text::copy_strings(&e.values) },
            );
        }
        i = i + 1;
    }
    proof {
        assert(params@.subrange(0, params@.len() as int) =~= params@);
    }
    QuoteOptions { slippage_bps, dapps, extra }
}

} // verus!
