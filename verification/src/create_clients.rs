//! Proxy descriptions: how a line of the proxy list is read.

use vstd::prelude::*;
use url::Url;
use crate::load_resources::ChainInfo;
use crate::text::{append_str, from_char_range, owned, split, split_on, to_chars};
use crate::token_storage::token_key;
use crate::utils::{PoolEntry, ResourcePool};

verus! {

/// The endpoint, user name and password that a line of the proxy list gives.
///
/// A line has the form `host:port:user:password`: exactly four parts between
/// colons. The endpoint is the first two parts with the colon between them.
pub open spec fn proxy_details(line: Seq<char>) -> Option<(Seq<char>, Seq<char>, Seq<char>)> {
    let parts = split(line, ':');
    if parts.len() == 4 {
        Some((parts[0] + seq![':'] + parts[1], parts[2], parts[3]))
    } else {
        None
    }
}

/// Reads one line of the proxy list.
pub fn parse_proxy_details(line: &str) -> (details: Option<(String, String, String)>)
    ensures
        match (details, proxy_details(line@)) {
            (Some(d), Some(p)) => d.0@ == p.0 && d.1@ == p.1 && d.2@ == p.2,
            (None, None) => true,
            _ => false,
        },
{
    let parts = split_on(line, ':');
    if parts.len() == 4 {
        proof {
            reveal_strlit(":");
            assert(":"@ =~= seq![':']);
        }
        let host = append_str(parts[0].as_str(), ":");
        let ip_port = append_str(host.as_str(), parts[1].as_str());
        let username = owned(parts[2].as_str());
        let password = owned(parts[3].as_str());
        Some((ip_port, username, password))
    } else {
        None
    }
}

/// The address under which a proxy is reached with its credentials.
pub fn proxy_url(ip_port: &str, username: &str, password: &str) -> (url: String)
    ensures
        url@ == "http://"@ + username@ + ":"@ + password@ + "@"@ + ip_port@,
{
    let a = append_str("http://", username);
    let b = append_str(a.as_str(), ":");
    let c = append_str(b.as_str(), password);
    let d = append_str(c.as_str(), "@");
    append_str(d.as_str(), ip_port)
}

/// The lines of a text. A line ends at a line feed; a carriage return in
/// front of the line feed belongs to the line ending. What follows the last
/// line feed is a line unless it is empty.
pub open spec fn lines_of(s: Seq<char>) -> Seq<Seq<char>> {
    let parts = split(s, '\n');
    let count = if parts.last().len() == 0 {
        parts.len() - 1
    } else {
        parts.len() as int
    };
    Seq::new(
        count as nat,
        |i: int|
            if i < parts.len() - 1 && parts[i].len() > 0 && parts[i].last() == '\r' {
                parts[i].drop_last()
            } else {
                parts[i]
            },
    )
}

/// Splits a text into its lines.
pub fn split_lines(s: &str) -> (lines: Vec<String>)
    ensures
        crate::text::names_view(lines@) == lines_of(s@),
{
    let parts = split_on(s, '\n');
    proof {
        crate::text::lemma_split_join(s@, '\n');
    }
    let last = parts.len() - 1;
    let count = if parts[last].as_str().is_empty() {
        last
    } else {
        parts.len()
    };
    let mut lines: Vec<String> = Vec::new();
    let mut i: usize = 0;
    while i < count
        invariant
            i <= count <= parts.len(),
            parts@.len() == split(s@, '\n').len(),
            count == lines_of(s@).len(),
            forall|k: int| 0 <= k < parts@.len() ==> (#[trigger] parts@[k])@ == split(s@, '\n')[k],
            lines@.len() == i,
            forall|k: int| 0 <= k < i ==> (#[trigger] lines@[k])@ == lines_of(s@)[k],
        decreases count - i,
    {
        let chars = to_chars(parts[i].as_str());
        let n = chars.len();
        if i + 1 < parts.len() && n > 0 && chars[n - 1] == '\r' {
            let line = from_char_range(&chars, 0, n - 1);
            proof {
                assert(line@ =~= split(s@, '\n')[i as int].drop_last());
            }
            lines.push(line);
        } else {
            lines.push(owned(parts[i].as_str()));
        }
        i = i + 1;
    }
    proof {
        assert(crate::text::names_view(lines@) =~= lines_of(s@));
    }
    lines
}

/// What a line of the proxy list gives.
pub enum ProxyLine {
    /// A proxy: its endpoint, and the address it is reached under with its
    /// credentials.
    Proxy { ip_port: String, url: String },
    /// A line of another form, as it stands.
    Invalid(String),
}

/// Whether `line` was read rightly from the text `source`.
pub open spec fn line_read(line: ProxyLine, source: Seq<char>) -> bool {
    match (line, proxy_details(source)) {
        (ProxyLine::Proxy { ip_port, url }, Some(d)) => ip_port@ == d.0 && url@ == "http://"@ + d.1
            + ":"@ + d.2 + "@"@ + d.0,
        (ProxyLine::Invalid(text), None) => text@ == source,
        _ => false,
    }
}

/// Reads the proxy list: one proxy or one refusal for every line.
pub fn read_proxy_list(content: &str) -> (list: Vec<ProxyLine>)
    ensures
        list@.len() == lines_of(content@).len(),
        forall|i: int| 0 <= i < list@.len() ==> line_read(#[trigger] list@[i], lines_of(content@)[i]),
{
    let lines = split_lines(content);
    let mut list: Vec<ProxyLine> = Vec::new();
    let mut i: usize = 0;
    while i < lines.len()
        invariant
            i <= lines.len(),
            crate::text::names_view(lines@) == lines_of(content@),
            list@.len() == i,
            forall|k: int| 0 <= k < i ==> line_read(#[trigger] list@[k], lines_of(content@)[k]),
        decreases lines.len() - i,
    {
        proof {
            assert(crate::text::names_view(lines@)[i as int] == lines@[i as int]@);
        }
        match parse_proxy_details(lines[i].as_str()) {
            Some(d) => {
                let url = proxy_url(d.0.as_str(), d.1.as_str(), d.2.as_str());
                list.push(ProxyLine::Proxy { ip_port: d.0, url });
            },
            None => {
                list.push(ProxyLine::Invalid(owned(lines[i].as_str())));
            },
        }
        i = i + 1;
    }
    list
}

/// The text of an address in its standard form, if the text is an address.
pub uninterp spec fn url_text(input: Seq<char>) -> Option<Seq<char>>;

/// An optional text by its characters.
pub open spec fn text_view(t: Option<String>) -> Option<Seq<char>> {
    match t {
        Some(s) => Some(s@),
        None => None,
    }
}

/// Brings an address into its standard form.
///
/// Trusted: `Url::parse` and the `to_string` of a `Url`, of the crate `url`.
/// The result depends on the text alone; a text that is no absolute address
/// gives nothing.
#[verifier::external_body]
fn normalize_url(input: &str) -> (r: Option<String>)
    ensures
        text_view(r) == url_text(input@),
{
    Url::parse(input).ok().map(|u| u.to_string())
}

/// One RPC endpoint to be reached through one proxy.
pub struct EndpointPlan {
    pub chain_id: u64,
    pub rpc_url: String,
    pub proxy_id: String,
}

/// An endpoint plan as plain values.
pub open spec fn plan_view(p: EndpointPlan) -> (u64, Seq<char>, Seq<char>) {
    (p.chain_id, p.rpc_url@, p.proxy_id@)
}

/// The plans for one endpoint: one for every proxy.
pub open spec fn url_endpoints(chain_id: u64, url: Seq<char>, proxies: Seq<String>) -> Seq<
    (u64, Seq<char>, Seq<char>),
> {
    Seq::new(proxies.len(), |j: int| (chain_id, url, proxies[j]@))
}

/// The plans for the endpoints of one chain: for every endpoint that is
/// given as an address, in order, its plans.
pub open spec fn chain_endpoints(chain_id: u64, urls: Seq<Option<String>>, proxies: Seq<String>) -> Seq<
    (u64, Seq<char>, Seq<char>),
>
    decreases urls.len(),
{
    if urls.len() == 0 {
        Seq::empty()
    } else {
        let before = chain_endpoints(chain_id, urls.drop_last(), proxies);
        match urls.last() {
            Some(u) => match url_text(u@) {
                Some(t) => before + url_endpoints(chain_id, t, proxies),
                None => before,
            },
            None => before,
        }
    }
}

/// The plans for all chains that have an identifier and a list of endpoints.
pub open spec fn endpoints(chains: Seq<ChainInfo>, proxies: Seq<String>) -> Seq<
    (u64, Seq<char>, Seq<char>),
>
    decreases chains.len(),
{
    if chains.len() == 0 {
        Seq::empty()
    } else {
        let before = endpoints(chains.drop_last(), proxies);
        match (chains.last().id, chains.last().rpc_urls) {
            (Some(id), Some(urls)) => before + chain_endpoints(id, urls@, proxies),
            _ => before,
        }
    }
}

/// Plans as plain values.
pub open spec fn plans_view(plans: Seq<EndpointPlan>) -> Seq<(u64, Seq<char>, Seq<char>)> {
    Seq::new(plans.len(), |i: int| plan_view(plans[i]))
}

/// Says which endpoints are to be reached through which proxies.
pub fn plan_rpc_endpoints(chains: &Vec<ChainInfo>, proxy_ids: &Vec<String>) -> (plans: Vec<EndpointPlan>)
    ensures
        plans_view(plans@) == endpoints(chains@, proxy_ids@),
{
    let mut plans: Vec<EndpointPlan> = Vec::new();
    let mut c: usize = 0;
    proof {
        assert(chains@.subrange(0, 0) =~= Seq::<ChainInfo>::empty());
        assert(plans_view(plans@) =~= endpoints(chains@.subrange(0, 0), proxy_ids@));
    }
    while c < chains.len()
        invariant
            c <= chains.len(),
            plans_view(plans@) == endpoints(chains@.subrange(0, c as int), proxy_ids@),
        decreases chains.len() - c,
    {
        proof {
            let next = chains@.subrange(0, c + 1);
            assert(next.drop_last() =~= chains@.subrange(0, c as int));
            assert(next.last() == chains@[c as int]);
        }
        let chain = &chains[c];
        if let Some(id) = chain.id {
            if let Some(urls) = &chain.rpc_urls {
                let ghost base = plans_view(plans@);
                let mut u: usize = 0;
                proof {
                    assert(urls@.subrange(0, 0) =~= Seq::<Option<String>>::empty());
                    assert(plans_view(plans@) =~= base + chain_endpoints(
                        id,
                        urls@.subrange(0, 0),
                        proxy_ids@,
                    ));
                }
                while u < urls.len()
                    invariant
                        u <= urls.len(),
                        plans_view(plans@) == base + chain_endpoints(
                            id,
                            urls@.subrange(0, u as int),
                            proxy_ids@,
                        ),
                    decreases urls.len() - u,
                {
                    proof {
                        let next = urls@.subrange(0, u + 1);
                        assert(next.drop_last() =~= urls@.subrange(0, u as int));
                        assert(next.last() == urls@[u as int]);
                    }
                    if let Some(raw) = &urls[u] {
                        if let Some(address) = normalize_url(raw.as_str()) {
                            let ghost inner = plans_view(plans@);
                            let mut p: usize = 0;
                            while p < proxy_ids.len()
                                invariant
                                    p <= proxy_ids.len(),
                                    plans_view(plans@) == inner + url_endpoints(
                                        id,
                                        address@,
                                        proxy_ids@,
                                    ).subrange(0, p as int),
                                decreases proxy_ids.len() - p,
                            {
                                let ghost before = plans@;
                                plans.push(
                                    EndpointPlan {
                                        chain_id: id,
                                        rpc_url: address.clone(),
                                        proxy_id: proxy_ids[p].clone(),
                                    },
                                );
                                p = p + 1;
                                proof {
                                    assert(plans_view(plans@) =~= plans_view(before).push(
                                        (id, address@, proxy_ids@[p - 1]@),
                                    ));
                                    assert(plans_view(plans@) =~= inner + url_endpoints(
                                        id,
                                        address@,
                                        proxy_ids@,
                                    ).subrange(0, p as int));
                                }
                            }
                            proof {
                                assert(url_endpoints(id, address@, proxy_ids@).subrange(
                                    0,
                                    proxy_ids@.len() as int,
                                ) =~= url_endpoints(id, address@, proxy_ids@));
                                assert(base + chain_endpoints(
                                    id,
                                    urls@.subrange(0, u as int),
                                    proxy_ids@,
                                ) + url_endpoints(id, address@, proxy_ids@) =~= base + (
                                chain_endpoints(id, urls@.subrange(0, u as int), proxy_ids@)
                                    + url_endpoints(id, address@, proxy_ids@)));
                            }
                        }
                    }
                    u = u + 1;
                }
                proof {
                    assert(urls@.subrange(0, urls@.len() as int) =~= urls@);
                }
            }
        }
        c = c + 1;
    }
    proof {
        assert(chains@.subrange(0, chains@.len() as int) =~= chains@);
    }
    plans
}

/// The pool that a list of plans fills: every plan is put in under its
/// chain and, by choice, its endpoint or its proxy, with its place in the
/// list as its handle. A later plan replaces an earlier one of the same key.
pub open spec fn pool_of(plans: Seq<EndpointPlan>, by_url: bool) -> Map<Seq<char>, PoolEntry>
    decreases plans.len(),
{
    if plans.len() == 0 {
        Map::empty()
    } else {
        let e = plans.last();
        let identity = if by_url {
            e.rpc_url
        } else {
            e.proxy_id
        };
        pool_of(plans.drop_last(), by_url).insert(
            token_key(e.chain_id, identity@),
            PoolEntry { chain_id: e.chain_id, identity, handle: (plans.len() - 1) as usize },
        )
    }
}

/// Fills a pool from a list of plans.
fn fill_pool(plans: &Vec<EndpointPlan>, by_url: bool) -> (pool: ResourcePool)
    ensures
        pool.wf(),
        pool@ == pool_of(plans@, by_url),
{
    let mut pool = ResourcePool::new();
    let mut i: usize = 0;
    proof {
        assert(plans@.subrange(0, 0) =~= Seq::<EndpointPlan>::empty());
    }
    while i < plans.len()
        invariant
            i <= plans.len(),
            pool.wf(),
            pool@ == pool_of(plans@.subrange(0, i as int), by_url),
        decreases plans.len() - i,
    {
        proof {
            let next = plans@.subrange(0, i + 1);
            assert(next.drop_last() =~= plans@.subrange(0, i as int));
            assert(next.last() == plans@[i as int]);
        }
        let identity = if by_url {
            plans[i].rpc_url.clone()
        } else {
            plans[i].proxy_id.clone()
        };
        let _ = pool.insert(plans[i].chain_id, identity, i);
        i = i + 1;
    }
    proof {
        assert(plans@.subrange(0, plans@.len() as int) =~= plans@);
    }
    pool
}

/// Lays out the RPC endpoints of all chains over all proxies: the plans, the
/// pool of endpoints by chain and proxy, and the pool of raw JSON-RPC
/// endpoints by chain and address. A handle of either pool is a place in the
/// list of plans.
pub fn create_rpc_proxy_providers(chains: &Vec<ChainInfo>, proxy_ids: &Vec<String>) -> (out: (
    ResourcePool,
    ResourcePool,
    Vec<EndpointPlan>,
))
    ensures
        plans_view(out.2@) == endpoints(chains@, proxy_ids@),
        out.0.wf(),
        out.0@ == pool_of(out.2@, false),
        out.1.wf(),
        out.1@ == pool_of(out.2@, true),
{
    let plans = plan_rpc_endpoints(chains, proxy_ids);
    let by_proxy = fill_pool(&plans, false);
    let by_url = fill_pool(&plans, true);
    (by_proxy, by_url, plans)
}

} // verus!
