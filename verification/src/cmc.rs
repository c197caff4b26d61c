//! CoinMarketCap (free tier endpoints): the client's URLs and request
//! parameters, its status-envelope check, the rank order of quotes, and
//! how `/info` entries become [`CoinInfo`]s. Prices and percentages are
//! floating point and stay with the caller; here a quote is what orders
//! and identifies it.

use crate::case::{to_uppercase, uppercased};
use crate::outside::build_http_client;
use crate::text::{decimal, i64_to_string, signed_decimal, str_equal, u64_to_string};
use vstd::prelude::*;
use vstd::string::*;

verus! {

/// The API's base URL.
pub const API_BASE: &'static str = "https://pro-api.coinmarketcap.com";

/// The currency quotes are converted to.
pub const DEFAULT_CONVERT: &'static str = "USD";

/// How the client identifies itself.
pub const USER_AGENT: &'static str = "degen-bot/0.1";

/// Errors returned by the CoinMarketCap client.
#[derive(Debug)]
#[non_exhaustive]
pub enum CmcError {
    /// The HTTP request, status, or body could not be handled.
    Http(reqwest::Error),
    /// CoinMarketCap returned an API-level error in its status envelope.
    Api { code: i32, message: String },
    /// A required field was absent from an otherwise-successful response;
    /// `what` says which, in full (it is the error's message).
    MissingData { what: String },
    /// No symbols were supplied to an endpoint that requires them.
    NoSymbols,
}

impl CmcError {
    /// The error's message.
    pub fn message(&self) -> (r: String)
        ensures
            r@ == (match *self {
                CmcError::Http(_) => "CoinMarketCap request failed"@,
                CmcError::Api { code, message } => "CoinMarketCap error "@ + signed_decimal(code as int) + ": "@
                    + message@,
                CmcError::MissingData { what } => what@,
                CmcError::NoSymbols => "no symbols provided"@,
            }),
    {
        match self {
            CmcError::Http(_) => "CoinMarketCap request failed".to_owned(),
            CmcError::Api { code, message } => {
                let mut out = "CoinMarketCap error ".to_owned();
                out.append(i64_to_string(*code as i64).as_str());
                out.append(": ");
                out.append(message.as_str());
                out
            },
            CmcError::MissingData { what } => what.clone(),
            CmcError::NoSymbols => "no symbols provided".to_owned(),
        }
    }
}

/// The status envelope of every response.
#[derive(Debug, Clone)]
pub struct ApiStatus {
    pub error_code: i32,
    pub error_message: Option<String>,
}

/// A response's status is a success exactly when its code is 0; otherwise
/// the error carries the code and the message (empty when absent).
pub fn ensure_ok(status: ApiStatus) -> (r: Result<(), CmcError>)
    ensures
        status.error_code == 0 <==> r is Ok,
        status.error_code != 0 ==> (r matches Err(CmcError::Api { code, message }) && code == status.error_code
            && message@ == match status.error_message {
            Some(m) => m@,
            None => Seq::<char>::empty(),
        }),
{
    if status.error_code == 0 {
        Ok(())
    } else {
        let message = match status.error_message {
            Some(m) => m,
            None => String::new(),
        };
        Err(CmcError::Api { code: status.error_code, message })
    }
}

/// The CoinMarketCap client: an HTTP client and the API key.
pub struct CmcClient {
    http: reqwest::Client,
    api_key: String,
}

impl CmcClient {
    /// A client with `api_key`, identifying itself as [`USER_AGENT`]; fails
    /// when no HTTP client can be built on this machine.
    pub fn new(api_key: String) -> (r: Result<CmcClient, CmcError>)
        ensures
            r matches Ok(c) ==> c.api_key() == api_key@,
            r matches Err(e) ==> e is Http,
    {
        match build_http_client(USER_AGENT) {
            Ok(http) => Ok(CmcClient { http, api_key }),
            Err(e) => Err(CmcError::Http(e)),
        }
    }

    /// The API key.
    pub closed spec fn api_key(&self) -> Seq<char> {
        self.api_key@
    }

    /// The HTTP client the requests are sent with.
    pub closed spec fn client(&self) -> reqwest::Client {
        self.http
    }

    /// The HTTP client.
    pub fn http(&self) -> (r: &reqwest::Client)
        ensures
            *r == self.client(),
    {
        &self.http
    }

    /// The API key, sent as the `X-CMC_PRO_API_KEY` header on keyed
    /// requests (never on the public ones).
    pub fn key(&self) -> (r: &str)
        ensures
            r@ == self.api_key(),
    {
        self.api_key.as_str()
    }

    /// The URL of an endpoint: the base URL and the path.
    pub fn url(path: &str) -> (r: String)
        ensures
            r@ == API_BASE@ + path@,
    {
        let mut out = API_BASE.to_owned();
        out.append(path);
        out
    }
}

// ---------------------------------------------------------------------------
// Request parameters
// ---------------------------------------------------------------------------

/// `parts` joined by `,`.
pub open spec fn joined(parts: Seq<Seq<char>>) -> Seq<char>
    decreases parts.len(),
{
    if parts.len() == 0 {
        Seq::empty()
    } else if parts.len() == 1 {
        parts[0]
    } else {
        joined(parts.drop_last()) + seq![','] + parts.last()
    }
}

/// The characters of each symbol.
pub open spec fn symbols_view(v: Seq<String>) -> Seq<Seq<char>> {
    v.map_values(|s: String| s@)
}

/// The `symbol` parameter of a quotes request: the symbols joined by `,`.
pub fn symbols_param(symbols: &Vec<String>) -> (r: String)
    ensures
        r@ == joined(symbols_view(symbols@)),
{
    let mut out = String::new();
    let mut i: usize = 0;
    while i < symbols.len()
        invariant
            i <= symbols@.len(),
            out@ == joined(symbols_view(symbols@.take(i as int))),
        decreases symbols.len() - i,
    {
        let ghost prev = symbols_view(symbols@.take(i as int));
        proof {
            reveal_strlit(",");
        }
        if i > 0 {
            out.append(",");
        }
        out.append(symbols[i].as_str());
        assert(symbols_view(symbols@.take(i + 1)) =~= prev.push(symbols@[i as int]@));
        assert(symbols_view(symbols@.take(i + 1)).drop_last() =~= prev);
        i = i + 1;
    }
    assert(symbols@.take(symbols@.len() as int) =~= symbols@);
    out
}

/// The ids of the quotes that have one, in order.
pub open spec fn known_ids(ids: Seq<Option<u64>>) -> Seq<u64>
    decreases ids.len(),
{
    if ids.len() == 0 {
        Seq::empty()
    } else {
        let prev = known_ids(ids.drop_last());
        match ids.last() {
            Some(id) => prev.push(id),
            None => prev,
        }
    }
}

/// The `id` parameter of an `/info` request: the ids of the quotes, in
/// rank order, joined by `,`; an error when no quote has an id.
pub fn info_ids_param(ids: &Vec<Option<u64>>) -> (r: Result<String, CmcError>)
    ensures
        match r {
            Ok(s) => known_ids(ids@).len() > 0 && s@ == joined(known_ids(ids@).map_values(|id: u64| decimal(id as nat))),
            Err(e) => known_ids(ids@).len() == 0 && (e matches CmcError::MissingData { what }
                && what@ == "no price data for the given symbols"@),
        },
{
    let mut out = String::new();
    let mut count: usize = 0;
    let mut i: usize = 0;
    while i < ids.len()
        invariant
            i <= ids@.len(),
            count == known_ids(ids@.take(i as int)).len(),
            count <= i,
            out@ == joined(known_ids(ids@.take(i as int)).map_values(|id: u64| decimal(id as nat))),
        decreases ids.len() - i,
    {
        let ghost prev = known_ids(ids@.take(i as int));
        assert(ids@.take(i + 1).drop_last() =~= ids@.take(i as int));
        proof {
            reveal_strlit(",");
        }
        if let Some(id) = ids[i] {
            if count > 0 {
                out.append(",");
            }
            out.append(u64_to_string(id).as_str());
            count = count + 1;
            assert(known_ids(ids@.take(i + 1)) == prev.push(id));
            assert(prev.push(id).map_values(|x: u64| decimal(x as nat)).drop_last() =~= prev.map_values(
                |x: u64| decimal(x as nat),
            ));
        } else {
            assert(known_ids(ids@.take(i + 1)) == prev);
        }
        i = i + 1;
    }
    assert(ids@.take(ids@.len() as int) =~= ids@);
    if count == 0 {
        Err(CmcError::MissingData { what: "no price data for the given symbols".to_owned() })
    } else {
        Ok(out)
    }
}

// ---------------------------------------------------------------------------
// Rank order
// ---------------------------------------------------------------------------

/// The sort key of a quote: its rank, unranked quotes last.
pub open spec fn rank_key(rank: Option<u32>) -> u32 {
    match rank {
        Some(r) => r,
        None => u32::MAX,
    }
}

/// Quote `a` comes before quote `b`: a smaller key, or the same key and
/// an earlier position in the response.
pub open spec fn ranked_before(ranks: Seq<Option<u32>>, a: usize, b: usize) -> bool {
    rank_key(ranks[a as int]) < rank_key(ranks[b as int]) || (rank_key(ranks[a as int]) == rank_key(
        ranks[b as int],
    ) && a < b)
}

/// `order` lists positions below `n` strictly in rank order.
pub open spec fn in_rank_order(ranks: Seq<Option<u32>>, order: Seq<usize>, n: int) -> bool {
    &&& forall|k: int| 0 <= k < order.len() ==> #[trigger] order[k] < n
    &&& forall|a: int, b: int|
        0 <= a < b < order.len() ==> ranked_before(ranks, #[trigger] order[a], #[trigger] order[b])
}

/// The quotes' positions sorted by rank, unranked last; quotes of equal
/// rank keep their order (a stable sort). Every position occurs exactly
/// once.
pub fn rank_order(ranks: &Vec<Option<u32>>) -> (r: Vec<usize>)
    ensures
        r@.len() == ranks@.len(),
        in_rank_order(ranks@, r@, ranks@.len() as int),
{
    let mut out: Vec<usize> = Vec::new();
    let mut i: usize = 0;
    while i < ranks.len()
        invariant
            i <= ranks@.len(),
            out@.len() == i,
            in_rank_order(ranks@, out@, i as int),
        decreases ranks.len() - i,
    {
        let key = match ranks[i] {
            Some(r) => r,
            None => u32::MAX,
        };
        // The first position whose key is larger than `key`.
        let mut p: usize = 0;
        while p < out.len()
            invariant
                i < ranks@.len(),
                out@.len() == i,
                p <= out@.len(),
                key == rank_key(ranks@[i as int]),
                in_rank_order(ranks@, out@, i as int),
                forall|k: int| 0 <= k < p ==> rank_key(ranks@[#[trigger] out@[k] as int]) <= key,
            ensures
                p <= out@.len(),
                forall|k: int| 0 <= k < p ==> rank_key(ranks@[#[trigger] out@[k] as int]) <= key,
                p < out@.len() ==> rank_key(ranks@[out@[p as int] as int]) > key,
            decreases out.len() - p,
        {
            let at = out[p];
            let k2 = match ranks[at] {
                Some(r) => r,
                None => u32::MAX,
            };
            if k2 > key {
                break;
            }
            p = p + 1;
        }
        let ghost before = out@;
        out.insert(p, i);
        proof {
            let after = out@;
            assert forall|a: int, b: int| 0 <= a < b < after.len() implies ranked_before(
                ranks@,
                #[trigger] after[a],
                #[trigger] after[b],
            ) by {
                if b < p {
                    assert(after[a] == before[a] && after[b] == before[b]);
                } else if b == p {
                    assert(after[a] == before[a]);
                    assert(rank_key(ranks@[before[a] as int]) <= key);
                } else if a == p {
                    assert(after[b] == before[b - 1]);
                    if p < before.len() {
                        if b - 1 > p {
                            assert(ranked_before(ranks@, before[p as int], before[b - 1]));
                        }
                        assert(rank_key(ranks@[before[p as int] as int]) > key);
                    }
                } else if a < p {
                    assert(after[a] == before[a] && after[b] == before[b - 1]);
                } else {
                    assert(after[a] == before[a - 1] && after[b] == before[b - 1]);
                }
            }
            assert forall|k: int| 0 <= k < after.len() implies #[trigger] after[k] < i + 1 by {
                if k < p {
                    assert(after[k] == before[k]);
                } else if k > p {
                    assert(after[k] == before[k - 1]);
                }
            }
        }
        i = i + 1;
    }
    out
}

// ---------------------------------------------------------------------------
// Coin metadata
// ---------------------------------------------------------------------------

/// An `/info` entry as the response carries it.
#[derive(Debug, Clone)]
pub struct InfoEntry {
    pub name: String,
    pub symbol: String,
    pub category: String,
    pub description: String,
    /// The project's websites, most relevant first.
    pub website: Vec<String>,
}

/// Project metadata (from `cryptocurrency/info`).
#[derive(Debug, Clone)]
pub struct CoinInfo {
    pub name: String,
    pub symbol: String,
    pub category: String,
    pub website: Option<String>,
    pub description: String,
}

/// `c` is the metadata of entry `e`: its fields, and its first website.
pub open spec fn info_of(e: InfoEntry, c: CoinInfo) -> bool {
    &&& c.name@ == e.name@
    &&& c.symbol@ == e.symbol@
    &&& c.category@ == e.category@
    &&& c.description@ == e.description@
    &&& match c.website {
        Some(w) => e.website@.len() > 0 && w@ == e.website@[0]@,
        None => e.website@.len() == 0,
    }
}

impl CoinInfo {
    /// The metadata of an `/info` entry.
    pub fn from_entry(entry: &InfoEntry) -> (c: CoinInfo)
        ensures
            info_of(*entry, c),
    {
        let website = if entry.website.len() > 0 {
            Some(entry.website[0].clone())
        } else {
            None
        };
        CoinInfo {
            name: entry.name.clone(),
            symbol: entry.symbol.clone(),
            category: entry.category.clone(),
            website,
            description: entry.description.clone(),
        }
    }
}

/// The index of the first entry keyed `key`.
pub open spec fn entry_for(entries: Seq<(String, InfoEntry)>, key: Seq<char>) -> Option<int> {
    if exists|j: int| 0 <= j < entries.len() && #[trigger] entries[j].0@ == key {
        Some(
            choose|j: int|
                0 <= j < entries.len() && #[trigger] entries[j].0@ == key && forall|k: int|
                    0 <= k < j ==> entries[k].0@ != key,
        )
    } else {
        None
    }
}

/// The `/info` entries of the quotes that have an id and an entry, in the
/// quotes' order.
pub open spec fn infos_in_order(ids: Seq<Option<u64>>, entries: Seq<(String, InfoEntry)>) -> Seq<InfoEntry>
    decreases ids.len(),
{
    if ids.len() == 0 {
        Seq::empty()
    } else {
        let prev = infos_in_order(ids.drop_last(), entries);
        match ids.last() {
            Some(id) => match entry_for(entries, decimal(id as nat)) {
                Some(j) => prev.push(entries[j].1),
                None => prev,
            },
            None => prev,
        }
    }
}

/// The index of the first entry keyed `key`.
fn find_entry(entries: &Vec<(String, InfoEntry)>, key: &str) -> (r: Option<usize>)
    ensures
        match r {
            Some(j) => j < entries@.len() && entry_for(entries@, key@) == Some(j as int),
            None => entry_for(entries@, key@) is None,
        },
{
    let mut j: usize = 0;
    while j < entries.len()
        invariant
            j <= entries@.len(),
            forall|k: int| 0 <= k < j ==> entries@[k].0@ != key@,
        decreases entries.len() - j,
    {
        if str_equal(entries[j].0.as_str(), key) {
            proof {
                let w = choose|x: int|
                    0 <= x < entries@.len() && #[trigger] entries@[x].0@ == key@ && forall|k: int|
                        0 <= k < x ==> entries@[k].0@ != key@;
                assert(0 <= j < entries@.len() && entries@[j as int].0@ == key@ && forall|k: int|
                    0 <= k < j ==> entries@[k].0@ != key@);
                if w < j {
                    assert(entries@[w].0@ != key@);
                }
                if w > j {
                    assert(entries@[j as int].0@ == key@);
                }
            }
            return Some(j);
        }
        j = j + 1;
    }
    None
}

/// The metadata of the quoted coins, in the quotes' (rank) order: one per
/// quote that has an id with an `/info` entry (keyed by the id's decimal
/// text).
pub fn infos_in_rank_order(ids: &Vec<Option<u64>>, entries: &Vec<(String, InfoEntry)>) -> (r: Vec<CoinInfo>)
    ensures
        r@.len() == infos_in_order(ids@, entries@).len(),
        forall|k: int| 0 <= k < r@.len() ==> info_of(infos_in_order(ids@, entries@)[k], #[trigger] r@[k]),
{
    let mut out: Vec<CoinInfo> = Vec::new();
    let mut i: usize = 0;
    while i < ids.len()
        invariant
            i <= ids@.len(),
            out@.len() == infos_in_order(ids@.take(i as int), entries@).len(),
            forall|k: int|
                0 <= k < out@.len() ==> info_of(infos_in_order(ids@.take(i as int), entries@)[k], #[trigger] out@[k]),
        decreases ids.len() - i,
    {
        assert(ids@.take(i + 1).drop_last() =~= ids@.take(i as int));
        if let Some(id) = ids[i] {
            let key = u64_to_string(id);
            if let Some(j) = find_entry(entries, key.as_str()) {
                let c = CoinInfo::from_entry(&entries[j].1);
                out.push(c);
            }
        }
        i = i + 1;
    }
    assert(ids@.take(ids@.len() as int) =~= ids@);
    out
}

// ---------------------------------------------------------------------------
// Conversions and global metrics
// ---------------------------------------------------------------------------

/// The index of the quote keyed `key`, or the error naming what is
/// missing.
pub open spec fn quote_index(keys: Seq<String>, key: Seq<char>, i: int) -> bool {
    0 <= i < keys.len() && keys[i]@ == key && forall|k: int| 0 <= k < i ==> keys[k]@ != key
}

/// Find the quote keyed `key` among `keys`; `what` names it in the error.
fn find_quote(keys: &Vec<String>, key: &str, what: String) -> (r: Result<usize, CmcError>)
    ensures
        match r {
            Ok(i) => quote_index(keys@, key@, i as int),
            Err(e) => (forall|k: int| 0 <= k < keys@.len() ==> keys@[k]@ != key@) && (e matches CmcError::MissingData {
                what: w,
            } && w@ == what@),
        },
{
    let mut i: usize = 0;
    while i < keys.len()
        invariant
            i <= keys@.len(),
            forall|k: int| 0 <= k < i ==> keys@[k]@ != key@,
        decreases keys.len() - i,
    {
        if str_equal(keys[i].as_str(), key) {
            return Ok(i);
        }
        i = i + 1;
    }
    Err(CmcError::MissingData { what })
}

/// The symbol converted from in a price conversion: upper-cased.
pub fn conversion_symbol(symbol: &str) -> (r: String)
    ensures
        r@ == uppercased(symbol@),
{
    to_uppercase(symbol)
}

/// The conversion target of a price conversion: upper-cased.
pub fn conversion_target(to: &str) -> (r: String)
    ensures
        r@ == uppercased(to@),
{
    to_uppercase(to)
}

/// The quote of a price conversion: the index of the upper-cased target
/// among the response's quote keys, or the error naming it.
pub fn conversion_quote(keys: &Vec<String>, to: &str) -> (r: Result<usize, CmcError>)
    ensures
        match r {
            Ok(i) => quote_index(keys@, uppercased(to@), i as int),
            Err(e) => (forall|k: int| 0 <= k < keys@.len() ==> keys@[k]@ != uppercased(to@)) && (
            e matches CmcError::MissingData { what } && what@ == "no quote for conversion target "@ + uppercased(
                to@,
            )),
        },
{
    let key = conversion_target(to);
    let mut what = "no quote for conversion target ".to_owned();
    what.append(key.as_str());
    find_quote(keys, key.as_str(), what)
}

/// The USD quote of the global metrics: its index among the response's
/// quote keys, or the error naming it.
pub fn usd_quote(keys: &Vec<String>) -> (r: Result<usize, CmcError>)
    ensures
        match r {
            Ok(i) => quote_index(keys@, DEFAULT_CONVERT@, i as int),
            Err(e) => (forall|k: int| 0 <= k < keys@.len() ==> keys@[k]@ != DEFAULT_CONVERT@) && (
            e matches CmcError::MissingData { what } && what@ == "global metrics missing USD quote"@),
        },
{
    find_quote(keys, DEFAULT_CONVERT, "global metrics missing USD quote".to_owned())
}

/// The Fear & Greed index, 0 (extreme fear) to 100 (extreme greed).
#[derive(Debug, Clone)]
pub struct FearGreed {
    pub value: u8,
    pub classification: String,
}

impl FearGreed {
    /// The index from its value and classification.
    pub fn new(value: u8, classification: String) -> (f: FearGreed)
        ensures
            f.value == value,
            f.classification == classification,
    {
        FearGreed { value, classification }
    }
}

} // verus!
