//! CoinGecko: the client, its trending-coins URL, and how the trending
//! list is cut and normalized. The 24h change is floating point and stays
//! with the caller, matched to its coin by position.

use crate::case::{to_uppercase, uppercased};
use crate::outside::build_http_client;
use vstd::prelude::*;

verus! {

/// The API's base URL.
pub const API_BASE: &'static str = "https://api.coingecko.com/api/v3";

/// How the client identifies itself (CoinGecko asks clients to).
pub const USER_AGENT: &'static str = "coingecko/0.1.0";

/// Errors returned by the CoinGecko client.
#[derive(Debug)]
#[non_exhaustive]
pub enum GeckoError {
    /// The HTTP request, status, or body could not be handled.
    Http(reqwest::Error),
}

/// The CoinGecko client.
pub struct CoinGeckoClient {
    http: reqwest::Client,
}

/// One trending coin, as far as it is not a price.
#[derive(Debug, Clone)]
pub struct TrendingEntry {
    pub name: String,
    pub symbol: String,
    pub market_cap_rank: Option<u32>,
}

/// `t` is entry `e` as listed: same name and rank, symbol upper-cased.
pub open spec fn listed(e: TrendingEntry, t: TrendingEntry) -> bool {
    t.name@ == e.name@ && t.symbol@ == uppercased(e.symbol@) && t.market_cap_rank == e.market_cap_rank
}

impl CoinGeckoClient {
    /// A client identifying itself as [`USER_AGENT`]; fails when no HTTP
    /// client can be built on this machine.
    pub fn new() -> (r: Result<CoinGeckoClient, GeckoError>) {
        match build_http_client(USER_AGENT) {
            Ok(http) => Ok(CoinGeckoClient { http }),
            Err(e) => Err(GeckoError::Http(e)),
        }
    }

    /// The HTTP client the requests are sent with.
    pub closed spec fn client(&self) -> reqwest::Client {
        self.http
    }

    /// The HTTP client.
    pub fn http(&self) -> (r: &reqwest::Client)
        ensures
            *r == self.client(),
    {
        &self.http
    }

    /// The URL of the trending list.
    pub fn trending_url() -> (r: String)
        ensures
            r@ == API_BASE@ + "/search/trending"@,
    {
        let mut out = API_BASE.to_owned();
        out.append("/search/trending");
        out
    }

    /// The first `limit` trending coins, in the order listed, symbols
    /// upper-cased.
    pub fn trending_from(entries: &Vec<TrendingEntry>, limit: usize) -> (r: Vec<TrendingEntry>)
        ensures
            r@.len() == if limit < entries@.len() {
                limit as int
            } else {
                entries@.len() as int
            },
            forall|k: int| 0 <= k < r@.len() ==> listed(entries@[k], #[trigger] r@[k]),
    {
        let mut out: Vec<TrendingEntry> = Vec::new();
        let mut i: usize = 0;
        while i < entries.len() && i < limit
            invariant
                i <= entries@.len(),
                i <= limit,
                out@.len() == i,
                forall|k: int| 0 <= k < i ==> listed(entries@[k], #[trigger] out@[k]),
            decreases entries.len() - i,
        {
            let e = &entries[i];
            out.push(
                TrendingEntry {
                    name: e.name.clone(),
                    symbol: to_uppercase(e.symbol.as_str()),
                    market_cap_rank: e.market_cap_rank,
                },
            );
            i = i + 1;
        }
        out
    }
}

} // verus!
