use telebots::coingecko::{CoinGeckoClient, TrendingEntry};

fn entry(name: &str, symbol: &str, rank: Option<u32>) -> TrendingEntry {
    TrendingEntry { name: name.to_string(), symbol: symbol.to_string(), market_cap_rank: rank }
}

#[test]
fn trending_takes_the_first_coins_and_upper_cases_symbols() {
    let entries = vec![entry("Pepe", "pepe", Some(30)), entry("Sui", "sui", None), entry("Ton", "ton", Some(9))];
    let top = CoinGeckoClient::trending_from(&entries, 2);
    assert_eq!(top.len(), 2);
    assert_eq!(top[0].symbol, "PEPE");
    assert_eq!(top[0].name, "Pepe");
    assert_eq!(top[0].market_cap_rank, Some(30));
    assert_eq!(top[1].symbol, "SUI");
    assert_eq!(CoinGeckoClient::trending_from(&entries, 10).len(), 3);
    assert!(CoinGeckoClient::trending_from(&entries, 0).is_empty());
}

#[test]
fn trending_url() {
    assert_eq!(CoinGeckoClient::trending_url(), "https://api.coingecko.com/api/v3/search/trending");
    assert!(CoinGeckoClient::new().is_ok());
}
