use telebots::cmc::{
    conversion_symbol, conversion_target,
    conversion_quote, ensure_ok, info_ids_param, infos_in_rank_order, rank_order, symbols_param, usd_quote,
    ApiStatus, CmcClient, CmcError, CoinInfo, InfoEntry,
};

fn entry(name: &str, websites: &[&str]) -> InfoEntry {
    InfoEntry {
        name: name.to_string(),
        symbol: name.to_uppercase(),
        category: "coin".to_string(),
        description: format!("{name} is a coin"),
        website: websites.iter().map(|w| w.to_string()).collect(),
    }
}

#[test]
fn status_envelope_is_checked() {
    assert!(ensure_ok(ApiStatus { error_code: 0, error_message: None }).is_ok());
    match ensure_ok(ApiStatus { error_code: 1002, error_message: Some("API key missing.".into()) }) {
        Err(CmcError::Api { code, message }) => {
            assert_eq!(code, 1002);
            assert_eq!(message, "API key missing.");
        }
        _ => panic!("expected an API error"),
    }
    match ensure_ok(ApiStatus { error_code: 500, error_message: None }) {
        Err(CmcError::Api { message, .. }) => assert_eq!(message, ""),
        _ => panic!("expected an API error"),
    }
}

#[test]
fn request_parameters() {
    assert_eq!(symbols_param(&vec!["BTC".into(), "ETH".into(), "SOL".into()]), "BTC,ETH,SOL");
    assert_eq!(symbols_param(&Vec::new()), "");
    assert_eq!(info_ids_param(&vec![Some(1), None, Some(1027)]).unwrap(), "1,1027");
    assert!(matches!(
        info_ids_param(&vec![None, None]),
        Err(CmcError::MissingData { what }) if what == "no price data for the given symbols"
    ));
    assert_eq!(
        CmcClient::url("/v1/cryptocurrency/info"),
        "https://pro-api.coinmarketcap.com/v1/cryptocurrency/info"
    );
}

#[test]
fn quotes_sort_by_rank_stably_with_unranked_last() {
    let ranks = vec![Some(3), None, Some(1), Some(3), None, Some(2)];
    assert_eq!(rank_order(&ranks), vec![2, 5, 0, 3, 1, 4]);
    assert!(rank_order(&Vec::new()).is_empty());
}

#[test]
fn info_keeps_the_rank_order() {
    let ids = vec![Some(1027), Some(1), None, Some(5)];
    let entries = vec![
        ("1".to_string(), entry("bitcoin", &["https://bitcoin.org", "https://x"])),
        ("1027".to_string(), entry("ethereum", &[])),
    ];
    let infos: Vec<CoinInfo> = infos_in_rank_order(&ids, &entries);
    let names: Vec<&str> = infos.iter().map(|c| c.name.as_str()).collect();
    assert_eq!(names, ["ethereum", "bitcoin"]);
    assert_eq!(infos[0].website, None);
    assert_eq!(infos[1].website.as_deref(), Some("https://bitcoin.org"));
    assert_eq!(infos[1].symbol, "BITCOIN");
}

#[test]
fn conversion_and_usd_quotes() {
    let keys = vec!["EUR".to_string(), "USD".to_string()];
    assert_eq!(conversion_quote(&keys, "usd").unwrap(), 1);
    assert!(matches!(
        conversion_quote(&keys, "gbp"),
        Err(CmcError::MissingData { what }) if what == "no quote for conversion target GBP"
    ));
    assert_eq!(usd_quote(&keys).unwrap(), 1);
    assert!(matches!(
        usd_quote(&vec!["EUR".to_string()]),
        Err(CmcError::MissingData { what }) if what == "global metrics missing USD quote"
    ));
}

#[test]
fn client_keeps_its_key() {
    let client = CmcClient::new("test-key".to_string()).unwrap();
    assert_eq!(client.key(), "test-key");
}

#[test]
fn conversion_parameters_are_upper_cased() {
    assert_eq!(conversion_symbol("btc"), "BTC");
    assert_eq!(conversion_target("usd"), "USD");
}

#[test]
fn cmc_error_messages() {
    let api = CmcError::Api { code: 1002, message: "API key missing.".into() };
    assert_eq!(api.message(), "CoinMarketCap error 1002: API key missing.");
    let negative = CmcError::Api { code: -1, message: "odd".into() };
    assert_eq!(negative.message(), "CoinMarketCap error -1: odd");
    assert_eq!(CmcError::NoSymbols.message(), "no symbols provided");
    match info_ids_param(&vec![None]) {
        Err(e) => assert_eq!(e.message(), "no price data for the given symbols"),
        Ok(_) => panic!("expected an error"),
    }
}
