use kraken_ltp::errors::Error;
use kraken_ltp::kraken_trade::KrakenTrade;
use kraken_ltp::rest::{join_errors, strip_pair_separator, Fetched, RestClient};

#[test]
fn url_strips_separator() {
    let client = RestClient::new();
    assert_eq!(
        client.ticker_url("BTC/USD"),
        "https://api.kraken.com/0/public/Ticker?pair=BTCUSD"
    );
}

#[test]
fn url_of_pair_without_separator() {
    let client = RestClient::default();
    assert_eq!(
        client.ticker_url("QQUSD"),
        "https://api.kraken.com/0/public/Ticker?pair=QQUSD"
    );
}

#[test]
fn separator_removed_everywhere() {
    assert_eq!(strip_pair_separator("/A/B/"), "AB");
    assert_eq!(strip_pair_separator(""), "");
}

#[test]
fn unreachable_host_is_connect_error() {
    let r = RestClient::new().settle(Fetched::Unreachable("dns error".to_string()));
    assert!(matches!(r, Err(Error::Connect(ref m)) if m == "dns error"));
}

#[test]
fn unreadable_body_is_fetch_failure() {
    let r = RestClient::new().settle(Fetched::Unreadable("expected value".to_string()));
    assert!(matches!(r, Err(Error::FetchFailed(ref m)) if m == "expected value"));
}

#[test]
fn upstream_errors_are_incorrect_response() {
    let t = KrakenTrade {
        error: vec!["EQuery:Unknown asset pair".to_string(), "EGeneral:Invalid".to_string()],
        result: None,
    };
    let r = RestClient::new().settle(Fetched::Received(t));
    assert!(matches!(
        r,
        Err(Error::IncorrectResponse(ref m)) if m == "EQuery:Unknown asset pair, EGeneral:Invalid"
    ));
}

#[test]
fn clean_envelope_is_success() {
    let t = KrakenTrade { error: vec![], result: None };
    let r = RestClient::new().settle(Fetched::Received(t));
    assert!(matches!(r, Ok(KrakenTrade { ref error, result: None }) if error.is_empty()));
}

#[test]
fn errors_joined() {
    assert_eq!(join_errors(&vec![]), "");
    assert_eq!(join_errors(&vec!["a".to_string()]), "a");
    assert_eq!(join_errors(&vec!["a".to_string(), "b".to_string(), "c".to_string()]), "a, b, c");
}

#[test]
fn error_messages() {
    assert_eq!(Error::Connect("x".to_string()).message(), "Connect is failed: x");
    assert_eq!(Error::IncorrectResponse("y".to_string()).message(), "Response with error: y");
    assert_eq!(Error::FetchFailed("z".to_string()).message(), "Fetching is failed: z");
}
