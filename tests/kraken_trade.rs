use kraken_ltp::decimal::amount_of;
use kraken_ltp::kraken_trade::{KrakenBaseError, KrakenTrade, KrakenTradeItem, TradeResultTypes};

fn strings(v: &serde_json::Value) -> Option<Vec<String>> {
    let arr = v.as_array()?;
    let mut out = Vec::new();
    for x in arr {
        out.push(x.as_str()?.to_string());
    }
    Some(out)
}

fn record(v: &serde_json::Value) -> TradeResultTypes {
    if let Some(s) = v.as_str() {
        return TradeResultTypes::String(s.to_string());
    }
    TradeResultTypes::TradeData(KrakenTradeItem {
        ask_price: strings(&v["a"]).unwrap(),
        bid_price: strings(&v["b"]).unwrap(),
        last_trade_close_price: strings(&v["c"]).unwrap(),
        today_trade_volume: strings(&v["v"]).unwrap(),
    })
}

fn trade_from_json(source: &str) -> Result<KrakenTrade, serde_json::Error> {
    let v: serde_json::Value = serde_json::from_str(source)?;
    let error = strings(&v["error"]).unwrap();
    let result = v["result"]
        .as_object()
        .map(|m| m.iter().map(|(k, x)| (k.clone(), record(x))).collect());
    Ok(KrakenTrade { error, result })
}

fn trade_with_close(close: &[&str]) -> KrakenTrade {
    KrakenTrade {
        error: vec![],
        result: Some(vec![(
            "XBTCHF".to_string(),
            TradeResultTypes::TradeData(KrakenTradeItem {
                ask_price: vec!["59038.50000".to_string(), "1".to_string(), "1.000".to_string()],
                bid_price: vec!["59005.80000".to_string(), "1".to_string(), "1.000".to_string()],
                last_trade_close_price: close.iter().map(|s| s.to_string()).collect(),
                today_trade_volume: vec!["18.59019190".to_string(), "22.18713969".to_string()],
            }),
        )]),
    }
}

#[test]
fn test_get_last_price() {
    let source = r#"{"error":[],
        "result":{"XBTCHF":{"a":["59038.50000","1","1.000"],"b":["59005.80000","1","1.000"],
        "c":["59042.10000","0.00010000"],"v":["18.59019190","22.18713969"],
        "p":["58359.33086","58399.49802"],"t":[1420,1641],"l":["57500.00000","57500.00000"],
        "h":["59184.80000","59184.80000"],"o":"58778.00000"}}}"#;
    let result = trade_from_json(source);
    assert!(result.is_ok());
    let price = result.unwrap().get_last_price();
    assert!(price.is_some());
    assert_eq!(price.unwrap(), String::from("59042.10"));
}

#[test]
fn test_get_last_price_empty_value() {
    let source = r#"{"error":[],
        "result":{"XBTCHF":{"a":["59038.50000","1","1.000"],"b":["59005.80000","1","1.000"],
        "c":["","0.00010000"],"v":["18.59019190","22.18713969"],
        "p":["58359.33086","58399.49802"],"t":[1420,1641],"l":["57500.00000","57500.00000"],
        "h":["59184.80000","59184.80000"],"o":"58778.00000"}}}"#;
    let result = trade_from_json(source);
    assert!(result.is_ok());
    let price = result.unwrap().get_last_price();
    assert!(price.is_none());
}

#[test]
fn test_get_last_price_missing_value() {
    let source = r#"{"error":[],
        "result":{"XBTCHF":{"a":["59038.50000","1","1.000"],"b":["59005.80000","1","1.000"],
        "c":["59042.10000"],"v":["18.59019190","22.18713969"],
        "p":["58359.33086","58399.49802"],"t":[1420,1641],"l":["57500.00000","57500.00000"],
        "h":["59184.80000","59184.80000"],"o":"58778.00000"}}}"#;
    let result = trade_from_json(source);
    assert!(result.is_ok());
    let price = result.unwrap().get_last_price();
    assert!(price.is_none());
}

#[test]
fn test_round_decimal() {
    assert_eq!("59042.10".to_string(), amount_of("59042.10000"));
}

#[test]
fn usd_envelope_gives_price() {
    let source = r#"{"error":[],"result":{"XXBTZUSD":{"a":["64612.10000","2","2.000"],"b":["64612.00000","9","9.000"],"c":["64612.10000","0.00323448"],"v":["1971.59678625","2313.55393735"],"p":["63935.29841","63952.35837"],"t":[22298,28161],"l":["62743.50000","62743.50000"],"h":["64915.90000","64915.90000"],"o":"64291.30000"}}}"#;
    let trade = trade_from_json(source).unwrap();
    assert_eq!(trade.get_last_price(), Some("64612.10".to_string()));
}

#[test]
fn close_with_padded_empty_first_level_is_absent() {
    assert_eq!(trade_with_close(&["", " 0.0001"]).get_last_price(), None);
}

#[test]
fn single_close_level_is_absent() {
    assert_eq!(trade_with_close(&["59042.10000"]).get_last_price(), None);
}

#[test]
fn no_close_levels_is_absent() {
    assert_eq!(trade_with_close(&[]).get_last_price(), None);
}

#[test]
fn unparseable_price_becomes_zero() {
    assert_eq!(trade_with_close(&["not-a-number", "1"]).get_last_price(), Some("0.00".to_string()));
}

#[test]
fn extraction_is_repeatable() {
    let t = trade_with_close(&["59042.10000", "0.00010000"]);
    assert_eq!(t.get_last_price(), t.get_last_price());
}

#[test]
fn missing_result_is_absent() {
    let t = KrakenTrade { error: vec![], result: None };
    assert_eq!(t.get_last_price(), None);
}

#[test]
fn empty_result_is_absent() {
    let t = KrakenTrade { error: vec![], result: Some(vec![]) };
    assert_eq!(t.get_last_price(), None);
}

#[test]
fn bare_string_entry_is_absent() {
    let t = trade_from_json(r#"{"error":[],"result":{"last":"1688671200"}}"#).unwrap();
    assert_eq!(t.get_last_price(), None);
}

#[test]
fn only_first_entry_is_read() {
    let mut t = trade_with_close(&["", "1"]);
    let second = trade_with_close(&["5.5", "1"]).result.unwrap().remove(0);
    t.result.as_mut().unwrap().push(second);
    assert_eq!(t.get_last_price(), None);
}

#[test]
fn error_list_is_copied() {
    let t = KrakenTrade { error: vec!["EQuery:Unknown asset pair".to_string()], result: None };
    assert_eq!(t.error(), vec!["EQuery:Unknown asset pair".to_string()]);
}
