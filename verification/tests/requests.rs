use wex::params::Params;
use wex::text::{i64_to_decimal, to_hex, u64_to_decimal};
use wex::{
    active_orders_params, cancel_order_params, coin_deposit_address_params, get_info_params,
    order_info_params, private_request, public_url, ticker_path, trade_api_url,
    trade_history_params, trade_params, trans_history_params, Account, HistoryQuery, OrderType,
    TradeHistorySorting,
};

fn body(p: &Params) -> String {
    p.encode()
}

#[test]
fn decimal_unsigned() {
    assert_eq!(u64_to_decimal(0), "0");
    assert_eq!(u64_to_decimal(7), "7");
    assert_eq!(u64_to_decimal(10), "10");
    assert_eq!(u64_to_decimal(1500000000), "1500000000");
    assert_eq!(u64_to_decimal(u64::MAX), u64::MAX.to_string());
}

#[test]
fn decimal_signed() {
    assert_eq!(i64_to_decimal(0), "0");
    assert_eq!(i64_to_decimal(-42), "-42");
    assert_eq!(i64_to_decimal(42), "42");
    assert_eq!(i64_to_decimal(i64::MIN), i64::MIN.to_string());
    assert_eq!(i64_to_decimal(i64::MAX), i64::MAX.to_string());
}

#[test]
fn hex_two_lowercase_digits_per_byte() {
    assert_eq!(to_hex(&[]), "");
    assert_eq!(to_hex(&[0x00, 0x0f, 0x1a, 0xff]), "000f1aff");
    let all: Vec<u8> = (0..=255u8).collect();
    let expected: String = all.iter().map(|b| format!("{:02x}", b)).collect();
    assert_eq!(to_hex(&all), expected);
}

#[test]
fn params_insert_replaces_in_place() {
    let mut p = Params::new();
    assert_eq!(body(&p), "");
    p.insert("a".to_string(), "1".to_string());
    assert_eq!(body(&p), "a=1");
    p.insert("b".to_string(), "2".to_string());
    assert_eq!(body(&p), "a=1&b=2");
    p.insert("a".to_string(), "3".to_string());
    assert_eq!(body(&p), "a=3&b=2");
}

#[test]
fn params_values_are_not_escaped() {
    let mut p = Params::new();
    p.insert("pair".to_string(), "a b&c".to_string());
    assert_eq!(body(&p), "pair=a b&c");
}

#[test]
fn urls() {
    assert_eq!(public_url("info"), "https://wex.nz/api/3/info");
    assert_eq!(ticker_path("btc_usd-ltc_usd"), "ticker/btc_usd-ltc_usd");
    assert_eq!(public_url(&ticker_path("btc_usd")), "https://wex.nz/api/3/ticker/btc_usd");
    assert_eq!(trade_api_url(), "https://wex.nz/tapi");
}

#[test]
fn get_info_parameters() {
    assert_eq!(body(&get_info_params()), "method=getInfo");
}

#[test]
fn trade_parameters() {
    let p = trade_params("btc_usd", OrderType::Buy, "0.1", "1.5");
    assert_eq!(body(&p), "method=Trade&pair=btc_usd&type=buy&rate=0.1&amount=1.5");
    let p = trade_params("ltc_btc", OrderType::Sell, "1", "2");
    assert_eq!(body(&p), "method=Trade&pair=ltc_btc&type=sell&rate=1&amount=2");
}

#[test]
fn active_orders_parameters() {
    assert_eq!(body(&active_orders_params(None)), "method=ActiveOrders");
    assert_eq!(body(&active_orders_params(Some("btc_usd"))), "method=ActiveOrders&pair=btc_usd");
}

#[test]
fn order_parameters() {
    assert_eq!(body(&order_info_params("343152")), "method=OrderInfo&order_id=343152");
    assert_eq!(body(&cancel_order_params("343154")), "method=CancelOrder&order_id=343154");
    assert_eq!(
        body(&coin_deposit_address_params("BTC")),
        "method=CoinDepositAddress&coinName=BTC"
    );
}

fn empty_query() -> HistoryQuery {
    HistoryQuery {
        from: None,
        count: None,
        from_id: None,
        end_id: None,
        order: None,
        since: None,
        end: None,
        pair: None,
    }
}

#[test]
fn history_parameters() {
    assert_eq!(body(&trade_history_params(None)), "method=TradeHistory");
    assert_eq!(body(&trans_history_params(None)), "method=TransHistory");
    assert_eq!(body(&trade_history_params(Some(empty_query()))), "method=TradeHistory");
    let full = HistoryQuery {
        from: Some(1),
        count: Some(2),
        from_id: Some(3),
        end_id: Some(4),
        order: Some(TradeHistorySorting::Asc),
        since: Some(-5),
        end: Some(1500000000),
        pair: Some("ltc_btc".to_string()),
    };
    assert_eq!(
        body(&trade_history_params(Some(full))),
        "method=TradeHistory&from=1&count=2&from_id=3&end_id=4&order=asc&since=-5&end=1500000000&pair=ltc_btc"
    );
    let mut some = empty_query();
    some.count = Some(1000);
    some.order = Some(TradeHistorySorting::Desc);
    assert_eq!(
        body(&trans_history_params(Some(some))),
        "method=TransHistory&count=1000&order=desc"
    );
}

#[test]
fn signed_request_of_get_info() {
    let account = Account { key: "KEY".to_string(), secret: "SECRET".to_string() };
    let mut p = get_info_params();
    let req = private_request(&account, &mut p, 1500000000);
    assert_eq!(req.body, "method=getInfo&nonce=1500000000");
    assert_eq!(body(&p), "method=getInfo&nonce=1500000000");
    assert_eq!(req.headers.len(), 3);
    assert_eq!(req.headers[0], "Content-Type: application/x-www-form-urlencoded");
    assert_eq!(req.headers[1], "Key: KEY");
    assert_eq!(
        req.headers[2],
        "Sign: 3419a502c9f4cdbfcfb7c977eb23a20246562023e5ef7fa71567ddd5c1ee9ff04b58a21c3a2291f4aafaade6f15057351a015b24684cda0fd89aa1971d02d0f1"
    );
}

#[test]
fn signed_request_of_trade() {
    let account = Account { key: "pub".to_string(), secret: "k".to_string() };
    let mut p = trade_params("btc_usd", OrderType::Sell, "0.1", "2");
    let req = private_request(&account, &mut p, 7);
    assert_eq!(req.body, "method=Trade&pair=btc_usd&type=sell&rate=0.1&amount=2&nonce=7");
    assert_eq!(
        req.headers[2],
        "Sign: a9f082b71479c0a448adecce44e1540b85e846565fe4c06046ae9983c1ffd3704fbcfcb8d52d38a0fe6b4373f39a0cd8bcfc0c9127c001d985ae925c160ceccc"
    );
    assert_eq!(req.headers[2].len(), "Sign: ".len() + 128);
}

#[test]
fn signed_request_replaces_an_earlier_nonce() {
    let account = Account { key: "K".to_string(), secret: "S".to_string() };
    let mut p = Params::new();
    p.insert("nonce".to_string(), "1".to_string());
    p.insert("method".to_string(), "getInfo".to_string());
    let req = private_request(&account, &mut p, 2);
    assert_eq!(req.body, "nonce=2&method=getInfo");
}

fn decode(body: &str) -> Vec<(String, String)> {
    if body.is_empty() {
        return Vec::new();
    }
    body.split('&')
        .map(|piece| match piece.find('=') {
            Some(i) => (piece[..i].to_string(), piece[i + 1..].to_string()),
            None => (piece.to_string(), String::new()),
        })
        .collect()
}

#[test]
fn signed_body_reads_back_as_the_parameters() {
    let account = Account { key: "K".to_string(), secret: "S".to_string() };
    let mut p = trade_params("btc_usd", OrderType::Buy, "1=2", "3");
    let req = private_request(&account, &mut p, 1500000001);
    let pairs: Vec<(String, String)> = vec![
        ("method".to_string(), "Trade".to_string()),
        ("pair".to_string(), "btc_usd".to_string()),
        ("type".to_string(), "buy".to_string()),
        ("rate".to_string(), "1=2".to_string()),
        ("amount".to_string(), "3".to_string()),
        ("nonce".to_string(), "1500000001".to_string()),
    ];
    assert_eq!(decode(&req.body), pairs);
}

#[test]
fn nonces_keep_the_clock_order() {
    let account = Account { key: "K".to_string(), secret: "S".to_string() };
    let mut nonces = Vec::new();
    for t in [9u64, 10, 10, 99, 100, 1500000000] {
        let mut p = get_info_params();
        let req = private_request(&account, &mut p, t);
        let (_, n) = decode(&req.body).pop().unwrap();
        nonces.push(n.parse::<u64>().unwrap());
    }
    assert_eq!(nonces, vec![9, 10, 10, 99, 100, 1500000000]);
    assert!(nonces.windows(2).all(|w| w[0] <= w[1]));
}
