use wex::{OrderStatus, OrderType, TradeHistorySorting, TransactionStatus, TransactionType, WexResult};

#[test]
fn successful_envelope_gives_payload() {
    let r = WexResult { success: 1, result: Some(42u32), error: None };
    assert_eq!(r.into_result(), Ok(42));
}

#[test]
fn failed_envelope_gives_error() {
    let r: WexResult<u32> = WexResult { success: 0, result: None, error: Some("invalid sign".to_string()) };
    assert_eq!(r.into_result(), Err("invalid sign".to_string()));
}

#[test]
fn failed_envelope_ignores_payload() {
    let r = WexResult { success: 0, result: Some(1u32), error: Some("bad".to_string()) };
    assert_eq!(r.into_result(), Err("bad".to_string()));
}

#[test]
fn wire_names() {
    assert_eq!(OrderType::Buy.as_str(), "buy");
    assert_eq!(OrderType::Sell.as_str(), "sell");
    assert_eq!(TradeHistorySorting::Asc.as_str(), "asc");
    assert_eq!(TradeHistorySorting::Desc.as_str(), "desc");
}

#[test]
fn status_codes() {
    assert_eq!(OrderStatus::Active.code(), 0);
    assert_eq!(OrderStatus::ExecutedOrder.code(), 1);
    assert_eq!(OrderStatus::Canceled.code(), 2);
    assert_eq!(OrderStatus::PartiallyExecuted.code(), 3);
    assert_eq!(TransactionType::Deposit.code(), 1);
    assert_eq!(TransactionType::Withdrawl.code(), 2);
    assert_eq!(TransactionType::Credit.code(), 4);
    assert_eq!(TransactionType::Debit.code(), 5);
    assert_eq!(TransactionStatus::Canceled.code(), 0);
    assert_eq!(TransactionStatus::Waiting.code(), 1);
    assert_eq!(TransactionStatus::Successful.code(), 2);
    assert_eq!(TransactionStatus::NotConfirmed.code(), 3);
}

#[test]
fn codes_round_trip() {
    for s in [OrderStatus::Active, OrderStatus::ExecutedOrder, OrderStatus::Canceled, OrderStatus::PartiallyExecuted] {
        assert_eq!(OrderStatus::from_code(s.code()), Some(s));
    }
    for t in [TransactionType::Deposit, TransactionType::Withdrawl, TransactionType::Credit, TransactionType::Debit] {
        assert_eq!(TransactionType::from_code(t.code()), Some(t));
    }
    for u in [TransactionStatus::Canceled, TransactionStatus::Waiting, TransactionStatus::Successful, TransactionStatus::NotConfirmed] {
        assert_eq!(TransactionStatus::from_code(u.code()), Some(u));
    }
}

#[test]
fn unknown_codes() {
    assert_eq!(OrderStatus::from_code(4), None);
    assert_eq!(TransactionType::from_code(0), None);
    assert_eq!(TransactionType::from_code(3), None);
    assert_eq!(TransactionStatus::from_code(255), None);
}
