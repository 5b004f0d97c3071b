use gmocoin::messages::build_subscribe_msg;
use gmocoin::messages::cancel_bulk_body;
use gmocoin::messages::cancel_order_body;
use gmocoin::messages::cancel_orders_body;
use gmocoin::messages::change_order_body;
use gmocoin::messages::close_bulk_body;
use gmocoin::messages::close_order_body;
use gmocoin::messages::losscut_body;
use gmocoin::messages::order_body;
use gmocoin::messages::token_body;

fn s(v: Vec<u8>) -> String {
    String::from_utf8(v).unwrap()
}

#[test]
fn subscribe_msg_with_and_without_option() {
    assert_eq!(
        s(build_subscribe_msg(b"ticker", b"BTC_JPY", b"")),
        "{\"channel\":\"ticker\",\"command\":\"subscribe\",\"symbol\":\"BTC_JPY\"}"
    );
    assert_eq!(
        s(build_subscribe_msg(b"trades", b"BTC_JPY", b"TAKER_ONLY")),
        "{\"channel\":\"trades\",\"command\":\"subscribe\",\"option\":\"TAKER_ONLY\",\"symbol\":\"BTC_JPY\"}"
    );
    // Channel-only form, as the private stream subscribes.
    assert_eq!(
        s(build_subscribe_msg(b"orderEvents", b"", b"")),
        "{\"channel\":\"orderEvents\",\"command\":\"subscribe\"}"
    );
}

#[test]
fn escaping_in_string_values() {
    assert_eq!(
        s(build_subscribe_msg(b"t\"x", b"A\\B", b"")),
        "{\"channel\":\"t\\\"x\",\"command\":\"subscribe\",\"symbol\":\"A\\\\B\"}"
    );
    // Control bytes become \u00XX.
    assert_eq!(
        s(build_subscribe_msg(b"a\nb", b"c", b"")),
        "{\"channel\":\"a\\u000ab\",\"command\":\"subscribe\",\"symbol\":\"c\"}"
    );
}

#[test]
fn order_body_minimal() {
    assert_eq!(
        s(order_body(b"BTC_JPY", b"BUY", b"MARKET", b"0.01", None, None, None, None, None)),
        "{\"executionType\":\"MARKET\",\"side\":\"BUY\",\"size\":\"0.01\",\"symbol\":\"BTC_JPY\"}"
    );
}

#[test]
fn order_body_full() {
    assert_eq!(
        s(order_body(
            b"BTC_JPY",
            b"SELL",
            b"LIMIT",
            b"0.02",
            Some(b"4200000"),
            Some(b"FAS"),
            Some(true),
            Some(b"4000000"),
            Some(b"CLOSE"),
        )),
        "{\"cancelBefore\":true,\"executionType\":\"LIMIT\",\"losscutPrice\":\"4000000\",\
         \"price\":\"4200000\",\"settleType\":\"CLOSE\",\"side\":\"SELL\",\"size\":\"0.02\",\
         \"symbol\":\"BTC_JPY\",\"timeInForce\":\"FAS\"}"
    );
}

#[test]
fn change_and_cancel_bodies() {
    assert_eq!(
        s(change_order_body(42, b"100", None)),
        "{\"orderId\":42,\"price\":\"100\"}"
    );
    assert_eq!(
        s(change_order_body(42, b"100", Some(b"90"))),
        "{\"losscutPrice\":\"90\",\"orderId\":42,\"price\":\"100\"}"
    );
    assert_eq!(s(cancel_order_body(7)), "{\"orderId\":7}");
    assert_eq!(
        s(cancel_orders_body(&vec![1, 2, 3])),
        "{\"orderIds\":[1,2,3]}"
    );
    assert_eq!(s(cancel_orders_body(&Vec::new())), "{\"orderIds\":[]}");
}

#[test]
fn bulk_cancel_body() {
    assert_eq!(
        s(cancel_bulk_body(&vec![b"BTC_JPY".to_vec(), b"ETH_JPY".to_vec()], None)),
        "{\"symbols\":[\"BTC_JPY\",\"ETH_JPY\"]}"
    );
    assert_eq!(
        s(cancel_bulk_body(&vec![b"BTC_JPY".to_vec()], Some(b"BUY"))),
        "{\"side\":\"BUY\",\"symbols\":[\"BTC_JPY\"]}"
    );
}

#[test]
fn token_and_losscut_bodies() {
    assert_eq!(s(token_body(b"tok123")), "{\"token\":\"tok123\"}");
    assert_eq!(
        s(losscut_body(11, b"3990000")),
        "{\"losscutPrice\":\"3990000\",\"positionId\":11}"
    );
}

#[test]
fn close_order_bodies() {
    assert_eq!(
        s(close_order_body(
            b"BTC_JPY",
            b"SELL",
            b"MARKET",
            &vec![(11, b"0.1".to_vec()), (12, b"0.2".to_vec())],
            None,
            None,
        )),
        "{\"executionType\":\"MARKET\",\"settlePosition\":[\
         {\"positionId\":11,\"size\":\"0.1\"},{\"positionId\":12,\"size\":\"0.2\"}],\
         \"side\":\"SELL\",\"symbol\":\"BTC_JPY\"}"
    );
    assert_eq!(
        s(close_bulk_body(b"BTC_JPY", b"BUY", b"LIMIT", b"0.5", Some(b"4100000"), Some(b"FAK"))),
        "{\"executionType\":\"LIMIT\",\"price\":\"4100000\",\"side\":\"BUY\",\"size\":\"0.5\",\
         \"symbol\":\"BTC_JPY\",\"timeInForce\":\"FAK\"}"
    );
}

#[test]
fn bodies_match_reference_serialization() {
    // The wire format the venue sees: serde_json's object rendering of
    // the same fields (sorted keys) must coincide byte for byte.
    let v: serde_json::Value = serde_json::from_str(
        "{\"symbol\":\"BTC_JPY\",\"side\":\"BUY\",\"executionType\":\"MARKET\",\"size\":\"0.01\"}",
    )
    .unwrap();
    let expected = v.to_string();
    assert_eq!(
        s(order_body(b"BTC_JPY", b"BUY", b"MARKET", b"0.01", None, None, None, None, None)),
        expected
    );
}
