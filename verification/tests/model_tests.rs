use gmocoin::model::Depth;
use gmocoin::model::DepthEntry;
use gmocoin::model::SymbolInfo;
use gmocoin::model::Ticker;
use gmocoin::model::Trade;

#[test]
fn ticker_constructor_keeps_fields() {
    let t = Ticker::new(
        String::from("101"),
        String::from("100"),
        String::from("110"),
        String::from("90"),
        String::from("100"),
        String::from("BTC_JPY"),
        String::from("2024-01-01T00:00:00.000Z"),
        String::from("12.5"),
    );
    assert_eq!(t.ask, "101");
    assert_eq!(t.bid, "100");
    assert_eq!(t.symbol, "BTC_JPY");
    assert_eq!(t.volume, "12.5");
}

#[test]
fn depth_constructor_keeps_fields() {
    let d = Depth::new(
        vec![DepthEntry { price: String::from("101"), size: String::from("1") }],
        vec![DepthEntry { price: String::from("99"), size: String::from("2") }],
        String::from("BTC_JPY"),
        String::from("t"),
    );
    assert_eq!(d.asks.len(), 1);
    assert_eq!(d.asks[0].price, "101");
    assert_eq!(d.bids[0].size, "2");
    assert_eq!(d.symbol, "BTC_JPY");
}

#[test]
fn trade_constructor_keeps_fields() {
    let t = Trade::new(
        String::from("100"),
        String::from("BUY"),
        String::from("0.1"),
        String::from("t"),
        None,
    );
    assert_eq!(t.price, "100");
    assert_eq!(t.side, "BUY");
    assert!(t.symbol.is_none());
}

#[test]
fn symbol_info_starts_bare() {
    let s = SymbolInfo::new(String::from("BTC_JPY"));
    assert_eq!(s.symbol, "BTC_JPY");
    assert!(s.tick_size.is_none());
    assert!(s.min_order_size.is_none());
    assert!(s.taker_fee.is_none());
}
