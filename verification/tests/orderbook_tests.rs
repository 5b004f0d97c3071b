use gmocoin::orderbook::BookSet;
use gmocoin::orderbook::Level;
use gmocoin::orderbook::OrderBook;

fn lv(price: u64, size: u64) -> Level {
    Level { price, size }
}

#[test]
fn snapshot_sorts_ascending_and_drops_zero() {
    let mut book = OrderBook::new(String::from("BTC_JPY"));
    book.apply_snapshot(&vec![lv(100, 1), lv(101, 0), lv(99, 2)], &vec![lv(98, 3)]);
    assert_eq!(book.asks, vec![lv(99, 2), lv(100, 1)]);
    assert_eq!(book.bids, vec![lv(98, 3)]);
}

#[test]
fn second_snapshot_fully_replaces() {
    let mut book = OrderBook::new(String::from("BTC_JPY"));
    book.apply_snapshot(&vec![lv(100, 1), lv(101, 0), lv(99, 2)], &vec![lv(98, 3)]);
    book.apply_snapshot(&vec![lv(102, 5)], &vec![lv(97, 4), lv(96, 1)]);
    // No stale entries survive.
    assert_eq!(book.asks, vec![lv(102, 5)]);
    assert_eq!(book.bids, vec![lv(97, 4), lv(96, 1)]);
}

#[test]
fn bids_sorted_descending() {
    let mut book = OrderBook::new(String::from("BTC_JPY"));
    book.apply_snapshot(&vec![], &vec![lv(95, 1), lv(98, 2), lv(96, 3)]);
    assert_eq!(book.bids, vec![lv(98, 2), lv(96, 3), lv(95, 1)]);
}

#[test]
fn duplicate_price_later_entry_wins() {
    let mut book = OrderBook::new(String::from("BTC_JPY"));
    book.apply_snapshot(&vec![lv(100, 1), lv(100, 7)], &vec![lv(99, 2), lv(99, 0)]);
    assert_eq!(book.asks, vec![lv(100, 7)]);
    assert_eq!(book.bids, Vec::<Level>::new());
}

#[test]
fn best_ask_and_bid() {
    let mut book = OrderBook::new(String::from("BTC_JPY"));
    assert_eq!(book.best_ask(), None);
    assert_eq!(book.best_bid(), None);
    book.apply_snapshot(&vec![lv(100, 1), lv(99, 2)], &vec![lv(98, 3), lv(97, 1)]);
    assert_eq!(book.best_ask(), Some(lv(99, 2)));
    assert_eq!(book.best_bid(), Some(lv(98, 3)));
}

#[test]
fn snapshot_copy_is_immutable_against_mutation() {
    let mut book = OrderBook::new(String::from("BTC_JPY"));
    book.apply_snapshot(&vec![lv(100, 1)], &vec![]);
    let copy = book.snapshot();
    book.apply_snapshot(&vec![lv(105, 9)], &vec![]);
    assert_eq!(copy.asks, vec![lv(100, 1)]);
    assert_eq!(book.asks, vec![lv(105, 9)]);
}

#[test]
fn bookset_keeps_symbols_apart() {
    let mut set = BookSet::new();
    let btc = String::from("BTC_JPY");
    let eth = String::from("ETH_JPY");
    let copy1 = set.apply_snapshot(&btc, &vec![lv(100, 1)], &vec![]);
    let copy2 = set.apply_snapshot(&eth, &vec![lv(5, 2)], &vec![]);
    assert_eq!(copy1.symbol, "BTC_JPY");
    assert_eq!(copy2.symbol, "ETH_JPY");
    // A snapshot for one symbol leaves the other's book alone.
    let copy3 = set.apply_snapshot(&btc, &vec![lv(101, 3)], &vec![]);
    assert_eq!(copy3.asks, vec![lv(101, 3)]);
    let eth_book = set.get(&eth).expect("ETH book exists");
    assert_eq!(eth_book.asks, vec![lv(5, 2)]);
    assert!(set.get(&String::from("XRP_JPY")).is_none());
}
