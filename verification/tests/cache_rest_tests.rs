use gmocoin::model::Order;
use gmocoin::order_cache::ClientOidMap;
use gmocoin::order_cache::OrderCache;
use gmocoin::order_cache::record_submission;
use gmocoin::rate_limit::Admission;
use gmocoin::rest::RestConfig;
use gmocoin::rest::RestCore;
use gmocoin::sign::HttpMethod;
use gmocoin::sign::generate_signature;
use gmocoin::subs::lex_lt;
use hmac::Mac;

fn order(order_id: u64, status: &str) -> Order {
    Order {
        order_id,
        root_order_id: None,
        symbol: String::from("BTC_JPY"),
        side: String::from("BUY"),
        execution_type: String::from("LIMIT"),
        settle_type: None,
        size: String::from("0.01"),
        executed_size: String::from("0"),
        price: Some(String::from("4200000")),
        losscut_price: None,
        status: String::from(status),
        time_in_force: None,
        timestamp: String::from("t"),
    }
}

#[test]
fn cache_holds_only_latest_record() {
    let mut cache = OrderCache::new();
    cache.upsert(order(42, "ORDERED"));
    cache.upsert(order(42, "EXECUTED"));
    assert_eq!(cache.len(), 1);
    let latest = cache.get(42).expect("record for 42");
    assert_eq!(latest.status, "EXECUTED");
    assert!(cache.get(7).is_none());
}

#[test]
fn cache_keeps_other_ids() {
    let mut cache = OrderCache::new();
    cache.upsert(order(1, "ORDERED"));
    cache.upsert(order(2, "ORDERED"));
    cache.upsert(order(1, "CANCELED"));
    assert_eq!(cache.len(), 2);
    assert_eq!(cache.get(1).unwrap().status, "CANCELED");
    assert_eq!(cache.get(2).unwrap().status, "ORDERED");
}

#[test]
fn submission_records_positive_ids_only() {
    let mut map = ClientOidMap::new();
    assert_eq!(record_submission(&mut map, String::from("c1"), b"123456"), 123456);
    assert_eq!(map.lookup(&String::from("c1")), Some(123456));
    // Unparseable or zero ids record nothing.
    assert_eq!(record_submission(&mut map, String::from("c2"), b"abc"), 0);
    assert_eq!(record_submission(&mut map, String::from("c3"), b"0"), 0);
    assert_eq!(map.lookup(&String::from("c2")), None);
    assert_eq!(map.lookup(&String::from("c3")), None);
    // A reused client id takes the newest venue id.
    assert_eq!(record_submission(&mut map, String::from("c1"), b"777"), 777);
    assert_eq!(map.lookup(&String::from("c1")), Some(777));
}

#[test]
fn private_request_is_fully_formed() {
    let core = RestCore::new(
        RestConfig::new(b"my-key".to_vec(), b"my-secret".to_vec()),
        20000,
        0,
    );
    let req = core.build_private(HttpMethod::Post, b"/v1/order", b"{\"symbol\":\"BTC_JPY\"}", 1700000000000);
    assert_eq!(req.url, b"https://api.coin.z.com/private/v1/order".to_vec());
    assert_eq!(req.api_key, b"my-key".to_vec());
    assert_eq!(req.timestamp_ms, 1700000000000);
    assert_eq!(req.body, b"{\"symbol\":\"BTC_JPY\"}".to_vec());
    let expected = generate_signature(
        b"my-secret",
        1700000000000,
        &HttpMethod::Post,
        b"/v1/order",
        b"{\"symbol\":\"BTC_JPY\"}",
    );
    assert_eq!(req.signature, expected);

    // And against the reference crates end to end.
    let mut mac = <hmac::Hmac<sha2::Sha256>>::new_from_slice(b"my-secret").unwrap();
    mac.update(b"1700000000000POST/v1/order{\"symbol\":\"BTC_JPY\"}");
    assert_eq!(
        String::from_utf8(req.signature).unwrap(),
        hex::encode(mac.finalize().into_bytes())
    );
}

#[test]
fn public_url_is_base_plus_path() {
    let core = RestCore::new(RestConfig::new(Vec::new(), Vec::new()), 20000, 0);
    assert_eq!(
        core.public_url(b"/v1/status"),
        b"https://api.coin.z.com/public/v1/status".to_vec()
    );
}

#[test]
fn traffic_classes_do_not_starve_each_other() {
    // One token per class: spending the POST budget leaves GET admitting.
    let mut core = RestCore::new(RestConfig::new(Vec::new(), Vec::new()), 1000, 0);
    assert_eq!(core.acquire_post(0), Admission::Granted);
    match core.acquire_post(0) {
        Admission::Wait(_) => {}
        Admission::Granted => panic!("POST budget not enforced"),
    }
    assert_eq!(core.acquire_get(0), Admission::Granted);
}

#[test]
fn byte_order_is_lexicographic() {
    assert!(lex_lt(b"", b"a"));
    assert!(lex_lt(b"a", b"b"));
    assert!(lex_lt(b"a", b"ab"));
    assert!(!lex_lt(b"ab", b"a"));
    assert!(!lex_lt(b"a", b"a"));
    assert!(lex_lt(b"abc", b"abd"));
}
