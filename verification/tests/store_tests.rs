use rust_storage_bench::store::{bytes_cmp, Engine, KeyOrder};

fn k(s: &str) -> Vec<u8> {
    s.as_bytes().to_vec()
}

#[test]
fn bytes_cmp_orders_lexicographically() {
    assert!(matches!(bytes_cmp(&k("a"), &k("b")), KeyOrder::Less));
    assert!(matches!(bytes_cmp(&k("b"), &k("a")), KeyOrder::Greater));
    assert!(matches!(bytes_cmp(&k("abc"), &k("abc")), KeyOrder::Equal));
    assert!(matches!(bytes_cmp(&k("ab"), &k("abc")), KeyOrder::Less));
    assert!(matches!(bytes_cmp(&k("abd"), &k("abc")), KeyOrder::Greater));
    assert!(matches!(bytes_cmp(&k(""), &k("a")), KeyOrder::Less));
}

#[test]
fn put_get_round_trip() {
    let mut e = Engine::new();
    e.put(k("alpha"), k("one"), false);
    e.put(k("beta"), k("two"), false);
    assert_eq!(e.get(&k("alpha")), Some(k("one")));
    assert_eq!(e.get(&k("beta")), Some(k("two")));
    assert_eq!(e.get(&k("gamma")), None);
}

#[test]
fn put_overwrites_existing_key() {
    let mut e = Engine::new();
    e.put(k("key"), k("old"), false);
    e.put(k("key"), k("new"), false);
    assert_eq!(e.get(&k("key")), Some(k("new")));
}

#[test]
fn scan_returns_ascending_keys_from_start() {
    let mut e = Engine::new();
    // inserted out of order on purpose
    for name in ["user00:07", "user00:03", "user00:09", "user00:01", "user00:05"] {
        e.put(k(name), k("v"), false);
    }
    let hits = e.scan(&k("user00:03"), 10);
    let keys: Vec<Vec<u8>> = hits.iter().map(|entry| entry.0.clone()).collect();
    assert_eq!(
        keys,
        vec![k("user00:03"), k("user00:05"), k("user00:07"), k("user00:09")]
    );
    for w in keys.windows(2) {
        assert!(w[0] < w[1]);
    }
    assert!(keys.iter().all(|key| key.as_slice() >= b"user00:03".as_slice()));
}

#[test]
fn scan_honors_limit() {
    let mut e = Engine::new();
    for i in 0..15u8 {
        e.put(vec![i], vec![i], false);
    }
    let hits = e.scan(&vec![2u8], 10);
    assert_eq!(hits.len(), 10);
    assert_eq!(hits[0].0, vec![2u8]);
    assert_eq!(hits[9].0, vec![11u8]);

    // fewer than limit only when the keyspace past the start is exhausted
    let tail = e.scan(&vec![12u8], 10);
    assert_eq!(tail.len(), 3);
}

#[test]
fn scan_of_empty_region_is_empty() {
    let mut e = Engine::new();
    e.put(k("a"), k("v"), false);
    assert!(e.scan(&k("z"), 10).is_empty());
}

#[test]
fn durable_write_survives_restart() {
    let mut e = Engine::new();
    // several buffered writes, then one durable write
    for i in 0..5u8 {
        e.put(vec![i], vec![i], false);
    }
    e.put(k("durable"), k("kept"), true);
    e.restart();
    assert_eq!(e.get(&k("durable")), Some(k("kept")));
    // the durable commit also carried the buffered writes with it
    for i in 0..5u8 {
        assert_eq!(e.get(&vec![i]), Some(vec![i]));
    }
}

#[test]
fn buffered_writes_after_last_sync_are_lost_on_restart() {
    let mut e = Engine::new();
    e.put(k("synced"), k("yes"), true);
    e.put(k("buffered"), k("no"), false);
    e.restart();
    assert_eq!(e.get(&k("synced")), Some(k("yes")));
    assert_eq!(e.get(&k("buffered")), None);
}

#[test]
fn durable_scenario_function() {
    let mut e = Engine::new();
    for i in 0..7u8 {
        e.put(vec![i], vec![i], false);
    }
    let got = e.durable_write_survives(k("key"), k("value"));
    assert_eq!(got, Some(k("value")));
    // the record is really in the restarted store, not just in the result
    assert_eq!(e.get(&k("key")), Some(k("value")));
}
