use bucket_limiter::{
    build_entries, decimal_string, decode_reply, outcome_result, validate_request, BatchOutcome,
    MemoryStore, ProtocolEntry, RedisConsumeError, redis_url, RedisLimiterBuilder,
};

fn entry(key: &str, interval_ms: u64, capacity: u32, n: u32) -> ProtocolEntry {
    ProtocolEntry { storage_key: key.to_string(), interval_ms, capacity, n, expire_seconds: 15 }
}

#[test]
fn decimal_rendering() {
    assert_eq!(decimal_string(0), "0");
    assert_eq!(decimal_string(7), "7");
    assert_eq!(decimal_string(10), "10");
    assert_eq!(decimal_string(1234567890), "1234567890");
    assert_eq!(decimal_string(u64::MAX), "18446744073709551615");
}

#[test]
fn entries_carry_protocol_arguments() {
    let es = build_entries("limiter", &vec![("a", 2, 3, 1), ("b", 10, 7, 4)]).unwrap();
    assert_eq!(es.len(), 2);
    assert_eq!(es[0].storage_key, "limiter:a:2");
    assert_eq!(es[0].interval_ms, 2000);
    assert_eq!(es[0].capacity, 3);
    assert_eq!(es[0].n, 1);
    assert_eq!(es[0].expire_seconds, 19);
    assert_eq!(es[1].storage_key, "limiter:b:10");
    assert_eq!(es[1].interval_ms, 10000);
    assert_eq!(es[1].expire_seconds, 35);
}

#[test]
fn entries_reject_first_bad_request() {
    match build_entries("limiter", &vec![("a", 2, 3, 1), ("b", 0, 7, 4), ("", 1, 1, 1)]) {
        Err(RedisConsumeError::BadArg(m)) => assert_eq!(m, "[BadArg]: key=b, interval=0, capacity=7, n=4"),
        e => panic!("unexpected result: {:?}", e),
    }
    assert!(validate_request(("a", 1, 1, 1)).is_ok());
}

#[test]
fn reply_admitted() {
    assert!(decode_reply(Ok((String::new(), 0, 0, 0, 0))).is_ok());
    assert!(decode_reply(Ok(("anything".to_string(), 0, 0, 0, 0))).is_ok());
}

#[test]
fn reply_denied() {
    match decode_reply(Ok(("limiter:a:2".to_string(), 2000, 3, 0, 1234))) {
        Err(RedisConsumeError::Denied { redis_key, interval, capacity, current_tokens, last_fill_at }) => {
            assert_eq!(redis_key, "limiter:a:2");
            assert_eq!(interval, 2);
            assert_eq!(capacity, 3);
            assert_eq!(current_tokens, 0);
            assert_eq!(last_fill_at, 1234);
        }
        e => panic!("unexpected result: {:?}", e),
    }
}

#[test]
fn reply_store_error() {
    let e = redis::RedisError::from((redis::ErrorKind::Io, "connection refused"));
    match decode_reply(Err(e)) {
        Err(RedisConsumeError::Redis(e)) => assert_eq!(e.kind(), redis::ErrorKind::Io),
        e => panic!("unexpected result: {:?}", e),
    }
}

#[test]
fn outcome_conversion() {
    assert!(outcome_result(BatchOutcome::Admitted).is_ok());
    let o = BatchOutcome::Denied {
        storage_key: "p:k:3".to_string(),
        interval_ms: 3000,
        capacity: 9,
        current_tokens: 2,
        last_fill_at: 77,
    };
    match outcome_result(o) {
        Err(RedisConsumeError::Denied { redis_key, interval, capacity, current_tokens, last_fill_at }) => {
            assert_eq!((redis_key.as_str(), interval, capacity, current_tokens, last_fill_at), ("p:k:3", 3, 9, 2, 77));
        }
        e => panic!("unexpected result: {:?}", e),
    }
}

#[test]
fn store_batch_in_either_order_names_exhausted_resource() {
    let mut store = MemoryStore::new();
    assert!(matches!(store.eval_batch(&vec![entry("A", 1000, 1, 1)], 0), BatchOutcome::Admitted));
    for order in [vec![entry("A", 1000, 1, 1), entry("B", 1000, 4, 1)], vec![entry("B", 1000, 4, 1), entry("A", 1000, 1, 1)]] {
        match store.eval_batch(&order, 10) {
            BatchOutcome::Denied { storage_key, current_tokens, last_fill_at, .. } => {
                assert_eq!(storage_key, "A");
                assert_eq!(current_tokens, 0);
                assert_eq!(last_fill_at, 0);
            }
            o => panic!("unexpected outcome: {:?}", o),
        }
    }
    assert_eq!(store.get(&"B".to_string()).map(|s| s.tokens), Some(4));
    assert_eq!(store.get(&"A".to_string()).map(|s| s.tokens), Some(0));
}

#[test]
fn store_persists_refill_of_denied_batch() {
    let mut store = MemoryStore::new();
    assert!(matches!(store.eval_batch(&vec![entry("A", 1000, 2, 2), entry("B", 1000, 1, 1)], 0), BatchOutcome::Admitted));
    // A is due for refill, B is not and is empty.
    assert!(matches!(store.eval_batch(&vec![entry("A", 1000, 2, 1), entry("B", 5000, 1, 1)], 1500), BatchOutcome::Denied { .. }));
    let a = store.get(&"A".to_string()).unwrap();
    assert_eq!((a.tokens, a.last_fill_at), (2, 1500));
    let b = store.get(&"B".to_string()).unwrap();
    assert_eq!((b.tokens, b.last_fill_at), (0, 0));
}

#[test]
fn store_duplicate_entries_ask_for_the_sum() {
    let mut store = MemoryStore::new();
    match store.eval_batch(&vec![entry("D", 1000, 3, 2), entry("D", 1000, 3, 2)], 0) {
        BatchOutcome::Denied { storage_key, current_tokens, .. } => {
            assert_eq!(storage_key, "D");
            assert_eq!(current_tokens, 3);
        }
        o => panic!("unexpected outcome: {:?}", o),
    }
    assert_eq!(store.get(&"D".to_string()).unwrap().tokens, 3);
    assert!(matches!(store.eval_batch(&vec![entry("D", 1000, 3, 1), entry("D", 1000, 3, 2)], 1), BatchOutcome::Admitted));
    assert_eq!(store.get(&"D".to_string()).unwrap().tokens, 0);
}

#[test]
fn builder_defaults_and_settings() {
    assert_eq!(redis_url("localhost", 6379, 0), "redis://localhost:6379/0");
    assert_eq!(redis_url("10.0.0.7", 7000, 15), "redis://10.0.0.7:7000/15");
    let limiter = RedisLimiterBuilder::new().build().unwrap();
    assert_eq!(limiter.key_prefix(), "limiter");
    assert_eq!(limiter.get_redis_key("k", 5), "limiter:k:5");
    let mut b = RedisLimiterBuilder::new();
    b.host("127.0.0.1").port(6380).db(2).key_prefix("rl");
    let limiter = b.build().unwrap();
    assert_eq!(limiter.get_redis_key("k", 5), "rl:k:5");
    let mut b = RedisLimiterBuilder::default();
    b.host("bad host with spaces");
    assert!(b.build().is_err());
    let mut b = RedisLimiterBuilder::new();
    b.redis_cli(redis::Client::open("redis://127.0.0.1/").unwrap()).host("bad host with spaces");
    assert!(b.build().is_ok());
}

#[test]
fn builder_script_choice() {
    let limiter = RedisLimiterBuilder::new().build().unwrap();
    assert_eq!(limiter.script().get_hash(), redis::Script::new(bucket_limiter::LUA_SCRIPT).get_hash());
    let mut b = RedisLimiterBuilder::new();
    b.script_str("return 1");
    let limiter = b.build().unwrap();
    assert_eq!(limiter.script().get_hash(), redis::Script::new("return 1").get_hash());
    assert_ne!(limiter.script().get_hash(), redis::Script::new(bucket_limiter::LUA_SCRIPT).get_hash());
}
