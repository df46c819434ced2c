use bucket_limiter::{MemoryLimiter, RedisConsumeError, KEY_PREFIX};

const START_MS: i64 = 1_700_000_000_000;

fn consume_many(limiter: &mut MemoryLimiter, key: &str, interval: u32, capacity: u32, n: u32, now: i64) {
    for i in 0..n {
        let (success, count) = if i >= capacity {
            (false, Some(0))
        } else {
            (true, Some(capacity - i - 1))
        };
        assert_eq!(limiter.consume_one(key, interval, capacity, 1, now).is_ok(), success);
        assert_eq!(limiter.get_token_count(key, interval), count);
    }
}

#[test]
fn test_basic() {
    let mut limiter = MemoryLimiter::new(KEY_PREFIX);
    let key = "test_basic";
    let interval = 10;
    let capacity = 6;

    assert_eq!(limiter.get_token_count(key, interval), None);
    consume_many(&mut limiter, key, interval, capacity, 12, START_MS);
}

#[test]
fn test_refill() {
    let mut limiter = MemoryLimiter::new(KEY_PREFIX);
    let key = "test_refill";
    let interval = 1;
    let capacity = 5;
    let mut now = START_MS;

    assert_eq!(limiter.get_token_count(key, interval), None);
    consume_many(&mut limiter, key, interval, capacity, 6, now);
    assert_eq!(limiter.consume_one(key, interval, capacity, 1, now).is_ok(), false);
    assert_eq!(limiter.get_token_count(key, interval), Some(0));

    now += (interval * 1000 + 2) as i64;
    assert_eq!(limiter.consume_one(key, interval, capacity, 1, now).is_ok(), true);
    assert_eq!(limiter.get_token_count(key, interval), Some(capacity - 1));
}

#[test]
fn test_multiple() {
    let mut limiter = MemoryLimiter::new(KEY_PREFIX);
    let key = "test_multiple";
    let mut now = START_MS;

    let (key_1, interval_1, capacity_1, n_1) = (format!("{}-1", key), 2, 3, 1);
    let (key_2, interval_2, capacity_2, n_2) = (format!("{}-2", key), 4, 4, 1);
    for _ in 0..capacity_1 {
        assert_eq!(limiter.consume_one(key_1.as_str(), interval_1, capacity_1, n_1, now).is_ok(), true);
    }
    for (sleep_ms, args, should_ok, token_count_1, token_count_2) in vec![
        (0,
         vec![
             (key_1.as_str(), interval_1, capacity_1, n_1),
             (key_2.as_str(), interval_2, capacity_2, n_2),
         ],
         false,
         Some(0), None),
        (0,
         vec![
             (key_2.as_str(), interval_2, capacity_2, n_2),
             (key_1.as_str(), interval_1, capacity_1, n_1),
         ],
         false,
         Some(0), Some(capacity_2)),
        ((interval_1 * 1000 + 2) as i64,
         vec![
             (key_2.as_str(), interval_2, capacity_2, n_2),
             (key_1.as_str(), interval_1, capacity_1, n_1),
         ],
         true,
         Some(capacity_1 - 1), Some(capacity_2 - 1)),
    ] {
        now += sleep_ms;
        let rv = limiter.consume(args, now);
        if !should_ok {
            assert_eq!(rv.is_err(), true);
            match rv {
                Err(RedisConsumeError::Denied { redis_key, interval, capacity, current_tokens, last_fill_at: _ }) => {
                    assert_eq!(redis_key, limiter.get_redis_key(key_1.as_str(), interval_1));
                    assert_eq!(interval, interval_1);
                    assert_eq!(capacity, capacity_1);
                    assert_eq!(current_tokens, 0);
                }
                e => panic!("Invalid RedisConsumeError: {:?}", e),
            }
        }
        assert_eq!(limiter.get_token_count(key_1.as_str(), interval_1), token_count_1);
        assert_eq!(limiter.get_token_count(key_2.as_str(), interval_2), token_count_2);
    }
}

#[test]
fn six_rapid_calls_then_refill() {
    let mut limiter = MemoryLimiter::new(KEY_PREFIX);
    let now = START_MS;
    let expected = [(true, 4), (true, 3), (true, 2), (true, 1), (true, 0), (false, 0)];
    for (i, (ok, count)) in expected.iter().enumerate() {
        let r = limiter.consume_one("key", 1, 5, 1, now + i as i64);
        assert_eq!(r.is_ok(), *ok);
        assert_eq!(limiter.get_token_count("key", 1), Some(*count));
    }
    assert!(limiter.consume_one("key", 1, 5, 1, now + 1001).is_ok());
    assert_eq!(limiter.get_token_count("key", 1), Some(4));
}

#[test]
fn capacity_bound_denial_reports_zero() {
    let mut limiter = MemoryLimiter::new(KEY_PREFIX);
    for i in 0..3u32 {
        assert!(limiter.consume_one("cap", 60, 3, 1, START_MS + i as i64 * 100).is_ok());
        assert_eq!(limiter.get_token_count("cap", 60), Some(2 - i));
    }
    match limiter.consume_one("cap", 60, 3, 1, START_MS + 500) {
        Err(RedisConsumeError::Denied { redis_key, interval, capacity, current_tokens, last_fill_at }) => {
            assert_eq!(redis_key, "limiter:cap:60");
            assert_eq!(interval, 60);
            assert_eq!(capacity, 3);
            assert_eq!(current_tokens, 0);
            assert_eq!(last_fill_at, START_MS);
        }
        e => panic!("unexpected result: {:?}", e),
    }
}

#[test]
fn refill_exactly_at_interval() {
    let mut limiter = MemoryLimiter::new(KEY_PREFIX);
    assert!(limiter.consume_one("w", 2, 2, 2, START_MS).is_ok());
    assert!(limiter.consume_one("w", 2, 2, 1, START_MS + 1999).is_err());
    assert_eq!(limiter.get_token_count("w", 2), Some(0));
    assert!(limiter.consume_one("w", 2, 2, 1, START_MS + 2000).is_ok());
    assert_eq!(limiter.get_token_count("w", 2), Some(1));
}

#[test]
fn refill_resets_to_capacity_not_prorated() {
    let mut limiter = MemoryLimiter::new(KEY_PREFIX);
    assert!(limiter.consume_one("p", 1, 10, 4, START_MS).is_ok());
    assert_eq!(limiter.get_token_count("p", 1), Some(6));
    assert!(limiter.consume_one("p", 1, 10, 3, START_MS + 5000).is_ok());
    assert_eq!(limiter.get_token_count("p", 1), Some(7));
}

#[test]
fn request_larger_than_capacity_is_denied_but_touches_bucket() {
    let mut limiter = MemoryLimiter::new(KEY_PREFIX);
    match limiter.consume_one("big", 5, 3, 4, START_MS) {
        Err(RedisConsumeError::Denied { current_tokens, last_fill_at, .. }) => {
            assert_eq!(current_tokens, 3);
            assert_eq!(last_fill_at, START_MS);
        }
        e => panic!("unexpected result: {:?}", e),
    }
    assert_eq!(limiter.get_token_count("big", 5), Some(3));
}

#[test]
fn interval_is_part_of_identity() {
    let mut limiter = MemoryLimiter::new(KEY_PREFIX);
    assert!(limiter.consume_one("r", 1, 2, 2, START_MS).is_ok());
    assert_eq!(limiter.get_token_count("r", 1), Some(0));
    assert_eq!(limiter.get_token_count("r", 2), None);
    assert!(limiter.consume_one("r", 2, 2, 1, START_MS).is_ok());
    assert_eq!(limiter.get_token_count("r", 2), Some(1));
}

#[test]
fn batch_resources_after_denial_untouched() {
    let mut limiter = MemoryLimiter::new(KEY_PREFIX);
    assert!(limiter.consume_one("a", 10, 1, 1, START_MS).is_ok());
    let r = limiter.consume(vec![("b", 10, 5, 1), ("a", 10, 1, 1), ("c", 10, 5, 1)], START_MS + 10);
    match r {
        Err(RedisConsumeError::Denied { redis_key, .. }) => assert_eq!(redis_key, "limiter:a:10"),
        e => panic!("unexpected result: {:?}", e),
    }
    assert_eq!(limiter.get_token_count("b", 10), Some(5));
    assert_eq!(limiter.get_token_count("a", 10), Some(0));
    assert_eq!(limiter.get_token_count("c", 10), None);
}

#[test]
fn batch_admitted_debits_every_resource() {
    let mut limiter = MemoryLimiter::new("q");
    assert!(limiter.consume(vec![("a", 1, 5, 2), ("b", 3, 4, 4)], START_MS).is_ok());
    assert_eq!(limiter.get_token_count("a", 1), Some(3));
    assert_eq!(limiter.get_token_count("b", 3), Some(0));
}

#[test]
fn bad_arguments_fail_fast() {
    let mut limiter = MemoryLimiter::new(KEY_PREFIX);
    let cases: Vec<((&str, u32, u32, u32), &str)> = vec![
        (("k", 1, 5, 0), "[BadArg]: key=k, interval=1, capacity=5, n=0"),
        (("", 1, 5, 1), "[BadArg]: key=, interval=1, capacity=5, n=1"),
        (("k", 0, 5, 1), "[BadArg]: key=k, interval=0, capacity=5, n=1"),
        (("k", 1, 0, 1), "[BadArg]: key=k, interval=1, capacity=0, n=1"),
    ];
    for (req, msg) in cases {
        match limiter.consume(vec![("k", 1, 5, 1), req], START_MS) {
            Err(RedisConsumeError::BadArg(m)) => assert_eq!(m, msg),
            e => panic!("unexpected result: {:?}", e),
        }
        assert_eq!(limiter.get_token_count("k", 1), None);
    }
}

#[test]
fn storage_key_format() {
    let limiter = MemoryLimiter::new("svc");
    assert_eq!(limiter.get_redis_key("user:42", 3600), "svc:user:42:3600");
    assert_eq!(bucket_limiter::get_redis_key("limiter", "x", 0), "limiter:x:0");
    assert_eq!(bucket_limiter::get_redis_key("limiter", "x", 4294967295), "limiter:x:4294967295");
}

#[test]
fn consume_at_system_time() {
    let mut limiter = MemoryLimiter::new(KEY_PREFIX);
    assert!(limiter.consume_now(vec![("now", 600, 2, 1)]).unwrap().is_ok());
    assert_eq!(limiter.get_token_count("now", 600), Some(1));
    assert!(limiter.consume_now(vec![("now", 600, 2, 0)]).unwrap().is_err());
}
