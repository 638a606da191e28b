use redis_pool::store::MemStore;
use redis_pool::StoreError;

#[test]
fn set_then_get_returns_value() {
    let mut s = MemStore::new();
    s.set("k", "v");
    assert_eq!(s.get("k"), Ok(String::from("v")));
}

#[test]
fn overwrite_returns_latest() {
    let mut s = MemStore::new();
    s.set("k", "first");
    s.set("k", "second");
    assert_eq!(s.get("k"), Ok(String::from("second")));
}

#[test]
fn get_missing_is_absent() {
    let s = MemStore::new();
    assert_eq!(s.get("nope"), Err(StoreError::Absent));
}

#[test]
fn get_on_hash_is_type_conversion() {
    let mut s = MemStore::new();
    s.hset("h", "f", "v").unwrap();
    assert_eq!(s.get("h"), Err(StoreError::TypeConversion));
}

#[test]
fn exists_reflects_liveness() {
    let mut s = MemStore::new();
    assert!(!s.exists_key("k"));
    s.set("k", "v");
    assert!(s.exists_key("k"));
    s.del(&vec![String::from("k")]);
    assert!(!s.exists_key("k"));
}

#[test]
fn del_missing_reports_zero() {
    let mut s = MemStore::new();
    s.set("other", "v");
    let n = s.del(&vec![String::from("nope")]);
    assert_eq!(n, 0);
    assert!(s.exists_key("other"));
}

#[test]
fn del_counts_only_live_keys() {
    let mut s = MemStore::new();
    s.set("a", "1");
    s.set("b", "2");
    let n = s.del(&vec![
        String::from("a"),
        String::from("missing"),
        String::from("b"),
    ]);
    assert_eq!(n, 2);
    assert!(!s.exists_key("a"));
    assert!(!s.exists_key("b"));
}

#[test]
fn expire_twice_keeps_latest_ttl() {
    let mut s = MemStore::new();
    s.set("k", "v");
    assert!(s.expire("k", 60));
    assert!(s.expire("k", 60));
    assert_eq!(s.ttl_of("k"), Some(60));
    assert!(s.expire("k", 30));
    assert_eq!(s.ttl_of("k"), Some(30));
}

#[test]
fn expire_missing_returns_false() {
    let mut s = MemStore::new();
    assert!(!s.expire("nope", 60));
    assert_eq!(s.ttl_of("nope"), None);
}

#[test]
fn set_clears_ttl() {
    let mut s = MemStore::new();
    s.set("k", "v");
    s.expire("k", 60);
    s.set("k", "v2");
    assert_eq!(s.ttl_of("k"), None);
}

#[test]
fn hset_then_hget_returns_value() {
    let mut s = MemStore::new();
    s.hset("h", "f", "v").unwrap();
    assert_eq!(s.hget("h", "f"), Ok(String::from("v")));
    s.hset("h", "f", "v2").unwrap();
    assert_eq!(s.hget("h", "f"), Ok(String::from("v2")));
}

#[test]
fn hget_missing_field_is_absent() {
    let mut s = MemStore::new();
    s.hset("h", "f", "v").unwrap();
    assert_eq!(s.hget("h", "other"), Err(StoreError::Absent));
    assert_eq!(s.hget("nope", "f"), Err(StoreError::Absent));
}

#[test]
fn hset_on_scalar_key_is_rejected() {
    let mut s = MemStore::new();
    s.set("k", "v");
    assert_eq!(s.hset("k", "f", "v"), Err(StoreError::TypeConversion));
    assert_eq!(s.get("k"), Ok(String::from("v")));
}

#[test]
fn hdel_last_field_removes_key() {
    let mut s = MemStore::new();
    s.hset("h", "f", "v").unwrap();
    assert_eq!(s.hdel("h", "f"), Ok(true));
    assert!(!s.exists_key("h"));
    assert_eq!(s.hdel("h", "f"), Ok(false));
}

#[test]
fn hdel_keeps_other_fields() {
    let mut s = MemStore::new();
    s.hset("h", "a", "1").unwrap();
    s.hset("h", "b", "2").unwrap();
    assert_eq!(s.hdel("h", "a"), Ok(true));
    assert!(s.exists_key("h"));
    assert_eq!(s.hget("h", "b"), Ok(String::from("2")));
}

#[test]
fn hexists_cases() {
    let mut s = MemStore::new();
    assert_eq!(s.hexists("h", "f"), Ok(false));
    s.hset("h", "f", "v").unwrap();
    assert_eq!(s.hexists("h", "f"), Ok(true));
    assert_eq!(s.hexists("h", "other"), Ok(false));
    s.set("k", "v");
    assert_eq!(s.hexists("k", "f"), Err(StoreError::TypeConversion));
}

#[test]
fn lpush_then_head_read_returns_value() {
    let mut s = MemStore::new();
    s.lpush("l", "a").unwrap();
    s.lpush("l", "b").unwrap();
    assert_eq!(s.lrange("l", 0, 0), Ok(vec![String::from("b")]));
}

#[test]
fn lpush_reports_new_length_and_order() {
    let mut s = MemStore::new();
    assert_eq!(s.lpush("l", "a"), Ok(1));
    assert_eq!(s.lpush("l", "b"), Ok(2));
    assert_eq!(
        s.lrange("l", 0, -1),
        Ok(vec![String::from("b"), String::from("a")])
    );
}

#[test]
fn llen_missing_is_zero() {
    let mut s = MemStore::new();
    assert_eq!(s.llen("l"), Ok(0));
    s.lpush("l", "a").unwrap();
    assert_eq!(s.llen("l"), Ok(1));
    s.set("k", "v");
    assert_eq!(s.llen("k"), Err(StoreError::TypeConversion));
}

#[test]
fn ltrim_keeps_inclusive_range() {
    let mut s = MemStore::new();
    for v in ["d", "c", "b", "a"] {
        s.lpush("l", v).unwrap();
    }
    s.ltrim("l", 1, 2).unwrap();
    assert_eq!(
        s.lrange("l", 0, -1),
        Ok(vec![String::from("b"), String::from("c")])
    );
}

#[test]
fn ltrim_negative_indices_count_from_end() {
    let mut s = MemStore::new();
    for v in ["d", "c", "b", "a"] {
        s.lpush("l", v).unwrap();
    }
    s.ltrim("l", -2, -1).unwrap();
    assert_eq!(
        s.lrange("l", 0, -1),
        Ok(vec![String::from("c"), String::from("d")])
    );
}

#[test]
fn ltrim_to_nothing_removes_key() {
    let mut s = MemStore::new();
    s.lpush("l", "a").unwrap();
    s.ltrim("l", 2, 1).unwrap();
    assert!(!s.exists_key("l"));
    s.ltrim("nope", 0, 1).unwrap();
}

#[test]
fn lrem_positive_count_removes_from_head() {
    let mut s = MemStore::new();
    for v in ["x", "b", "x", "a", "x"] {
        s.lpush("l", v).unwrap();
    }
    // list is now x a x b x
    assert_eq!(s.lrem("l", 2, "x"), Ok(2));
    assert_eq!(
        s.lrange("l", 0, -1),
        Ok(vec![String::from("a"), String::from("b"), String::from("x")])
    );
}

#[test]
fn lrem_negative_count_removes_from_tail() {
    let mut s = MemStore::new();
    for v in ["x", "b", "x", "a", "x"] {
        s.lpush("l", v).unwrap();
    }
    assert_eq!(s.lrem("l", -2, "x"), Ok(2));
    assert_eq!(
        s.lrange("l", 0, -1),
        Ok(vec![String::from("x"), String::from("a"), String::from("b")])
    );
}

#[test]
fn lrem_zero_removes_all_occurrences() {
    let mut s = MemStore::new();
    for v in ["x", "b", "x", "a", "x"] {
        s.lpush("l", v).unwrap();
    }
    assert_eq!(s.lrem("l", 0, "x"), Ok(3));
    assert_eq!(
        s.lrange("l", 0, -1),
        Ok(vec![String::from("a"), String::from("b")])
    );
}

#[test]
fn lrem_emptying_list_removes_key() {
    let mut s = MemStore::new();
    s.lpush("l", "x").unwrap();
    assert_eq!(s.lrem("l", 0, "x"), Ok(1));
    assert!(!s.exists_key("l"));
    assert_eq!(s.lrem("nope", 0, "x"), Ok(0));
}

#[test]
fn lrange_out_of_range_is_empty() {
    let mut s = MemStore::new();
    s.lpush("l", "a").unwrap();
    assert_eq!(s.lrange("l", 5, 9), Ok(vec![]));
    assert_eq!(s.lrange("missing", 0, -1), Ok(vec![]));
}
