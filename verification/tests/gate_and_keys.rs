use redis_pool::gate::{decide, gate_decision_in, Admin, GateDecision};
use redis_pool::gauge::PoolGauge;
use redis_pool::store::MemStore;
use redis_pool::{glob_match, AuthDenial, StoreError};

#[test]
fn keys_returns_exactly_the_matching_set() {
    let mut s = MemStore::new();
    s.set("sess-abc", "user-1");
    s.set("sess-xyz", "user-2");
    s.set("other", "v");
    let mut found = s.keys("sess-*");
    found.sort();
    assert_eq!(
        found,
        vec![String::from("sess-abc"), String::from("sess-xyz")]
    );
    assert_eq!(s.keys("nothing-*"), Vec::<String>::new());
}

#[test]
fn keys_star_matches_everything() {
    let mut s = MemStore::new();
    s.set("a", "1");
    s.hset("b", "f", "2").unwrap();
    s.lpush("c", "3").unwrap();
    let mut found = s.keys("*");
    found.sort();
    assert_eq!(
        found,
        vec![String::from("a"), String::from("b"), String::from("c")]
    );
}

#[test]
fn glob_question_mark_matches_one_character() {
    assert!(glob_match("se?s", "sess"));
    assert!(!glob_match("se?s", "ses"));
    assert!(!glob_match("se?s", "sesss"));
}

#[test]
fn glob_star_matches_any_run() {
    assert!(glob_match("*", ""));
    assert!(glob_match("a*c", "abbbc"));
    assert!(glob_match("a*c", "ac"));
    assert!(!glob_match("a*c", "abd"));
}

#[test]
fn glob_literal_matches_itself_only() {
    assert!(glob_match("key", "key"));
    assert!(!glob_match("key", "keys"));
    assert!(!glob_match("", "x"));
    assert!(glob_match("", ""));
}

#[test]
fn gate_token_found_is_verified() {
    let mut s = MemStore::new();
    s.set("sess-abc", "user-1");
    let token = String::from("sess-abc");
    assert_eq!(gate_decision_in(&s, Some(&token)), GateDecision::Verified);
}

#[test]
fn gate_token_unseeded_is_rejected() {
    let mut s = MemStore::new();
    s.set("sess-abc", "user-1");
    let token = String::from("sess-xyz");
    assert_eq!(gate_decision_in(&s, Some(&token)), GateDecision::Rejected);
}

#[test]
fn gate_no_token_is_rejected() {
    let mut s = MemStore::new();
    s.set("sess-abc", "user-1");
    assert_eq!(gate_decision_in(&s, None), GateDecision::Rejected);
}

#[test]
fn decide_failed_lookup_is_rejected() {
    let failed: Result<bool, StoreError> = Err(StoreError::Command);
    assert_eq!(decide(Some(&failed)), GateDecision::Rejected);
    let negative: Result<bool, StoreError> = Ok(false);
    assert_eq!(decide(Some(&negative)), GateDecision::Rejected);
    let positive: Result<bool, StoreError> = Ok(true);
    assert_eq!(decide(Some(&positive)), GateDecision::Verified);
    assert_eq!(decide(None), GateDecision::Rejected);
}

#[test]
fn denial_message_is_structured() {
    assert_eq!(AuthDenial::VerificationError.message(), "Verification error");
}

#[test]
fn gauge_capacity_is_never_exceeded() {
    let mut g = PoolGauge::new(2);
    assert!(g.try_acquire());
    assert!(g.try_acquire());
    assert!(!g.try_acquire());
    assert_eq!(g.checked_out, 2);
    g.release();
    assert!(g.try_acquire());
    assert_eq!(g.checked_out, 2);
    assert!(g.checked_out <= g.capacity);
}

#[test]
fn gauge_starts_empty() {
    let g = PoolGauge::new(0);
    assert_eq!(g.checked_out, 0);
    let mut g = g;
    assert!(!g.try_acquire());
}

#[test]
fn admin_before_token_found_passes() {
    let mut s = MemStore::new();
    s.set("sess-abc", "user-1");
    let token = String::from("sess-abc");
    assert_eq!(Admin::before_in(&s, Some(&token)), Ok(()));
}

#[test]
fn admin_before_token_unseeded_is_denied() {
    let mut s = MemStore::new();
    s.set("sess-abc", "user-1");
    let token = String::from("sess-xyz");
    assert_eq!(
        Admin::before_in(&s, Some(&token)),
        Err(AuthDenial::VerificationError)
    );
}

#[test]
fn admin_before_no_token_is_denied() {
    let mut s = MemStore::new();
    s.set("sess-abc", "user-1");
    assert_eq!(
        Admin::before_in(&s, None),
        Err(AuthDenial::VerificationError)
    );
}
