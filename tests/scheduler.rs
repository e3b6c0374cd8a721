use antigravity_gateway::scheduler::{
    Account, QuotaError, RefreshAction, RefreshError, RefreshState, Scheduler, SchedulerError,
    TokenGrant,
};

fn account(id: &str, expiry: u64) -> Account {
    Account::new(
        id.to_string(),
        format!("{}@example.com", id),
        format!("access-{}", id),
        format!("refresh-{}", id),
        expiry,
    )
}

fn pool_with_quotas(quotas: &[(u64, u64)], ttl: u64, threshold: u32) -> Scheduler {
    let accounts = (0..quotas.len()).map(|i| account(&format!("acc{}", i), 10_000)).collect();
    let mut s = Scheduler::new(accounts, ttl, threshold);
    for (i, q) in quotas.iter().enumerate() {
        s.apply_quota_result(i, Ok(*q), 1);
    }
    s
}

#[test]
fn scenario_sticky_binding_survives_quota_change() {
    let mut s = pool_with_quotas(&[(10, 100), (90, 100)], 60, 3);
    let key = "k1".to_string();
    assert_eq!(s.select(&key, 100), Ok(1));
    s.apply_quota_result(0, Ok((100, 100)), 110);
    assert_eq!(s.select(&key, 120), Ok(1));
    assert_eq!(s.select(&key, 159), Ok(1));
}

#[test]
fn expired_binding_is_replaced_by_best() {
    let mut s = pool_with_quotas(&[(10, 100), (90, 100)], 60, 3);
    let key = "k1".to_string();
    assert_eq!(s.select(&key, 100), Ok(1));
    s.apply_quota_result(0, Ok((100, 100)), 110);
    assert_eq!(s.select(&key, 160), Ok(0));
}

#[test]
fn ranking_unknown_between_positive_and_exhausted() {
    let accounts = vec![account("a", 0), account("b", 0), account("c", 0)];
    let mut s = Scheduler::new(accounts, 60, 3);
    s.apply_quota_result(0, Ok((0, 100)), 1);
    s.apply_quota_result(2, Ok((1, 100)), 1);
    assert_eq!(s.select(&"x".to_string(), 5), Ok(2));
    s.apply_quota_result(2, Ok((0, 100)), 6);
    assert_eq!(s.select(&"y".to_string(), 7), Ok(1));
}

#[test]
fn ties_go_to_least_recently_selected() {
    let mut s = pool_with_quotas(&[(50, 100), (5, 10)], 60, 3);
    assert_eq!(s.select(&"a".to_string(), 1), Ok(0));
    assert_eq!(s.select(&"b".to_string(), 1), Ok(1));
    assert_eq!(s.select(&"c".to_string(), 1), Ok(0));
}

#[test]
fn empty_or_disabled_pool_has_no_account() {
    let mut s = Scheduler::new(Vec::new(), 60, 3);
    assert_eq!(s.select(&"k".to_string(), 0), Err(SchedulerError::NoAccountAvailable));
    let mut t = Scheduler::new(vec![account("a", 0)], 60, 3);
    t.set_enabled(0, false);
    assert_eq!(t.select(&"k".to_string(), 0), Err(SchedulerError::NoAccountAvailable));
}

#[test]
fn failure_threshold_disables_account() {
    let mut s = pool_with_quotas(&[(90, 100), (10, 100)], 60, 3);
    s.record_outcome(0, false);
    s.record_outcome(0, false);
    assert!(!s.accounts[0].disabled);
    assert_eq!(s.accounts[0].consecutive_failures, 2);
    s.record_outcome(0, false);
    assert!(s.accounts[0].disabled);
    assert_eq!(s.select(&"k".to_string(), 5), Ok(1));
    s.set_enabled(0, true);
    assert_eq!(s.accounts[0].consecutive_failures, 0);
    assert!(!s.accounts[0].disabled);
}

#[test]
fn success_resets_failure_streak() {
    let mut s = pool_with_quotas(&[(90, 100)], 60, 2);
    s.record_outcome(0, false);
    s.record_outcome(0, true);
    s.record_outcome(0, false);
    assert!(!s.accounts[0].disabled);
    assert_eq!(s.accounts[0].consecutive_failures, 1);
}

#[test]
fn sticky_binding_dropped_when_account_disabled() {
    let mut s = pool_with_quotas(&[(90, 100), (10, 100)], 60, 3);
    let key = "k".to_string();
    assert_eq!(s.select(&key, 0), Ok(0));
    s.set_proxy_status(0, false, None, 5);
    assert_eq!(s.accounts[0].proxy_disabled_reason.as_deref(), Some("User disabled via Web"));
    assert_eq!(s.accounts[0].proxy_disabled_at, Some(5));
    assert_eq!(s.select(&key, 6), Ok(1));
    s.set_proxy_status(0, true, None, 7);
    assert!(!s.accounts[0].proxy_disabled);
    assert_eq!(s.accounts[0].proxy_disabled_reason, None);
    assert_eq!(s.select(&key, 8), Ok(1));
}

#[test]
fn proxy_disable_keeps_given_reason() {
    let mut s = pool_with_quotas(&[(90, 100)], 60, 3);
    s.set_proxy_status(0, false, Some("quota abuse".to_string()), 9);
    assert_eq!(s.accounts[0].proxy_disabled_reason.as_deref(), Some("quota abuse"));
}

#[test]
fn quota_failure_keeps_snapshot() {
    let mut s = pool_with_quotas(&[(40, 100)], 60, 3);
    s.apply_quota_result(0, Err(QuotaError::RetriesExhausted), 50);
    let q = s.accounts[0].quota.unwrap();
    assert_eq!((q.remaining, q.limit, q.fetched_at, q.consecutive_failures), (40, 100, 1, 1));
    s.apply_quota_result(0, Err(QuotaError::Rejected), 60);
    assert_eq!(s.accounts[0].quota.unwrap().consecutive_failures, 2);
    s.apply_quota_result(0, Ok((7, 100)), 70);
    let q = s.accounts[0].quota.unwrap();
    assert_eq!((q.remaining, q.limit, q.fetched_at, q.consecutive_failures), (7, 100, 70, 0));
}

#[test]
fn quota_failure_on_unknown_stays_unknown() {
    let mut s = Scheduler::new(vec![account("a", 0)], 60, 3);
    s.apply_quota_result(0, Err(QuotaError::RetriesExhausted), 5);
    assert!(s.accounts[0].quota.is_none());
}

#[test]
fn refresh_is_single_flight() {
    let mut s = Scheduler::new(vec![account("a", 100)], 60, 3);
    assert_eq!(s.begin_refresh(0, 95, 10), RefreshAction::Start);
    assert_eq!(s.begin_refresh(0, 95, 10), RefreshAction::Wait);
    assert_eq!(s.begin_refresh(0, 96, 10), RefreshAction::Wait);
    assert_eq!(s.accounts[0].refresh, RefreshState::InFlight { waiters: 3 });
    let settled = s.finish_refresh(
        0,
        Ok(TokenGrant { access_token: "new-token".to_string(), expires_at: 5000 }),
    );
    assert_eq!(settled.waiters, 3);
    assert_eq!(settled.outcome, Ok(()));
    assert_eq!(s.accounts[0].access_token, "new-token");
    assert_eq!(s.accounts[0].access_token_expiry, 5000);
    assert_eq!(s.begin_refresh(0, 97, 10), RefreshAction::Fresh);
}

#[test]
fn failed_refresh_reaches_every_waiter() {
    let mut s = Scheduler::new(vec![account("a", 100)], 60, 3);
    assert_eq!(s.begin_refresh(0, 100, 0), RefreshAction::Start);
    assert_eq!(s.begin_refresh(0, 100, 0), RefreshAction::Wait);
    let settled = s.finish_refresh(0, Err(RefreshError::Rejected));
    assert_eq!(settled.waiters, 2);
    assert_eq!(settled.outcome, Err(RefreshError::Rejected));
    assert_eq!(s.accounts[0].access_token, "access-a");
    assert_eq!(s.accounts[0].refresh, RefreshState::Idle);
    assert!(!s.accounts[0].disabled);
}

#[test]
fn sticky_ttl_swap_is_not_retroactive() {
    let mut s = pool_with_quotas(&[(90, 100), (10, 100)], 60, 3);
    let key = "k".to_string();
    assert_eq!(s.select(&key, 0), Ok(0));
    s.update_sticky_config(5);
    assert_eq!(s.sticky_ttl, 5);
    assert_eq!(s.bindings[0].ttl, 60);
    s.apply_quota_result(1, Ok((100, 100)), 1);
    assert_eq!(s.select(&key, 30), Ok(0));
    assert_eq!(s.select(&"other".to_string(), 30), Ok(1));
    assert_eq!(s.bindings[1].ttl, 5);
}

#[test]
fn refresh_targets_skip_disabled() {
    let mut s = Scheduler::new(vec![account("a", 0), account("b", 0), account("c", 0)], 60, 3);
    s.set_enabled(1, false);
    assert_eq!(s.quota_refresh_targets(), vec![0, 2]);
    assert_eq!(s.len(), 3);
}
