//! Tenants, tiers, quotas and the agent mapping.

use aimesh::tenant::TenantError;
use aimesh::tenant::TenantManager;
use aimesh::tenant::TenantTier;
use std::time::SystemTime;
use std::time::UNIX_EPOCH;

fn now_ns() -> i64 {
    SystemTime::now().duration_since(UNIX_EPOCH).unwrap().as_nanos() as i64
}

#[test]
fn test_create_tenant() {
    let mut manager = TenantManager::new();
    let tenant = manager
        .create_tenant("tenant-1".into(), "Test Tenant".into(), TenantTier::Starter, now_ns())
        .unwrap();

    assert_eq!(tenant.id, "tenant-1");
    assert_eq!(tenant.tier, TenantTier::Starter);
    assert!(tenant.is_active());
}

#[test]
fn test_agent_registration() {
    let mut manager = TenantManager::new();
    manager.create_tenant("t1".into(), "Tenant 1".into(), TenantTier::Free, now_ns()).unwrap();

    manager.register_agent("agent-1", "t1").unwrap();
    let tenant = manager.get_agent_tenant("agent-1");
    assert_eq!(tenant, Some("t1".to_string()));
}

#[test]
fn test_quota_check() {
    let mut manager = TenantManager::new();
    manager.create_tenant("t1".into(), "Test".into(), TenantTier::Free, now_ns()).unwrap();

    for _ in 0..1000 {
        manager.record_message("t1", 10).unwrap();
    }

    let result = manager.record_message("t1", 10);
    assert!(result.is_err());
}

#[test]
fn test_suspend_tenant() {
    let mut manager = TenantManager::new();
    manager.create_tenant("t1".into(), "Test".into(), TenantTier::Free, now_ns()).unwrap();

    manager.suspend_tenant("t1").unwrap();

    let result = manager.register_agent("agent-1", "t1");
    assert!(matches!(result, Err(TenantError::Suspended(_))));
}

#[test]
fn test_free_tier_message_quota_name() {
    let mut manager = TenantManager::new();
    manager.create_tenant("t1".into(), "Test".into(), TenantTier::Free, now_ns()).unwrap();

    for _ in 0..1000 {
        manager.record_message("t1", 1).unwrap();
    }
    match manager.record_message("t1", 1) {
        Err(TenantError::QuotaExceeded(name)) => assert_eq!(name, "max_messages_per_day"),
        other => panic!("expected QuotaExceeded, got {:?}", other),
    }
}

#[test]
fn test_get_tenant_roundtrip() {
    let mut manager = TenantManager::new();
    let created = manager
        .create_tenant("acme".into(), "Acme".into(), TenantTier::Professional, now_ns())
        .unwrap();
    let fetched = manager.get_tenant("acme").unwrap();
    assert_eq!(fetched.id, created.id);
    assert_eq!(fetched.name, created.name);
    assert_eq!(fetched.tier, created.tier);
    assert_eq!(fetched.created_at, created.created_at);
    assert!(fetched.is_active());
    assert!(manager.get_tenant("nobody").is_none());
}

#[test]
fn test_update_tier_reapplies_quotas() {
    let mut manager = TenantManager::new();
    manager.create_tenant("t1".into(), "Test".into(), TenantTier::Free, now_ns()).unwrap();
    manager.update_tier("t1", TenantTier::Enterprise).unwrap();
    let t = manager.get_tenant("t1").unwrap();
    assert_eq!(t.tier, TenantTier::Enterprise);
    assert_eq!(t.quotas.max_messages_per_day, u64::MAX);
    assert!(matches!(
        manager.update_tier("ghost", TenantTier::Free),
        Err(TenantError::NotFound(_))
    ));
}

#[test]
fn test_reset_daily_usage() {
    let mut manager = TenantManager::new();
    manager.create_tenant("t1".into(), "Test".into(), TenantTier::Free, now_ns()).unwrap();
    manager.record_message("t1", 7).unwrap();
    manager.reset_daily_usage(now_ns());
    let usage = manager.get_usage("t1").unwrap();
    assert_eq!(usage.messages_today, 0);
    assert_eq!(usage.tokens_today, 0);
}

#[test]
fn test_delete_tenant_purges_agents() {
    let mut manager = TenantManager::new();
    manager.create_tenant("t1".into(), "One".into(), TenantTier::Free, now_ns()).unwrap();
    manager.create_tenant("t2".into(), "Two".into(), TenantTier::Free, now_ns()).unwrap();
    manager.register_agent("a1", "t1").unwrap();
    manager.register_agent("a2", "t2").unwrap();

    assert!(manager.delete_tenant("t1"));
    assert!(manager.get_tenant("t1").is_none());
    assert!(manager.get_agent_tenant("a1").is_none());
    assert_eq!(manager.get_agent_tenant("a2"), Some("t2".to_string()));
}

#[test]
fn test_agent_quota() {
    let mut manager = TenantManager::new();
    manager.create_tenant("t1".into(), "Test".into(), TenantTier::Free, now_ns()).unwrap();
    for i in 0..5 {
        manager.register_agent(&format!("agent-{}", i), "t1").unwrap();
    }
    match manager.register_agent("agent-5", "t1") {
        Err(TenantError::QuotaExceeded(name)) => assert_eq!(name, "max_agents"),
        other => panic!("expected QuotaExceeded, got {:?}", other),
    }
}

#[test]
fn test_enterprise_tier_is_unbounded() {
    let mut manager = TenantManager::new();
    manager
        .create_tenant("big".into(), "Big".into(), TenantTier::Enterprise, now_ns())
        .unwrap();
    for _ in 0..2000 {
        manager.record_message("big", 1000000).unwrap();
    }
    let usage = manager.get_usage("big").unwrap();
    assert_eq!(usage.messages_today, 2000);
    assert_eq!(usage.tokens_today, 2000000000);
}
