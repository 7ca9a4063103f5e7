//! Multi-tenancy: tenants, tier quotas, usage accounting and the agent to
//! tenant mapping.
//!
//! A tenant that is not active refuses registration and recording. Quotas
//! derive from the tier; the enterprise tier is unbounded, written as the
//! largest representable values.

use vstd::prelude::*;

verus! {

use vstd::string::StringExecFns;
use crate::keymap::KeyMap;

/// Faults raised by tenant management.
#[derive(Debug)]
pub enum TenantError {
    NotFound(String),
    QuotaExceeded(String),
    Suspended(String),
    InvalidConfig(String),
}

/// Lifecycle state of a tenant.
#[derive(Clone, Copy, PartialEq, Eq, Structural, Debug)]
pub enum TenantStatus {
    Active,
    Suspended,
    PendingDeletion,
}

impl Default for TenantStatus {
    fn default() -> (r: Self)
        ensures
            r == TenantStatus::Active,
    {
        TenantStatus::Active
    }
}

/// Quota class of a tenant.
#[derive(Clone, Copy, PartialEq, Eq, Structural, Debug)]
pub enum TenantTier {
    Free,
    Starter,
    Professional,
    Enterprise,
}

impl Default for TenantTier {
    fn default() -> (r: Self)
        ensures
            r == TenantTier::Free,
    {
        TenantTier::Free
    }
}

/// Resource caps of a tenant.
#[derive(Clone, Copy, Debug)]
pub struct TenantQuotas {
    pub max_agents: u64,
    pub max_messages_per_day: u64,
    pub max_tokens_per_day: u64,
    pub max_endpoints: u32,
    pub max_concurrent_requests: u32,
    pub storage_bytes: u64,
}

/// The fixed quota table, by tier.
pub open spec fn spec_tier_quotas(tier: TenantTier) -> TenantQuotas {
    match tier {
        TenantTier::Free => TenantQuotas {
            max_agents: 5,
            max_messages_per_day: 1000,
            max_tokens_per_day: 10000,
            max_endpoints: 2,
            max_concurrent_requests: 10,
            storage_bytes: 104857600,
        },
        TenantTier::Starter => TenantQuotas {
            max_agents: 25,
            max_messages_per_day: 50000,
            max_tokens_per_day: 500000,
            max_endpoints: 10,
            max_concurrent_requests: 100,
            storage_bytes: 1073741824,
        },
        TenantTier::Professional => TenantQuotas {
            max_agents: 100,
            max_messages_per_day: 500000,
            max_tokens_per_day: 5000000,
            max_endpoints: 50,
            max_concurrent_requests: 500,
            storage_bytes: 10737418240,
        },
        TenantTier::Enterprise => TenantQuotas {
            max_agents: u64::MAX,
            max_messages_per_day: u64::MAX,
            max_tokens_per_day: u64::MAX,
            max_endpoints: u32::MAX,
            max_concurrent_requests: u32::MAX,
            storage_bytes: u64::MAX,
        },
    }
}

impl TenantTier {
    /// The default caps of this tier.
    pub fn default_quotas(&self) -> (r: TenantQuotas)
        ensures
            r == spec_tier_quotas(*self),
    {
        match self {
            TenantTier::Free => TenantQuotas {
                max_agents: 5,
                max_messages_per_day: 1000,
                max_tokens_per_day: 10000,
                max_endpoints: 2,
                max_concurrent_requests: 10,
                storage_bytes: 104857600,
            },
            TenantTier::Starter => TenantQuotas {
                max_agents: 25,
                max_messages_per_day: 50000,
                max_tokens_per_day: 500000,
                max_endpoints: 10,
                max_concurrent_requests: 100,
                storage_bytes: 1073741824,
            },
            TenantTier::Professional => TenantQuotas {
                max_agents: 100,
                max_messages_per_day: 500000,
                max_tokens_per_day: 5000000,
                max_endpoints: 50,
                max_concurrent_requests: 500,
                storage_bytes: 10737418240,
            },
            TenantTier::Enterprise => TenantQuotas {
                max_agents: u64::MAX,
                max_messages_per_day: u64::MAX,
                max_tokens_per_day: u64::MAX,
                max_endpoints: u32::MAX,
                max_concurrent_requests: u32::MAX,
                storage_bytes: u64::MAX,
            },
        }
    }
}

/// A tenant's running consumption.
#[derive(Clone, Copy, Debug)]
pub struct TenantUsage {
    pub agents_count: u64,
    pub messages_today: u64,
    pub tokens_today: u64,
    pub endpoints_count: u32,
    pub concurrent_requests: u32,
    pub storage_used: u64,
    pub last_reset: i64,
}

impl Default for TenantUsage {
    fn default() -> (r: Self)
        ensures
            r == spec_zero_usage(),
    {
        TenantUsage {
            agents_count: 0,
            messages_today: 0,
            tokens_today: 0,
            endpoints_count: 0,
            concurrent_requests: 0,
            storage_used: 0,
            last_reset: 0,
        }
    }
}

pub open spec fn spec_zero_usage() -> TenantUsage {
    TenantUsage {
        agents_count: 0,
        messages_today: 0,
        tokens_today: 0,
        endpoints_count: 0,
        concurrent_requests: 0,
        storage_used: 0,
        last_reset: 0,
    }
}

/// Every counter is below its cap.
pub open spec fn spec_within_quota(u: TenantUsage, q: TenantQuotas) -> bool {
    &&& u.agents_count < q.max_agents
    &&& u.messages_today < q.max_messages_per_day
    &&& u.tokens_today < q.max_tokens_per_day
    &&& u.endpoints_count < q.max_endpoints
    &&& u.concurrent_requests < q.max_concurrent_requests
    &&& u.storage_used < q.storage_bytes
}

impl TenantUsage {
    /// Report the first cap the usage has reached, if any.
    pub fn check_quota(&self, quotas: &TenantQuotas) -> (r: Result<(), TenantError>)
        ensures
            r is Ok <==> spec_within_quota(*self, *quotas),
            r matches Err(e) ==> (e matches TenantError::QuotaExceeded(_)),
            self.agents_count >= quotas.max_agents ==> (r matches Err(e) && e matches
                TenantError::QuotaExceeded(n) && n@ == "max_agents"@),
            self.agents_count < quotas.max_agents && self.messages_today
                >= quotas.max_messages_per_day ==> (r matches Err(e) && e matches
            TenantError::QuotaExceeded(n) && n@ == "max_messages_per_day"@),
            self.agents_count < quotas.max_agents && self.messages_today
                < quotas.max_messages_per_day && self.tokens_today >= quotas.max_tokens_per_day
                ==> (r matches Err(e) && e matches TenantError::QuotaExceeded(n) && n@
                == "max_tokens_per_day"@),
            self.agents_count < quotas.max_agents && self.messages_today
                < quotas.max_messages_per_day && self.tokens_today < quotas.max_tokens_per_day
                && self.endpoints_count >= quotas.max_endpoints ==> (r matches Err(e) && e matches
            TenantError::QuotaExceeded(n) && n@ == "max_endpoints"@),
            self.agents_count < quotas.max_agents && self.messages_today
                < quotas.max_messages_per_day && self.tokens_today < quotas.max_tokens_per_day
                && self.endpoints_count < quotas.max_endpoints && self.concurrent_requests
                >= quotas.max_concurrent_requests ==> (r matches Err(e) && e matches
            TenantError::QuotaExceeded(n) && n@ == "max_concurrent_requests"@),
            self.agents_count < quotas.max_agents && self.messages_today
                < quotas.max_messages_per_day && self.tokens_today < quotas.max_tokens_per_day
                && self.endpoints_count < quotas.max_endpoints && self.concurrent_requests
                < quotas.max_concurrent_requests && self.storage_used >= quotas.storage_bytes
                ==> (r matches Err(e) && e matches TenantError::QuotaExceeded(n) && n@
                == "storage_bytes"@),
    {
        if self.agents_count >= quotas.max_agents {
            return Err(TenantError::QuotaExceeded(String::from_str("max_agents")));
        }
        if self.messages_today >= quotas.max_messages_per_day {
            return Err(TenantError::QuotaExceeded(String::from_str("max_messages_per_day")));
        }
        if self.tokens_today >= quotas.max_tokens_per_day {
            return Err(TenantError::QuotaExceeded(String::from_str("max_tokens_per_day")));
        }
        if self.endpoints_count >= quotas.max_endpoints {
            return Err(TenantError::QuotaExceeded(String::from_str("max_endpoints")));
        }
        if self.concurrent_requests >= quotas.max_concurrent_requests {
            return Err(TenantError::QuotaExceeded(String::from_str("max_concurrent_requests")));
        }
        if self.storage_used >= quotas.storage_bytes {
            return Err(TenantError::QuotaExceeded(String::from_str("storage_bytes")));
        }
        Ok(())
    }

    /// Whole-percent utilization of the agents, messages, tokens and
    /// storage caps, in that order.
    pub fn utilization(&self, quotas: &TenantQuotas) -> (r: Vec<(String, u64)>)
        ensures
            r@.len() == 4,
            r@[0].0@ == "agents"@ && r@[0].1 == spec_share_percent(
                self.agents_count,
                quotas.max_agents,
            ),
            r@[1].0@ == "messages"@ && r@[1].1 == spec_share_percent(
                self.messages_today,
                quotas.max_messages_per_day,
            ),
            r@[2].0@ == "tokens"@ && r@[2].1 == spec_share_percent(
                self.tokens_today,
                quotas.max_tokens_per_day,
            ),
            r@[3].0@ == "storage"@ && r@[3].1 == spec_share_percent(
                self.storage_used,
                quotas.storage_bytes,
            ),
    {
        let mut out: Vec<(String, u64)> = Vec::new();
        out.push((String::from_str("agents"), share_percent(self.agents_count, quotas.max_agents)));
        out.push(
            (
                String::from_str("messages"),
                share_percent(self.messages_today, quotas.max_messages_per_day),
            ),
        );
        out.push(
            (
                String::from_str("tokens"),
                share_percent(self.tokens_today, quotas.max_tokens_per_day),
            ),
        );
        out.push(
            (String::from_str("storage"), share_percent(self.storage_used, quotas.storage_bytes)),
        );
        out
    }
}

/// Used over cap in whole percent; zero when the cap is zero, saturated at
/// the largest representable value.
pub open spec fn spec_share_percent(used: u64, cap: u64) -> int {
    if cap == 0 {
        0
    } else if (used as int) * 100 / (cap as int) > u64::MAX {
        u64::MAX as int
    } else {
        (used as int) * 100 / (cap as int)
    }
}

fn share_percent(used: u64, cap: u64) -> (r: u64)
    ensures
        r == spec_share_percent(used, cap),
{
    if cap == 0 {
        return 0;
    }
    let scaled: u128 = (used as u128) * 100;
    let q: u128 = scaled / (cap as u128);
    if q > u64::MAX as u128 {
        u64::MAX
    } else {
        q as u64
    }
}

/// A tenant: identity, tier, lifecycle state and derived quotas.
#[derive(Debug)]
pub struct Tenant {
    pub id: String,
    pub name: String,
    pub tier: TenantTier,
    pub status: TenantStatus,
    pub quotas: TenantQuotas,
    pub metadata: Vec<(String, String)>,
    pub created_at: i64,
}

/// Two tenants with the same observable content.
pub open spec fn tenant_like(a: Tenant, b: Tenant) -> bool {
    &&& a.id == b.id
    &&& a.name == b.name
    &&& a.tier == b.tier
    &&& a.status == b.status
    &&& a.quotas == b.quotas
    &&& a.metadata@ == b.metadata@
    &&& a.created_at == b.created_at
}

fn clone_tenant(t: &Tenant) -> (r: Tenant)
    ensures
        tenant_like(r, *t),
{
    let mut metadata: Vec<(String, String)> = Vec::new();
    let n = t.metadata.len();
    let mut i: usize = 0;
    while i < n
        invariant
            n == t.metadata@.len(),
            i <= n,
            metadata@ == t.metadata@.take(i as int),
        decreases n - i,
    {
        metadata.push((t.metadata[i].0.clone(), t.metadata[i].1.clone()));
        proof {
            assert(metadata@ =~= t.metadata@.take(i + 1));
        }
        i += 1;
    }
    proof {
        assert(t.metadata@.take(n as int) =~= t.metadata@);
    }
    Tenant {
        id: t.id.clone(),
        name: t.name.clone(),
        tier: t.tier,
        status: t.status,
        quotas: t.quotas,
        metadata,
        created_at: t.created_at,
    }
}

impl Tenant {
    /// A fresh active tenant with its tier's default quotas; `now_ns`
    /// stamps the creation.
    pub fn new(id: String, name: String, tier: TenantTier, now_ns: i64) -> (r: Self)
        ensures
            r.id == id,
            r.name == name,
            r.tier == tier,
            r.status == TenantStatus::Active,
            r.quotas == spec_tier_quotas(tier),
            r.metadata@.len() == 0,
            r.created_at == now_ns,
    {
        let quotas = tier.default_quotas();
        Tenant {
            id,
            name,
            tier,
            status: TenantStatus::Active,
            quotas,
            metadata: Vec::new(),
            created_at: now_ns,
        }
    }

    pub fn is_active(&self) -> (r: bool)
        ensures
            r == (self.status == TenantStatus::Active),
    {
        self.status == TenantStatus::Active
    }
}

/// The tenant book: tenants, their usage, and the agent to tenant mapping.
pub struct TenantManager {
    tenants: KeyMap<Tenant>,
    usage: KeyMap<TenantUsage>,
    agent_tenants: KeyMap<String>,
}

impl TenantManager {
    pub closed spec fn tenants_map(&self) -> KeyMap<Tenant> {
        self.tenants
    }

    pub closed spec fn usage_map(&self) -> KeyMap<TenantUsage> {
        self.usage
    }

    pub closed spec fn agents_map(&self) -> KeyMap<String> {
        self.agent_tenants
    }

    /// Tenants carry their own key, and tenants and usage share a domain.
    pub open spec fn wf(&self) -> bool {
        &&& self.tenants_map().wf()
        &&& self.usage_map().wf()
        &&& self.agents_map().wf()
        &&& forall|i: int|
            0 <= i < self.tenants_map().entries_seq().len()
                ==> #[trigger] self.tenants_map().entries_seq()[i].1.id@
                == self.tenants_map().entries_seq()[i].0
        &&& forall|k: Seq<char>|
            #[trigger] self.usage_map().contains_key(k) == self.tenants_map().contains_key(k)
    }

    pub fn new() -> (r: Self)
        ensures
            r.wf(),
            r.tenants_map().num_entries() == 0,
            r.agents_map().num_entries() == 0,
            forall|k: Seq<char>| !r.tenants_map().contains_key(k),
            forall|k: Seq<char>| !r.agents_map().contains_key(k),
    {
        TenantManager {
            tenants: KeyMap::new(),
            usage: KeyMap::new(),
            agent_tenants: KeyMap::new(),
        }
    }

    /// Create a tenant (or replace one under the same identifier) with
    /// zeroed usage; returns a copy of what was stored.
    pub fn create_tenant(&mut self, id: String, name: String, tier: TenantTier, now_ns: i64) -> (r:
        Result<Tenant, TenantError>)
        requires
            old(self).wf(),
        ensures
            final(self).wf(),
            r matches Ok(t) && {
                &&& t.id == id
                &&& t.name == name
                &&& t.tier == tier
                &&& t.status == TenantStatus::Active
                &&& t.quotas == spec_tier_quotas(tier)
                &&& t.created_at == now_ns
            },
            final(self).tenants_map().contains_key(id@),
            tenant_like(final(self).tenants_map().val_of(id@), r->Ok_0),
            final(self).usage_map().contains_key(id@),
            final(self).usage_map().val_of(id@) == spec_zero_usage(),
            forall|k: Seq<char>|
                k != id@ ==> #[trigger] final(self).tenants_map().contains_key(k) == old(self).tenants_map().contains_key(k),
            forall|k: Seq<char>|
                k != id@ && old(self).tenants_map().contains_key(k) ==> #[trigger] final(self).tenants_map().val_of(k) == old(self).tenants_map().val_of(k),
            forall|k: Seq<char>|
                k != id@ && old(self).usage_map().contains_key(k) ==> #[trigger] final(self).usage_map().val_of(k) == old(self).usage_map().val_of(k),
            final(self).agents_map() == old(self).agents_map(),
    {
        let tenant = Tenant::new(id, name, tier, now_ns);
        let copy = clone_tenant(&tenant);
        let key = tenant.id.clone();
        let key2 = tenant.id.clone();
        self.tenants.insert(key, tenant);
        self.usage.insert(key2, TenantUsage::default());
        Ok(copy)
    }

    /// A copy of the tenant under `tenant_id`.
    pub fn get_tenant(&self, tenant_id: &str) -> (r: Option<Tenant>)
        requires
            self.wf(),
        ensures
            self.tenants_map().contains_key(tenant_id@) ==> (r matches Some(t) && tenant_like(
                t,
                self.tenants_map().val_of(tenant_id@),
            )),
            !self.tenants_map().contains_key(tenant_id@) ==> r is None,
    {
        match self.tenants.get(tenant_id) {
            Some(t) => Some(clone_tenant(t)),
            None => None,
        }
    }

    /// Move a tenant to a tier, reapplying that tier's default quotas.
    pub fn update_tier(&mut self, tenant_id: &str, tier: TenantTier) -> (r: Result<
        (),
        TenantError,
    >)
        requires
            old(self).wf(),
        ensures
            final(self).wf(),
            r is Ok <==> old(self).tenants_map().contains_key(tenant_id@),
            r is Err ==> (r matches Err(e) && e matches TenantError::NotFound(_) && *final(self)
                == *old(self)),
            old(self).tenants_map().contains_key(tenant_id@) ==> {
                let before = old(self).tenants_map().val_of(tenant_id@);
                let after = final(self).tenants_map().val_of(tenant_id@);
                &&& final(self).tenants_map().contains_key(tenant_id@)
                &&& after.tier == tier
                &&& after.quotas == spec_tier_quotas(tier)
                &&& after.id == before.id
                &&& after.name == before.name
                &&& after.status == before.status
                &&& after.created_at == before.created_at
            },
            forall|k: Seq<char>|
                #[trigger] final(self).tenants_map().contains_key(k) == old(self).tenants_map().contains_key(k),
            forall|k: Seq<char>|
                k != tenant_id@ && old(self).tenants_map().contains_key(k) ==> #[trigger] final(self).tenants_map().val_of(k) == old(self).tenants_map().val_of(k),
            final(self).usage_map() == old(self).usage_map(),
            final(self).agents_map() == old(self).agents_map(),
    {
        match self.tenants.remove(tenant_id) {
            Some(mut t) => {
                t.tier = tier;
                t.quotas = tier.default_quotas();
                self.tenants.insert(String::from_str(tenant_id), t);
                Ok(())
            },
            None => Err(TenantError::NotFound(String::from_str(tenant_id))),
        }
    }

    /// Set a tenant's lifecycle state.
    fn set_status(&mut self, tenant_id: &str, status: TenantStatus) -> (r: Result<
        (),
        TenantError,
    >)
        requires
            old(self).wf(),
        ensures
            final(self).wf(),
            r is Ok <==> old(self).tenants_map().contains_key(tenant_id@),
            r is Err ==> (r matches Err(e) && e matches TenantError::NotFound(_) && *final(self)
                == *old(self)),
            old(self).tenants_map().contains_key(tenant_id@) ==> {
                let before = old(self).tenants_map().val_of(tenant_id@);
                let after = final(self).tenants_map().val_of(tenant_id@);
                &&& final(self).tenants_map().contains_key(tenant_id@)
                &&& after.status == status
                &&& after.id == before.id
                &&& after.name == before.name
                &&& after.tier == before.tier
                &&& after.quotas == before.quotas
                &&& after.created_at == before.created_at
            },
            forall|k: Seq<char>|
                #[trigger] final(self).tenants_map().contains_key(k) == old(self).tenants_map().contains_key(k),
            forall|k: Seq<char>|
                k != tenant_id@ && old(self).tenants_map().contains_key(k) ==> #[trigger] final(self).tenants_map().val_of(k) == old(self).tenants_map().val_of(k),
            final(self).usage_map() == old(self).usage_map(),
            final(self).agents_map() == old(self).agents_map(),
    {
        match self.tenants.remove(tenant_id) {
            Some(mut t) => {
                t.status = status;
                self.tenants.insert(String::from_str(tenant_id), t);
                Ok(())
            },
            None => Err(TenantError::NotFound(String::from_str(tenant_id))),
        }
    }

    /// Suspend a tenant: registration and recording will refuse it.
    pub fn suspend_tenant(&mut self, tenant_id: &str) -> (r: Result<(), TenantError>)
        requires
            old(self).wf(),
        ensures
            final(self).wf(),
            r is Ok <==> old(self).tenants_map().contains_key(tenant_id@),
            old(self).tenants_map().contains_key(tenant_id@) ==> final(self).tenants_map().val_of(tenant_id@).status == TenantStatus::Suspended,
            forall|k: Seq<char>|
                #[trigger] final(self).tenants_map().contains_key(k) == old(self).tenants_map().contains_key(k),
            final(self).usage_map() == old(self).usage_map(),
            final(self).agents_map() == old(self).agents_map(),
    {
        self.set_status(tenant_id, TenantStatus::Suspended)
    }

    /// Reactivate a tenant.
    pub fn activate_tenant(&mut self, tenant_id: &str) -> (r: Result<(), TenantError>)
        requires
            old(self).wf(),
        ensures
            final(self).wf(),
            r is Ok <==> old(self).tenants_map().contains_key(tenant_id@),
            old(self).tenants_map().contains_key(tenant_id@) ==> final(self).tenants_map().val_of(tenant_id@).status == TenantStatus::Active,
            forall|k: Seq<char>|
                #[trigger] final(self).tenants_map().contains_key(k) == old(self).tenants_map().contains_key(k),
            final(self).usage_map() == old(self).usage_map(),
            final(self).agents_map() == old(self).agents_map(),
    {
        self.set_status(tenant_id, TenantStatus::Active)
    }

    /// Bind an agent to a tenant: the tenant must exist, be active and be
    /// under quota; a rebinding overwrites.
    pub fn register_agent(&mut self, agent_id: &str, tenant_id: &str) -> (r: Result<
        (),
        TenantError,
    >)
        requires
            old(self).wf(),
        ensures
            final(self).wf(),
            ({
                let known = old(self).tenants_map().contains_key(tenant_id@);
                let active = known && old(self).tenants_map().val_of(tenant_id@).status
                    == TenantStatus::Active;
                let within = known && spec_within_quota(
                    old(self).usage_map().val_of(tenant_id@),
                    old(self).tenants_map().val_of(tenant_id@).quotas,
                );
                &&& (r is Ok <==> known && active && within)
                &&& (!known ==> (r matches Err(e) && e matches TenantError::NotFound(_) && *final(self) == *old(self)))
                &&& (known && !active ==> (r matches Err(e) && e matches TenantError::Suspended(_)
                    && *final(self) == *old(self)))
                &&& (known && active && !within ==> (r matches Err(e) && e matches
                TenantError::QuotaExceeded(_) && *final(self) == *old(self)))
                &&& (r is Ok ==> {
                    let before = old(self).usage_map().val_of(tenant_id@);
                    let after = final(self).usage_map().val_of(tenant_id@);
                    &&& final(self).agents_map().contains_key(agent_id@)
                    &&& final(self).agents_map().val_of(agent_id@)@ == tenant_id@
                    &&& after.agents_count == before.agents_count + 1
                    &&& after.messages_today == before.messages_today
                    &&& after.tokens_today == before.tokens_today
                    &&& after.endpoints_count == before.endpoints_count
                    &&& after.concurrent_requests == before.concurrent_requests
                    &&& after.storage_used == before.storage_used
                    &&& after.last_reset == before.last_reset
                    &&& final(self).tenants_map() == old(self).tenants_map()
                })
            }),
            forall|k: Seq<char>|
                k != agent_id@ ==> #[trigger] final(self).agents_map().contains_key(k) == old(self).agents_map().contains_key(k),
            forall|k: Seq<char>|
                k != agent_id@ && old(self).agents_map().contains_key(k) ==> #[trigger] final(self).agents_map().val_of(k) == old(self).agents_map().val_of(k),
            forall|k: Seq<char>|
                #[trigger] final(self).usage_map().contains_key(k) == old(self).usage_map().contains_key(k),
            forall|k: Seq<char>|
                k != tenant_id@ && old(self).usage_map().contains_key(k) ==> #[trigger] final(self).usage_map().val_of(k) == old(self).usage_map().val_of(k),
    {
        let (active, quotas) = match self.tenants.get(tenant_id) {
            Some(t) => (t.status == TenantStatus::Active, t.quotas),
            None => {
                return Err(TenantError::NotFound(String::from_str(tenant_id)));
            },
        };
        if !active {
            return Err(TenantError::Suspended(String::from_str(tenant_id)));
        }
        let usage: TenantUsage = match self.usage.get(tenant_id) {
            Some(u) => *u,
            None => TenantUsage::default(),
        };
        match usage.check_quota(&quotas) {
            Ok(()) => {
                let mut updated = usage;
                updated.agents_count = usage.agents_count + 1;
                self.usage.insert(String::from_str(tenant_id), updated);
                self.agent_tenants.insert(
                    String::from_str(agent_id),
                    String::from_str(tenant_id),
                );
                Ok(())
            },
            Err(e) => Err(e),
        }
    }

    /// The tenant an agent is bound to.
    pub fn get_agent_tenant(&self, agent_id: &str) -> (r: Option<String>)
        requires
            self.wf(),
        ensures
            self.agents_map().contains_key(agent_id@) ==> (r matches Some(t) && t@
                == self.agents_map().val_of(agent_id@)@),
            !self.agents_map().contains_key(agent_id@) ==> r is None,
    {
        match self.agent_tenants.get(agent_id) {
            Some(t) => Some(t.clone()),
            None => None,
        }
    }

    /// Account one message and its tokens to a tenant: the tenant must
    /// exist, be active and be under quota. The token counter saturates.
    pub fn record_message(&mut self, tenant_id: &str, tokens: u64) -> (r: Result<(), TenantError>)
        requires
            old(self).wf(),
        ensures
            final(self).wf(),
            ({
                let known = old(self).tenants_map().contains_key(tenant_id@);
                let active = known && old(self).tenants_map().val_of(tenant_id@).status
                    == TenantStatus::Active;
                let within = known && spec_within_quota(
                    old(self).usage_map().val_of(tenant_id@),
                    old(self).tenants_map().val_of(tenant_id@).quotas,
                );
                &&& (r is Ok <==> known && active && within)
                &&& (!known ==> (r matches Err(e) && e matches TenantError::NotFound(_) && *final(self) == *old(self)))
                &&& (known && !active ==> (r matches Err(e) && e matches TenantError::Suspended(_)
                    && *final(self) == *old(self)))
                &&& (known && active && !within ==> (r matches Err(e) && e matches
                TenantError::QuotaExceeded(_) && *final(self) == *old(self)))
                &&& (known && active && !within && old(self).usage_map().val_of(
                    tenant_id@,
                ).messages_today >= old(self).tenants_map().val_of(
                    tenant_id@,
                ).quotas.max_messages_per_day && old(self).usage_map().val_of(
                    tenant_id@,
                ).agents_count < old(self).tenants_map().val_of(tenant_id@).quotas.max_agents ==> (
                r matches Err(e) && e matches TenantError::QuotaExceeded(n) && n@
                    == "max_messages_per_day"@))
                &&& (r is Ok ==> {
                    let before = old(self).usage_map().val_of(tenant_id@);
                    let after = final(self).usage_map().val_of(tenant_id@);
                    &&& after.messages_today == before.messages_today + 1
                    &&& after.tokens_today == (if before.tokens_today + tokens > u64::MAX {
                        u64::MAX as int
                    } else {
                        before.tokens_today + tokens
                    })
                    &&& after.agents_count == before.agents_count
                    &&& after.endpoints_count == before.endpoints_count
                    &&& after.concurrent_requests == before.concurrent_requests
                    &&& after.storage_used == before.storage_used
                    &&& after.last_reset == before.last_reset
                    &&& final(self).tenants_map() == old(self).tenants_map()
                    &&& final(self).agents_map() == old(self).agents_map()
                })
            }),
            forall|k: Seq<char>|
                #[trigger] final(self).usage_map().contains_key(k) == old(self).usage_map().contains_key(k),
            forall|k: Seq<char>|
                k != tenant_id@ && old(self).usage_map().contains_key(k) ==> #[trigger] final(self).usage_map().val_of(k) == old(self).usage_map().val_of(k),
    {
        let (active, quotas) = match self.tenants.get(tenant_id) {
            Some(t) => (t.status == TenantStatus::Active, t.quotas),
            None => {
                return Err(TenantError::NotFound(String::from_str(tenant_id)));
            },
        };
        if !active {
            return Err(TenantError::Suspended(String::from_str(tenant_id)));
        }
        let usage: TenantUsage = match self.usage.get(tenant_id) {
            Some(u) => *u,
            None => TenantUsage::default(),
        };
        match usage.check_quota(&quotas) {
            Ok(()) => {
                let mut updated = usage;
                updated.messages_today = usage.messages_today + 1;
                if usage.tokens_today > u64::MAX - tokens {
                    updated.tokens_today = u64::MAX;
                } else {
                    updated.tokens_today = usage.tokens_today + tokens;
                }
                self.usage.insert(String::from_str(tenant_id), updated);
                Ok(())
            },
            Err(e) => Err(e),
        }
    }

    /// A tenant's usage record.
    pub fn get_usage(&self, tenant_id: &str) -> (r: Option<TenantUsage>)
        requires
            self.wf(),
        ensures
            self.usage_map().contains_key(tenant_id@) ==> (r matches Some(u) && u
                == self.usage_map().val_of(tenant_id@)),
            !self.usage_map().contains_key(tenant_id@) ==> r is None,
    {
        match self.usage.get(tenant_id) {
            Some(u) => Some(*u),
            None => None,
        }
    }

    /// Zero every tenant's daily counters; `now_ns` stamps the reset.
    pub fn reset_daily_usage(&mut self, now_ns: i64)
        requires
            old(self).wf(),
        ensures
            final(self).wf(),
            final(self).tenants_map() == old(self).tenants_map(),
            final(self).agents_map() == old(self).agents_map(),
            forall|k: Seq<char>|
                #[trigger] final(self).usage_map().contains_key(k) == old(self).usage_map().contains_key(k),
            forall|k: Seq<char>|
                #[trigger] old(self).usage_map().contains_key(k) ==> {
                    let before = old(self).usage_map().val_of(k);
                    let after = final(self).usage_map().val_of(k);
                    &&& after.messages_today == 0
                    &&& after.tokens_today == 0
                    &&& after.last_reset == now_ns
                    &&& after.agents_count == before.agents_count
                    &&& after.endpoints_count == before.endpoints_count
                    &&& after.concurrent_requests == before.concurrent_requests
                    &&& after.storage_used == before.storage_used
                },
    {
        let ghost oes = self.usage.entries_seq();
        let n = self.usage.len();
        let mut fresh: KeyMap<TenantUsage> = KeyMap::new();
        let mut i: usize = 0;
        while i < n
            invariant
                self.usage.wf(),
                oes == self.usage.entries_seq(),
                n == self.usage.num_entries(),
                i <= n,
                fresh.wf(),
                forall|k: Seq<char>|
                    #[trigger] fresh.contains_key(k) <==> (self.usage.contains_key(k)
                        && self.usage.index_of(k) < i),
                forall|k: Seq<char>|
                    #[trigger] fresh.contains_key(k) ==> {
                        let before = self.usage.val_of(k);
                        let after = fresh.val_of(k);
                        &&& after.messages_today == 0
                        &&& after.tokens_today == 0
                        &&& after.last_reset == now_ns
                        &&& after.agents_count == before.agents_count
                        &&& after.endpoints_count == before.endpoints_count
                        &&& after.concurrent_requests == before.concurrent_requests
                        &&& after.storage_used == before.storage_used
                    },
            decreases n - i,
        {
            let key = self.usage.key_at(i).clone();
            let mut u: TenantUsage = *self.usage.val_at(i);
            u.messages_today = 0;
            u.tokens_today = 0;
            u.last_reset = now_ns;
            proof {
                self.usage.lemma_index_unique(oes[i as int].0, i as int);
                assert(!fresh.contains_key(key@));
            }
            fresh.insert(key, u);
            proof {
                assert forall|k: Seq<char>| #[trigger] fresh.contains_key(k) implies (
                self.usage.contains_key(k) && self.usage.index_of(k) < i + 1) by {}
            }
            i += 1;
        }
        proof {
            assert forall|k: Seq<char>| #[trigger] self.usage.contains_key(k) implies fresh.contains_key(
                k,
            ) by {
                let j = self.usage.index_of(k);
                assert(0 <= j < n);
            }
        }
        self.usage = fresh;
    }

    /// Copies of every tenant, in map order.
    pub fn list_tenants(&self) -> (r: Vec<Tenant>)
        requires
            self.wf(),
        ensures
            r@.len() == self.tenants_map().num_entries(),
            forall|i: int|
                0 <= i < r@.len() ==> tenant_like(
                    #[trigger] r@[i],
                    self.tenants_map().entries_seq()[i].1,
                ),
    {
        let ghost es = self.tenants_map().entries_seq();
        let n = self.tenants.len();
        let mut out: Vec<Tenant> = Vec::new();
        let mut i: usize = 0;
        while i < n
            invariant
                self.wf(),
                es == self.tenants_map().entries_seq(),
                n == self.tenants_map().num_entries(),
                i <= n,
                out@.len() == i,
                forall|j: int| 0 <= j < i ==> tenant_like(#[trigger] out@[j], es[j].1),
            decreases n - i,
        {
            out.push(clone_tenant(self.tenants.val_at(i)));
            i += 1;
        }
        out
    }

    /// Drop a tenant, its usage and every agent bound to it.
    pub fn delete_tenant(&mut self, tenant_id: &str) -> (r: bool)
        requires
            old(self).wf(),
        ensures
            final(self).wf(),
            r,
            !final(self).tenants_map().contains_key(tenant_id@),
            !final(self).usage_map().contains_key(tenant_id@),
            forall|k: Seq<char>|
                k != tenant_id@ ==> #[trigger] final(self).tenants_map().contains_key(k) == old(self).tenants_map().contains_key(k),
            forall|a: Seq<char>|
                #[trigger] final(self).agents_map().contains_key(a) <==> (old(self).agents_map().contains_key(a) && old(self).agents_map().val_of(a)@ != tenant_id@),
            forall|a: Seq<char>|
                #[trigger] final(self).agents_map().contains_key(a) ==> final(self).agents_map().val_of(a) == old(self).agents_map().val_of(a),
    {
        self.tenants.remove(tenant_id);
        self.usage.remove(tenant_id);
        let ghost oes = self.agent_tenants.entries_seq();
        let n = self.agent_tenants.len();
        let mut fresh: KeyMap<String> = KeyMap::new();
        let mut i: usize = 0;
        while i < n
            invariant
                self.agent_tenants.wf(),
                oes == self.agent_tenants.entries_seq(),
                n == self.agent_tenants.num_entries(),
                i <= n,
                fresh.wf(),
                forall|a: Seq<char>|
                    #[trigger] fresh.contains_key(a) <==> (self.agent_tenants.contains_key(a)
                        && self.agent_tenants.index_of(a) < i && self.agent_tenants.val_of(a)@
                        != tenant_id@),
                forall|a: Seq<char>|
                    #[trigger] fresh.contains_key(a) ==> fresh.val_of(a)
                        == self.agent_tenants.val_of(a),
            decreases n - i,
        {
            let keep = !crate::strutil::str_eq(self.agent_tenants.val_at(i).as_str(), tenant_id);
            proof {
                self.agent_tenants.lemma_index_unique(oes[i as int].0, i as int);
            }
            if keep {
                let key = self.agent_tenants.key_at(i).clone();
                let val = self.agent_tenants.val_at(i).clone();
                proof {
                    assert(!fresh.contains_key(key@));
                }
                fresh.insert(key, val);
            }
            proof {
                assert forall|a: Seq<char>| #[trigger] fresh.contains_key(a) implies (
                self.agent_tenants.contains_key(a) && self.agent_tenants.index_of(a) < i + 1
                    && self.agent_tenants.val_of(a)@ != tenant_id@) by {}
            }
            i += 1;
        }
        self.agent_tenants = fresh;
        true
    }
}

} // verus!
