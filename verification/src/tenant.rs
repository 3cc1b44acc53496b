//! Tenant registry: per-tenant limits and the enabled switch.
use vstd::prelude::*;
use crate::assoc::{assoc_map, keys_unique, lemma_assoc_absent, lemma_assoc_index, lemma_assoc_nonempty, lemma_assoc_push, lemma_assoc_update, lemma_unique_push};
use crate::types::TenantId;

verus! {

/// Configuration of one tenant.
#[derive(Debug)]
pub struct TenantConfig {
    pub id: TenantId,
    pub vfs_root: String,
    pub max_memory_mb: u64,
    pub max_requests_per_minute: u64,
    pub enabled: bool,
}

/// A tenant's configuration as values.
pub struct TenantView {
    pub id: Seq<char>,
    pub vfs_root: Seq<char>,
    pub max_memory_mb: u64,
    pub max_requests_per_minute: u64,
    pub enabled: bool,
}

impl TenantConfig {
    /// This configuration as values.
    pub open spec fn view_config(&self) -> TenantView {
        TenantView {
            id: self.id@,
            vfs_root: self.vfs_root@,
            max_memory_mb: self.max_memory_mb,
            max_requests_per_minute: self.max_requests_per_minute,
            enabled: self.enabled,
        }
    }
}

impl Clone for TenantConfig {
    fn clone(&self) -> (c: TenantConfig)
        ensures
            c.view_config() == self.view_config(),
    {
        TenantConfig {
            id: self.id.clone(),
            vfs_root: self.vfs_root.clone(),
            max_memory_mb: self.max_memory_mb,
            max_requests_per_minute: self.max_requests_per_minute,
            enabled: self.enabled,
        }
    }
}

/// The enabled rule: with no tenants registered every tenant is admitted
/// (open mode); otherwise only registered, enabled tenants are.
pub open spec fn enabled_in(m: Map<Seq<char>, TenantView>, id: Seq<char>) -> bool {
    if m.dom().len() == 0 {
        true
    } else {
        m.dom().contains(id) && m[id].enabled
    }
}

/// Registry of tenants, one configuration per tenant id.
pub struct TenantRegistry {
    tenants: Vec<TenantConfig>,
}

impl TenantRegistry {
    /// The entries as (id, configuration).
    pub closed spec fn entries(&self) -> Seq<(Seq<char>, TenantView)> {
        self.tenants@.map_values(|c: TenantConfig| (c.id@, c.view_config()))
    }

    /// The registered configurations by tenant id.
    pub closed spec fn tenants(&self) -> Map<Seq<char>, TenantView> {
        assoc_map(self.entries())
    }

    #[verifier::type_invariant]
    spec fn well_formed(&self) -> bool {
        keys_unique(self.entries())
    }

    /// An empty registry.
    pub fn new() -> (r: TenantRegistry)
        ensures
            r.tenants() == Map::<Seq<char>, TenantView>::empty(),
    {
        let r = TenantRegistry { tenants: Vec::new() };
        assert(r.entries() =~= Seq::empty());
        r
    }

    fn find(&self, id: &TenantId) -> (r: Option<usize>)
        ensures
            r matches Some(i) ==> i < self.tenants@.len() && self.entries()[i as int].0 == id@,
            r is None ==> forall|i: int| 0 <= i < self.entries().len() ==> self.entries()[i].0 != id@,
    {
        let mut i: usize = 0;
        while i < self.tenants.len()
            invariant
                i <= self.tenants@.len(),
                forall|j: int| 0 <= j < i ==> self.entries()[j].0 != id@,
            decreases self.tenants@.len() - i,
        {
            if self.tenants[i].id == *id {
                return Some(i);
            }
            i = i + 1;
        }
        None
    }

    /// Registers a tenant, replacing any configuration with the same id.
    pub fn register(&mut self, config: TenantConfig)
        ensures
            final(self).tenants() == old(self).tenants().insert(config.id@, config.view_config()),
    {
        proof { use_type_invariant(&*self); }
        let ghost cv = config.view_config();
        let ghost k = config.id@;
        let found = self.find(&config.id);
        let mut v: Vec<TenantConfig> = Vec::new();
        std::mem::swap(&mut v, &mut self.tenants);
        let ghost ev = v@.map_values(|c: TenantConfig| (c.id@, c.view_config()));
        match found {
            Some(i) => {
                proof {
                    lemma_assoc_update(ev, i as int, cv);
                }
                v.set(i, config);
                assert(v@.map_values(|c: TenantConfig| (c.id@, c.view_config())) =~= ev.update(i as int, (ev[i as int].0, cv)));
            },
            None => {
                proof {
                    lemma_assoc_absent(ev, k);
                    lemma_unique_push(ev, k, cv);
                    lemma_assoc_push(ev, k, cv);
                }
                v.push(config);
                assert(v@.map_values(|c: TenantConfig| (c.id@, c.view_config())) =~= ev.push((k, cv)));
            },
        }
        self.tenants = v;
    }

    /// The configuration of a tenant, if registered.
    pub fn get(&self, id: &TenantId) -> (r: Option<&TenantConfig>)
        ensures
            r is Some <==> self.tenants().dom().contains(id@),
            r matches Some(c) ==> c.view_config() == self.tenants()[id@],
    {
        proof { use_type_invariant(&*self); }
        match self.find(id) {
            Some(i) => {
                proof { lemma_assoc_index(self.entries(), i as int); }
                Some(&self.tenants[i])
            },
            None => {
                proof { lemma_assoc_absent(self.entries(), id@); }
                None
            },
        }
    }

    /// Whether a tenant may be served (the rule of `enabled_in`).
    pub fn is_enabled(&self, id: &TenantId) -> (b: bool)
        ensures
            b == enabled_in(self.tenants(), id@),
    {
        proof { use_type_invariant(&*self); }
        if self.tenants.len() == 0 {
            assert(self.entries() =~= Seq::empty());
            assert(self.tenants() =~= Map::empty());
            return true;
        }
        proof {
            lemma_assoc_nonempty(self.entries(), 0);
        }
        match self.get(id) {
            Some(c) => c.enabled,
            None => false,
        }
    }
}

/// Law: registering the same configuration twice leaves the registry as
/// registering it once.
pub proof fn law_register_idempotent(m: Map<Seq<char>, TenantView>, c: TenantView)
    ensures
        m.insert(c.id, c).insert(c.id, c) == m.insert(c.id, c),
{
    assert(m.insert(c.id, c).insert(c.id, c) =~= m.insert(c.id, c));
}

/// Law: once a registry is not empty, registering one tenant leaves every
/// other tenant's admission unchanged; and a registered tenant is admitted
/// exactly when its configuration is enabled.
pub proof fn law_register_isolated(m: Map<Seq<char>, TenantView>, c: TenantView, other: Seq<char>)
    requires
        m.dom().finite(),
        m.dom().len() > 0,
        other != c.id,
    ensures
        enabled_in(m.insert(c.id, c), other) == enabled_in(m, other),
        enabled_in(m.insert(c.id, c), c.id) == c.enabled,
{
    let n = m.insert(c.id, c);
    assert(n.dom().contains(c.id));
    assert(n.dom().len() > 0) by {
        if n.dom().len() == 0 {
            n.dom().lemma_len0_is_empty();
        }
    }
}

/// Law: after a registration, looking the tenant up gives the registered
/// configuration back, and the tenant is admitted exactly when that
/// configuration is enabled.
pub proof fn law_register_then_get(m: Map<Seq<char>, TenantView>, c: TenantView)
    requires
        m.dom().finite(),
    ensures
        m.insert(c.id, c).dom().contains(c.id),
        m.insert(c.id, c)[c.id] == c,
        enabled_in(m.insert(c.id, c), c.id) == c.enabled,
{
    let n = m.insert(c.id, c);
    assert(n.dom().len() > 0) by {
        if n.dom().len() == 0 {
            n.dom().lemma_len0_is_empty();
        }
    }
}

/// Law: an empty registry admits every tenant (open mode).
pub proof fn law_open_mode(id: Seq<char>)
    ensures
        enabled_in(Map::<Seq<char>, TenantView>::empty(), id),
{
    assert(Map::<Seq<char>, TenantView>::empty().dom() =~= Set::<Seq<char>>::empty());
}

} // verus!
