//! The routing configuration and the cell that holds it for hot swapping:
//! readers take a lease (a snapshot), an update replaces the whole value.
use vstd::prelude::*;
use crate::mapping::MappingTable;

verus! {

#[derive(Clone, Copy, Debug, PartialEq, Eq, Structural)]
pub enum ZaiDispatchMode {
    Off,
    Exclusive,
    Pooled,
    Fallback,
}

/// Forward HTTP proxy through which upstream calls are made.
#[derive(Clone, Debug, PartialEq, Eq)]
pub struct UpstreamProxyConfig {
    pub enabled: bool,
    pub url: String,
}

pub struct RoutingConfig {
    pub custom_mapping: MappingTable,
    pub upstream_proxy: UpstreamProxyConfig,
    pub request_timeout: u64,
    pub sticky_ttl: u64,
    pub enable_logging: bool,
    pub allow_lan_access: bool,
    pub port: u16,
    pub zai_enabled: bool,
    pub zai_dispatch_mode: ZaiDispatchMode,
}

/// `a` and `b` hold the same configuration.
pub open spec fn same_config(a: RoutingConfig, b: RoutingConfig) -> bool {
    &&& a.custom_mapping@ == b.custom_mapping@
    &&& a.upstream_proxy == b.upstream_proxy
    &&& a.request_timeout == b.request_timeout
    &&& a.sticky_ttl == b.sticky_ttl
    &&& a.enable_logging == b.enable_logging
    &&& a.allow_lan_access == b.allow_lan_access
    &&& a.port == b.port
    &&& a.zai_enabled == b.zai_enabled
    &&& a.zai_dispatch_mode == b.zai_dispatch_mode
}

pub fn copy_table(t: &MappingTable) -> (r: MappingTable)
    ensures
        r@ == t@,
{
    let mut entries: Vec<(String, String)> = Vec::new();
    let mut i: usize = 0;
    while i < t.entries.len()
        invariant
            0 <= i <= t.entries@.len(),
            crate::mapping::entries_view(entries@) =~= t@.subrange(0, i as int),
        decreases t.entries.len() - i,
    {
        let ghost before = entries@;
        entries.push((t.entries[i].0.clone(), t.entries[i].1.clone()));
        assert(crate::mapping::entries_view(entries@) =~= crate::mapping::entries_view(before).push(
            t@[i as int],
        ));
        i = i + 1;
    }
    MappingTable { entries }
}

impl RoutingConfig {
    pub fn snapshot(&self) -> (r: RoutingConfig)
        ensures
            same_config(r, *self),
    {
        RoutingConfig {
            custom_mapping: copy_table(&self.custom_mapping),
            upstream_proxy: UpstreamProxyConfig {
                enabled: self.upstream_proxy.enabled,
                url: self.upstream_proxy.url.clone(),
            },
            request_timeout: self.request_timeout,
            sticky_ttl: self.sticky_ttl,
            enable_logging: self.enable_logging,
            allow_lan_access: self.allow_lan_access,
            port: self.port,
            zai_enabled: self.zai_enabled,
            zai_dispatch_mode: self.zai_dispatch_mode,
        }
    }

    /// Whether the alternate dispatch path can serve requests on its own.
    pub fn zai_active(&self) -> (r: bool)
        ensures
            r == (self.zai_enabled && self.zai_dispatch_mode != ZaiDispatchMode::Off),
    {
        self.zai_enabled && !matches!(self.zai_dispatch_mode, ZaiDispatchMode::Off)
    }

    /// Address the gateway listens on: every interface when LAN access is
    /// allowed, loopback otherwise.
    pub fn bind_address(&self) -> (r: &'static str)
        ensures
            r@ == bind_address_of(self.allow_lan_access),
    {
        if self.allow_lan_access {
            "0.0.0.0"
        } else {
            "127.0.0.1"
        }
    }
}

pub open spec fn bind_address_of(allow_lan: bool) -> Seq<char> {
    if allow_lan {
        "0.0.0.0"@
    } else {
        "127.0.0.1"@
    }
}

/// `lease` was taken from `cell` as it stood.
pub open spec fn leased_from(cell: ConfigCell, lease: ConfigLease) -> bool {
    same_config(lease.config, cell.current) && lease.version == cell.version
}

/// `after` is `before` with its configuration replaced by `incoming`.
pub open spec fn swapped(before: ConfigCell, incoming: RoutingConfig, after: ConfigCell) -> bool {
    after.current == incoming && after.version == before.version + 1
}

/// A reader's view of the configuration, fixed for the lifetime of the
/// request that took it.
pub struct ConfigLease {
    pub version: u64,
    pub config: RoutingConfig,
}

/// Holder of the live configuration. `version` counts the swaps.
pub struct ConfigCell {
    pub current: RoutingConfig,
    pub version: u64,
}

impl ConfigCell {
    pub fn new(config: RoutingConfig) -> (r: ConfigCell)
        ensures
            r.current == config,
            r.version == 0,
    {
        ConfigCell { current: config, version: 0 }
    }

    /// Takes a read lease on the current configuration.
    pub fn lease(&self) -> (r: ConfigLease)
        ensures
            leased_from(*self, r),
    {
        ConfigLease { version: self.version, config: self.current.snapshot() }
    }

    /// Replaces the whole configuration at once.
    pub fn swap(&mut self, config: RoutingConfig)
        requires
            old(self).version < u64::MAX,
        ensures
            swapped(*old(self), config, *final(self)),
    {
        self.current = config;
        self.version = self.version + 1;
    }

    /// Replaces only the mapping table, as a whole-value swap.
    pub fn update_mapping(&mut self, mapping: MappingTable)
        requires
            old(self).version < u64::MAX,
        ensures
            final(self).current == (RoutingConfig { custom_mapping: mapping, ..old(self).current }),
            final(self).version == old(self).version + 1,
    {
        self.current.custom_mapping = mapping;
        self.version = self.version + 1;
    }

    /// Replaces only the forward-proxy settings, as a whole-value swap.
    pub fn update_proxy(&mut self, proxy: UpstreamProxyConfig)
        requires
            old(self).version < u64::MAX,
        ensures
            final(self).current == (RoutingConfig { upstream_proxy: proxy, ..old(self).current }),
            final(self).version == old(self).version + 1,
    {
        self.current.upstream_proxy = proxy;
        self.version = self.version + 1;
    }
}

/// Hot swap: a lease taken before a swap keeps the configuration it saw for
/// as long as it is held, and a lease taken after the swap sees the new one.
pub proof fn lemma_lease_isolation(
    before: ConfigCell,
    early: ConfigLease,
    after: ConfigCell,
    incoming: RoutingConfig,
    late: ConfigLease,
)
    requires
        leased_from(before, early),
        swapped(before, incoming, after),
        leased_from(after, late),
    ensures
        same_config(early.config, before.current),
        same_config(late.config, incoming),
        early.version < late.version,
{
}

} // verus!
