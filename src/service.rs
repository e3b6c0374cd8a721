//! Lifecycle decisions of the gateway service and the status it reports.
use vstd::prelude::*;
use crate::config::{ConfigCell, RoutingConfig, UpstreamProxyConfig, bind_address_of, same_config};
use crate::continuation::ContinuationStore;
use crate::mapping::MappingTable;
use crate::monitor::RequestMonitor;
use crate::scheduler::Scheduler;

verus! {

/// Decimal digits of `n`, most significant first.
pub open spec fn decimal(n: nat) -> Seq<char>
    decreases n,
{
    if n < 10 {
        seq![digit_char(n)]
    } else {
        decimal(n / 10).push(digit_char(n % 10))
    }
}

pub open spec fn digit_char(d: nat) -> char {
    if d == 0 { '0' } else if d == 1 { '1' } else if d == 2 { '2' } else if d == 3 { '3' }
    else if d == 4 { '4' } else if d == 5 { '5' } else if d == 6 { '6' } else if d == 7 { '7' }
    else if d == 8 { '8' } else { '9' }
}

/// `http://<host>:<port>`.
pub open spec fn base_url_of(host: Seq<char>, port: u16) -> Seq<char> {
    "http://"@ + host + ":"@ + decimal(port as nat)
}

/// Relies on std's `format!` with `Display` for `&str` and `u16`: the host
/// as it is and the port in decimal.
#[verifier::external_body]
fn format_base_url(host: &str, port: u16) -> (r: String)
    ensures
        r@ == base_url_of(host@, port),
{
    format!("http://{}:{}", host, port)
}

/// What the status query reports.
pub struct ProxyStatus {
    pub running: bool,
    pub port: u16,
    pub base_url: String,
    pub active_accounts: usize,
}

/// A running gateway instance.
pub struct RunningService {
    pub port: u16,
    pub allow_lan_access: bool,
}

#[derive(Clone, Copy, Debug, PartialEq, Eq, Structural)]
pub enum StartError {
    AlreadyRunning,
    NoAccounts,
}

/// Whether a start request may go ahead: not while an instance runs, and
/// not with an empty pool unless the alternate dispatch path is active.
pub fn check_start(running: bool, account_count: usize, config: &RoutingConfig) -> (r: Result<(), StartError>)
    ensures
        running ==> r == Err::<(), StartError>(StartError::AlreadyRunning),
        !running && account_count == 0 && !(config.zai_enabled && config.zai_dispatch_mode
            != crate::config::ZaiDispatchMode::Off) ==> r == Err::<(), StartError>(StartError::NoAccounts),
        r is Ok <==> !running && (account_count > 0 || (config.zai_enabled && config.zai_dispatch_mode
            != crate::config::ZaiDispatchMode::Off)),
{
    if running {
        return Err(StartError::AlreadyRunning);
    }
    if account_count == 0 && !config.zai_active() {
        return Err(StartError::NoAccounts);
    }
    Ok(())
}

/// Status of the service: the instance's port, base URL and pool size when
/// one runs, zeros and an empty URL otherwise.
pub fn proxy_status(service: &Option<RunningService>, active_accounts: usize) -> (r: ProxyStatus)
    ensures
        match service {
            Some(s) => r.running && r.port == s.port && r.base_url@ == base_url_of(
                bind_address_of(s.allow_lan_access),
                s.port,
            ) && r.active_accounts == active_accounts,
            None => !r.running && r.port == 0 && r.base_url@.len() == 0 && r.active_accounts == 0,
        },
{
    match service {
        Some(s) => {
            let host: &str = if s.allow_lan_access {
                "0.0.0.0"
            } else {
                "127.0.0.1"
            };
            ProxyStatus {
                running: true,
                port: s.port,
                base_url: format_base_url(host, s.port),
                active_accounts,
            }
        },
        None => ProxyStatus { running: false, port: 0, base_url: String::new(), active_accounts: 0 },
    }
}

/// Shared state of a running gateway: the account pool, the continuation
/// store and the request monitor.
pub struct AppState {
    pub scheduler: Scheduler,
    pub continuations: ContinuationStore,
    pub monitor: RequestMonitor,
}

/// The gateway server: its live configuration and whether it has been told
/// to stop. Listening and serving connections happen outside.
pub struct AxumServer {
    pub config: ConfigCell,
    pub shutdown_requested: bool,
}

impl AxumServer {
    /// A server about to listen with `config`.
    pub fn start(config: RoutingConfig) -> (r: AxumServer)
        ensures
            r.config.current == config,
            r.config.version == 0,
            !r.shutdown_requested,
    {
        AxumServer { config: ConfigCell::new(config), shutdown_requested: false }
    }

    /// Hot-swaps the mapping table with that of `config`. Without room for
    /// another version the configuration is left as it is.
    pub fn update_mapping(&mut self, config: &RoutingConfig)
        ensures
            old(self).config.version < u64::MAX ==> final(self).config.current.custom_mapping@
                == config.custom_mapping@ && final(self).config.version == old(self).config.version + 1,
            old(self).config.version < u64::MAX ==> same_config(
                final(self).config.current,
                RoutingConfig {
                    custom_mapping: final(self).config.current.custom_mapping,
                    ..old(self).config.current
                },
            ),
            old(self).config.version == u64::MAX ==> final(self).config == old(self).config,
            final(self).shutdown_requested == old(self).shutdown_requested,
    {
        if self.config.version < u64::MAX {
            let m: MappingTable = crate::config::copy_table(&config.custom_mapping);
            self.config.update_mapping(m);
        }
    }

    /// Hot-swaps the forward-proxy settings. Without room for another
    /// version the configuration is left as it is.
    pub fn update_proxy(&mut self, new_config: UpstreamProxyConfig)
        ensures
            old(self).config.version < u64::MAX ==> final(self).config.current == (RoutingConfig {
                upstream_proxy: new_config,
                ..old(self).config.current
            }) && final(self).config.version == old(self).config.version + 1,
            old(self).config.version == u64::MAX ==> final(self).config == old(self).config,
            final(self).shutdown_requested == old(self).shutdown_requested,
    {
        if self.config.version < u64::MAX {
            self.config.update_proxy(new_config);
        }
    }

    /// Asks the server to stop. Returns whether the shutdown signal is to be
    /// sent now (it had not been asked before).
    pub fn stop(&mut self) -> (send: bool)
        ensures
            send == !old(self).shutdown_requested,
            final(self).shutdown_requested,
            final(self).config == old(self).config,
    {
        let send = !self.shutdown_requested;
        self.shutdown_requested = true;
        send
    }
}

} // verus!
