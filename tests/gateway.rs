use antigravity_gateway::config::{ConfigCell, RoutingConfig, UpstreamProxyConfig, ZaiDispatchMode};
use antigravity_gateway::mapping::{
    ends_with_series, map_request_model, migrate_mappings, resolve_model, MappingTable,
};
use antigravity_gateway::canonical::CanonicalRequest;
use antigravity_gateway::monitor::{Protocol, RequestLog, RequestMonitor};
use antigravity_gateway::retry::{backoff_delay, decide, AttemptOutcome, RetryDecision, RetryPolicy};
use antigravity_gateway::service::{check_start, proxy_status, AxumServer, RunningService, StartError};
use antigravity_gateway::upstream::{attempt_outcome, classify_upstream, UpstreamError};
use antigravity_gateway::stream::{ChunkAction, StreamRelay, StreamState};

fn table(pairs: &[(&str, &str)]) -> MappingTable {
    MappingTable { entries: pairs.iter().map(|(a, b)| (a.to_string(), b.to_string())).collect() }
}

fn config(port: u16, lan: bool) -> RoutingConfig {
    RoutingConfig {
        custom_mapping: table(&[("gpt-4", "gemini-2.5-pro")]),
        upstream_proxy: UpstreamProxyConfig { enabled: false, url: String::new() },
        request_timeout: 300,
        sticky_ttl: 60,
        enable_logging: true,
        allow_lan_access: lan,
        port,
        zai_enabled: false,
        zai_dispatch_mode: ZaiDispatchMode::Off,
    }
}

fn lookup(t: &MappingTable, k: &str) -> Option<String> {
    t.entries.iter().find(|e| e.0 == k).map(|e| e.1.clone())
}

#[test]
fn migration_folds_legacy_tables() {
    let custom = table(&[("gpt-4", "custom-target")]);
    let anthropic = table(&[("opus-large", "gemini-pro"), ("opus-series", "x"), ("gpt-4", "ignored")]);
    let openai = table(&[("gpt-4o", "gemini-flash"), ("opus-large", "ignored-too"), ("gpt-4-series", "y")]);
    let m = migrate_mappings(Some(custom), Some(anthropic), Some(openai));
    assert!(m.modified);
    assert_eq!(lookup(&m.custom_mapping, "gpt-4").as_deref(), Some("custom-target"));
    assert_eq!(lookup(&m.custom_mapping, "opus-large").as_deref(), Some("gemini-pro"));
    assert_eq!(lookup(&m.custom_mapping, "gpt-4o").as_deref(), Some("gemini-flash"));
    assert_eq!(lookup(&m.custom_mapping, "opus-series"), None);
    assert_eq!(lookup(&m.custom_mapping, "gpt-4-series"), None);
    assert_eq!(m.custom_mapping.entries.len(), 3);
}

#[test]
fn migration_without_legacy_tables_is_unmodified() {
    let m = migrate_mappings(None, None, None);
    assert!(!m.modified);
    assert!(m.custom_mapping.entries.is_empty());
    let m = migrate_mappings(None, None, Some(table(&[("a", "b")])));
    assert!(m.modified);
    assert_eq!(lookup(&m.custom_mapping, "a").as_deref(), Some("b"));
}

#[test]
fn series_suffix_detection() {
    assert!(ends_with_series(&"opus-series".to_string()));
    assert!(ends_with_series(&"-series".to_string()));
    assert!(!ends_with_series(&"series".to_string()));
    assert!(!ends_with_series(&"opus-serie".to_string()));
    assert!(!ends_with_series(&"".to_string()));
}

#[test]
fn model_mapping_rewrites_or_passes_through() {
    let t = table(&[("gpt-4", "gemini-2.5-pro"), ("gpt-4", "shadowed")]);
    assert_eq!(resolve_model(&t, &"gpt-4".to_string()), "gemini-2.5-pro");
    assert_eq!(resolve_model(&t, &"unknown".to_string()), "unknown");
    let mut req = CanonicalRequest { model: "gpt-4".to_string(), messages: Vec::new(), stream: false, max_tokens: None };
    map_request_model(&t, &mut req);
    assert_eq!(req.model, "gemini-2.5-pro");
}

#[test]
fn lease_before_swap_keeps_old_config() {
    let mut cell = ConfigCell::new(config(8045, false));
    let early = cell.lease();
    cell.swap(config(9000, true));
    let late = cell.lease();
    assert_eq!(early.config.port, 8045);
    assert!(!early.config.allow_lan_access);
    assert_eq!(late.config.port, 9000);
    assert_eq!((early.version, late.version), (0, 1));
}

#[test]
fn server_hot_updates_and_stop() {
    let mut server = AxumServer::start(config(8045, false));
    let lease = server.config.lease();
    let mut next = config(8045, false);
    next.custom_mapping = table(&[("o1", "gemini-exp")]);
    server.update_mapping(&next);
    server.update_proxy(UpstreamProxyConfig { enabled: true, url: "http://127.0.0.1:7890".to_string() });
    assert_eq!(server.config.version, 2);
    assert_eq!(lookup(&server.config.current.custom_mapping, "o1").as_deref(), Some("gemini-exp"));
    assert_eq!(lookup(&lease.config.custom_mapping, "o1"), None);
    assert!(server.config.current.upstream_proxy.enabled);
    assert!(server.stop());
    assert!(!server.stop());
}

#[test]
fn start_rules() {
    let c = config(8045, false);
    assert_eq!(check_start(true, 3, &c), Err(StartError::AlreadyRunning));
    assert_eq!(check_start(false, 0, &c), Err(StartError::NoAccounts));
    assert_eq!(check_start(false, 2, &c), Ok(()));
    let mut z = config(8045, false);
    z.zai_enabled = true;
    z.zai_dispatch_mode = ZaiDispatchMode::Exclusive;
    assert_eq!(check_start(false, 0, &z), Ok(()));
    z.zai_dispatch_mode = ZaiDispatchMode::Off;
    assert_eq!(check_start(false, 0, &z), Err(StartError::NoAccounts));
}

#[test]
fn status_reports_running_instance() {
    let st = proxy_status(&Some(RunningService { port: 8045, allow_lan_access: false }), 4);
    assert!(st.running);
    assert_eq!(st.base_url, "http://127.0.0.1:8045");
    assert_eq!(st.active_accounts, 4);
    let st = proxy_status(&Some(RunningService { port: 80, allow_lan_access: true }), 0);
    assert_eq!(st.base_url, "http://0.0.0.0:80");
    let st = proxy_status(&None, 9);
    assert!(!st.running);
    assert_eq!((st.port, st.base_url.as_str(), st.active_accounts), (0, "", 0));
}

fn log(success: bool, model: &str) -> RequestLog {
    RequestLog {
        protocol: Protocol::Anthropic,
        model: model.to_string(),
        account: "a@example.com".to_string(),
        status: if success { 200 } else { 502 },
        duration_ms: 12,
        success,
    }
}

#[test]
fn monitor_keeps_recent_requests() {
    let mut m = RequestMonitor::new(2, true);
    m.record(log(true, "m1"));
    m.record(log(false, "m2"));
    m.record(log(true, "m3"));
    let stats = m.get_stats();
    assert_eq!((stats.total, stats.success, stats.failed), (3, 2, 1));
    let logs = m.get_logs(100);
    assert_eq!(logs.len(), 2);
    assert_eq!(logs[0].model, "m3");
    assert_eq!(logs[1].model, "m2");
    assert_eq!(m.get_logs(1).len(), 1);
    m.set_enabled(false);
    m.record(log(true, "m4"));
    assert_eq!(m.get_stats().total, 3);
    assert_eq!(m.get_logs(100)[0].model, "m3");
}

#[test]
fn backoff_doubles_up_to_cap() {
    let p = RetryPolicy { max_attempts: 4, base_delay_ms: 100, max_delay_ms: 1000 };
    assert_eq!(backoff_delay(&p, 0), 100);
    assert_eq!(backoff_delay(&p, 1), 200);
    assert_eq!(backoff_delay(&p, 3), 800);
    assert_eq!(backoff_delay(&p, 4), 1000);
    assert_eq!(backoff_delay(&p, 60), 1000);
    let q = RetryPolicy { max_attempts: 3, base_delay_ms: u64::MAX, max_delay_ms: 5 };
    assert_eq!(backoff_delay(&q, 0), 5);
}

#[test]
fn retry_decisions() {
    let p = RetryPolicy { max_attempts: 3, base_delay_ms: 100, max_delay_ms: 1000 };
    assert_eq!(decide(&p, 0, AttemptOutcome::Transient), RetryDecision::RetryAfter { delay_ms: 100 });
    assert_eq!(decide(&p, 1, AttemptOutcome::Transient), RetryDecision::RetryAfter { delay_ms: 200 });
    assert_eq!(decide(&p, 2, AttemptOutcome::Transient), RetryDecision::GiveUp);
    assert_eq!(decide(&p, 0, AttemptOutcome::Rejected), RetryDecision::GiveUp);
    assert_eq!(decide(&p, 1, AttemptOutcome::Success), RetryDecision::Done);
}

#[test]
fn scenario_stream_cancelled_after_first_chunk() {
    let mut monitor = RequestMonitor::new(10, true);
    monitor.begin_request();
    assert_eq!(monitor.in_flight, 1);
    let mut relay = StreamRelay::new();
    assert_eq!(relay.on_chunk(), ChunkAction::Deliver);
    assert!(relay.cancel());
    monitor.end_request();
    assert_eq!(monitor.in_flight, 0);
    monitor.end_request();
    assert_eq!(monitor.in_flight, 0);
    assert_eq!(relay.state, StreamState::Cancelled);
    assert_eq!(relay.on_chunk(), ChunkAction::Discard);
    assert_eq!(relay.on_chunk(), ChunkAction::Discard);
    assert_eq!(relay.delivered, 1);
    assert!(!relay.cancel());
}

#[test]
fn finished_stream_discards_late_chunks() {
    let mut relay = StreamRelay::new();
    relay.finish();
    assert_eq!(relay.on_chunk(), ChunkAction::Discard);
    assert!(!relay.cancel());
    assert_eq!(relay.state, StreamState::Finished);
}

#[test]
fn upstream_outcomes_are_classified() {
    let ok = classify_upstream(Some(200), "{}".to_string());
    assert_eq!(ok.as_deref().ok(), Some("{}"));
    assert_eq!(attempt_outcome(&ok), AttemptOutcome::Success);
    let lost = classify_upstream(None, String::new());
    assert!(matches!(lost, Err(UpstreamError::Transient)));
    assert_eq!(attempt_outcome(&lost), AttemptOutcome::Transient);
    let refused = classify_upstream(Some(429), "{\"error\":\"quota\"}".to_string());
    match &refused {
        Err(UpstreamError::Rejected { status, body }) => {
            assert_eq!(*status, 429);
            assert_eq!(body, "{\"error\":\"quota\"}");
        }
        _ => panic!("expected a refusal"),
    }
    assert_eq!(attempt_outcome(&refused), AttemptOutcome::Rejected);
}
