use openusage::agent::{
    cache_snapshots, collect_step, prefer_user_config, push_for_tick, reported_machine_count,
    CollectStep,
    default_log_filter, diagnose_plugins, is_error_output, is_excluded_plugin,
    local_api_or_default, probe_status, resolve_credentials, resolve_identity,
    resolve_machine_id, select_bundled_plugins, select_probe_targets, should_extract_bundled,
    AgentConfig, BundledEntry, MissingSetting, PluginProbe, PluginStatus, ProbeError, SourceMode,
};
use openusage::wire::MetricLine;

fn badge(label: &str, text: &str) -> MetricLine {
    MetricLine::Badge { label: label.to_string(), text: text.to_string(), color: None, subtitle: None }
}

fn text_line() -> MetricLine {
    MetricLine::Text { label: "Plan".to_string(), value: "Pro".to_string(), color: None, subtitle: None }
}

fn saved() -> Option<AgentConfig> {
    Some(AgentConfig { token: "saved-token".to_string(), relay: "https://saved".to_string() })
}

#[test]
fn credentials_prefer_the_command_line() {
    let c = resolve_credentials(Some("t".to_string()), Some("r".to_string()), saved()).ok().unwrap();
    assert_eq!(c.token, "t");
    assert_eq!(c.relay, "r");
    let c = resolve_credentials(None, Some("r".to_string()), saved()).ok().unwrap();
    assert_eq!(c.token, "saved-token");
    assert_eq!(c.relay, "r");
    let c = resolve_credentials(Some("t".to_string()), None, saved()).ok().unwrap();
    assert_eq!(c.relay, "https://saved");
}

#[test]
fn missing_credentials_are_named() {
    assert!(matches!(resolve_credentials(None, None, None), Err(MissingSetting::Token)));
    assert!(matches!(
        resolve_credentials(None, Some("r".to_string()), None),
        Err(MissingSetting::Token)
    ));
    assert!(matches!(
        resolve_credentials(Some("t".to_string()), None, None),
        Err(MissingSetting::Relay)
    ));
}

#[test]
fn identity_falls_back() {
    assert_eq!(resolve_machine_id(None), "unknown-machine");
    assert_eq!(resolve_machine_id(Some("host".to_string())), "host");
    let (id, name) = resolve_identity(Some("host".to_string()), None);
    assert_eq!(id, "host");
    assert_eq!(name, "host");
    let (id, name) = resolve_identity(None, Some("My Box".to_string()));
    assert_eq!(id, "unknown-machine");
    assert_eq!(name, "My Box");
}

#[test]
fn source_modes() {
    assert!(matches!(SourceMode::parse("probe"), SourceMode::Probe));
    assert!(matches!(SourceMode::parse("local-api"), SourceMode::LocalApi));
    assert!(matches!(SourceMode::parse("cache-file"), SourceMode::CacheFile));
    assert!(matches!(SourceMode::parse("Probe"), SourceMode::Unknown));
    assert!(matches!(SourceMode::parse(""), SourceMode::Unknown));
    assert!(should_extract_bundled(&SourceMode::Probe, false));
    assert!(!should_extract_bundled(&SourceMode::Probe, true));
    assert!(!should_extract_bundled(&SourceMode::LocalApi, false));
}

#[test]
fn log_filter_and_local_api_defaults() {
    assert_eq!(default_log_filter(true), "error,openusage_agent=info");
    assert_eq!(default_log_filter(false), "info");
    assert_eq!(local_api_or_default(None), "http://127.0.0.1:6736");
    assert_eq!(local_api_or_default(Some("http://x".to_string())), "http://x");
}

#[test]
fn excluded_plugins() {
    assert!(is_excluded_plugin("mock"));
    assert!(!is_excluded_plugin("cursor"));
    assert!(!is_excluded_plugin("mock2"));
}

#[test]
fn bundled_selection_keeps_real_plugin_directories() {
    let entries = vec![
        BundledEntry { name: "gemini".to_string(), is_dir: true },
        BundledEntry { name: "mock".to_string(), is_dir: true },
        BundledEntry { name: "README.md".to_string(), is_dir: false },
        BundledEntry { name: "cursor".to_string(), is_dir: true },
    ];
    assert_eq!(select_bundled_plugins(&entries), vec!["gemini".to_string(), "cursor".to_string()]);
}

#[test]
fn probe_targets_skip_excluded_plugins() {
    let ids = vec!["mock".to_string(), "cursor".to_string(), "codex".to_string()];
    assert_eq!(select_probe_targets(&ids).ok().unwrap(), vec![1, 2]);
    assert!(matches!(select_probe_targets(&vec![]), Err(ProbeError::NoPlugins)));
    assert!(select_probe_targets(&vec!["mock".to_string()]).ok().unwrap().is_empty());
}

#[test]
fn error_badge_is_an_error_report() {
    let lines = vec![badge("Error", "Not logged in. Run `codex` to authenticate.")];
    assert!(is_error_output(&lines));
    match probe_status(&lines) {
        PluginStatus::Error(msg) => assert_eq!(msg, "Not logged in. Run `codex` to authenticate."),
        PluginStatus::Ready { .. } => panic!("expected an error"),
    }
}

#[test]
fn other_reports_are_ready() {
    let lines = vec![badge("Status", "ok")];
    assert!(!is_error_output(&lines));
    assert!(matches!(probe_status(&lines), PluginStatus::Ready { lines: 1 }));
    let lines = vec![badge("Error", "x"), text_line()];
    assert!(matches!(probe_status(&lines), PluginStatus::Ready { lines: 2 }));
    assert!(matches!(probe_status(&vec![]), PluginStatus::Ready { lines: 0 }));
}

#[test]
fn diagnose_plugins_lists_each_real_plugin() {
    let probes = vec![
        PluginProbe { id: "cursor".to_string(), lines: vec![text_line(), text_line()] },
        PluginProbe { id: "mock".to_string(), lines: vec![text_line()] },
        PluginProbe { id: "codex".to_string(), lines: vec![badge("Error", "no creds")] },
    ];
    let result = diagnose_plugins(&probes);
    assert_eq!(result.len(), 2);
    assert_eq!(result[0].0, "cursor");
    assert!(matches!(result[0].1, PluginStatus::Ready { lines: 2 }));
    assert_eq!(result[1].0, "codex");
    match &result[1].1 {
        PluginStatus::Error(m) => assert_eq!(m, "no creds"),
        _ => panic!("expected an error"),
    }
}

#[test]
fn tick_collect_steps() {
    assert!(matches!(collect_step(&SourceMode::Probe, false), CollectStep::RunProbe));
    assert!(matches!(collect_step(&SourceMode::LocalApi, true), CollectStep::QueryLocalApi));
    assert!(matches!(collect_step(&SourceMode::CacheFile, true), CollectStep::ReadCacheFile));
    assert!(matches!(collect_step(&SourceMode::CacheFile, false), CollectStep::MissingCacheFile));
    assert!(matches!(collect_step(&SourceMode::Unknown, true), CollectStep::UnknownMode));
}

#[test]
fn tick_pushes_after_any_successful_collect() {
    let id = "host".to_string();
    let name = "Host".to_string();
    let p = push_for_tick(Ok(vec![]), &id, &name, "now".to_string(), "0.1.0".to_string()).unwrap();
    assert_eq!(p.machine_id, "host");
    assert_eq!(p.machine_name, "Host");
    assert!(p.snapshots.is_empty());
    assert_eq!(p.pushed_at, "now");
    assert_eq!(p.agent_version, "0.1.0");
    assert!(push_for_tick(Err("down".to_string()), &id, &name, "now".to_string(), "v".to_string()).is_none());
}

#[test]
fn cache_snapshots_lists_members_in_key_order() {
    let r = cache_snapshots(r#"{"snapshots":{"a":2,"b":{"x":1}},"other":true}"#);
    assert_eq!(r, Ok(vec!["2".to_string(), "{\"x\":1}".to_string()]));
}

#[test]
fn cache_snapshots_empty_object() {
    assert_eq!(cache_snapshots(r#"{"snapshots":{}}"#), Ok(Vec::new()));
}

#[test]
fn cache_snapshots_invalid_json() {
    let r = cache_snapshots("{not json");
    match r {
        Err(m) => {
            assert!(m.starts_with("invalid cache JSON: "));
            assert!(m.len() > "invalid cache JSON: ".len());
        }
        Ok(_) => panic!("invalid JSON was accepted"),
    }
}

#[test]
fn cache_snapshots_missing_object() {
    let missing = Err("cache file missing 'snapshots' object".to_string());
    assert_eq!(cache_snapshots("{}"), missing);
    assert_eq!(cache_snapshots(r#"{"snapshots":[1,2]}"#), missing);
    assert_eq!(cache_snapshots(r#"{"snapshots":3}"#), missing);
    assert_eq!(cache_snapshots("[]"), missing);
}

#[test]
fn reported_machine_count_reads_machines_array() {
    assert_eq!(reported_machine_count(r#"{"machines":[1,2]}"#), Ok(2));
    assert_eq!(reported_machine_count(r#"{"machines":[]}"#), Ok(0));
    assert_eq!(reported_machine_count("{}"), Ok(0));
    assert_eq!(reported_machine_count("[]"), Ok(0));
    assert_eq!(reported_machine_count(r#"{"machines":3}"#), Ok(0));
}

#[test]
fn reported_machine_count_invalid_json() {
    match reported_machine_count("nope") {
        Err(m) => assert!(m.starts_with("invalid relay response: ")),
        Ok(_) => panic!("invalid JSON was accepted"),
    }
}

#[test]
fn prefer_user_config_over_system() {
    let user = || Some(AgentConfig { token: "u".to_string(), relay: "https://u".to_string() });
    let system = || Some(AgentConfig { token: "s".to_string(), relay: "https://s".to_string() });
    let r = prefer_user_config(user(), system()).unwrap();
    assert_eq!((r.token.as_str(), r.relay.as_str()), ("u", "https://u"));
    let r = prefer_user_config(None, system()).unwrap();
    assert_eq!((r.token.as_str(), r.relay.as_str()), ("s", "https://s"));
    let r = prefer_user_config(user(), None).unwrap();
    assert_eq!(r.token, "u");
    assert!(prefer_user_config(None, None).is_none());
}
