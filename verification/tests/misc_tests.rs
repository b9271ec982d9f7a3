use openusage::doctor::{mask_token, short_message, DoctorReport};
use openusage::agent::PluginStatus;
use openusage::endpoints::{machine_endpoint, relay_endpoint};
use openusage::paths::{
    config_path, join_path, resolve_data_dir, resolve_plugins_dir, system_config_path, PathStyle,
};
use openusage::text::{parse_u16, str_eq, str_greater, strip_prefix_of, trim_end_matching, trim_whitespace};

#[test]
fn endpoints_trim_trailing_slashes() {
    assert_eq!(relay_endpoint("https://relay.example.com:8090", "/v1/pull"), "https://relay.example.com:8090/v1/pull");
    assert_eq!(relay_endpoint("https://relay.example.com//", "/v1/push"), "https://relay.example.com/v1/push");
    assert_eq!(relay_endpoint("", "/v1/health"), "/v1/health");
    assert_eq!(machine_endpoint("http://r/", "m 1"), "http://r/v1/machines/m 1");
}

#[test]
fn unix_paths() {
    assert_eq!(config_path("/home/u/.openusage-agent", PathStyle::Unix), "/home/u/.openusage-agent/config.json");
    assert_eq!(config_path("/data/", PathStyle::Unix), "/data/config.json");
    assert_eq!(config_path("", PathStyle::Unix), "config.json");
    assert_eq!(system_config_path(PathStyle::Unix, Some("ignored".to_string())), "/etc/openusage-agent/config.json");
    assert_eq!(resolve_data_dir(PathStyle::Unix, None, Some("/home/u".to_string())), "/home/u/.openusage-agent");
    assert_eq!(resolve_data_dir(PathStyle::Unix, None, None), "/tmp/.openusage-agent");
    assert_eq!(resolve_data_dir(PathStyle::Unix, Some("/d".to_string()), None), "/d");
    assert_eq!(resolve_plugins_dir(PathStyle::Unix, None, "/d"), "/d/plugins");
    assert_eq!(resolve_plugins_dir(PathStyle::Unix, Some("/p".to_string()), "/d"), "/p");
}

#[test]
fn windows_paths() {
    assert_eq!(system_config_path(PathStyle::Windows, None), "C:/ProgramData\\OpenUsage\\agent.json");
    assert_eq!(system_config_path(PathStyle::Windows, Some("D:\\PD\\".to_string())), "D:\\PD\\OpenUsage\\agent.json");
    assert_eq!(config_path("C:", PathStyle::Windows), "C:config.json");
    assert_eq!(config_path("C:/x/", PathStyle::Windows), "C:/x/config.json");
    assert_eq!(join_path(&PathStyle::Windows, "a\\", "b"), "a\\b");
    assert_eq!(join_path(&PathStyle::Unix, "a\\", "b"), "a\\/b");
}

#[test]
fn doctor_tally() {
    let mut r = DoctorReport::new();
    assert_eq!(r.exit_code(), 0);
    assert!(r.needs_setup_hint());
    r.record_check(true);
    r.record_plugin(&PluginStatus::Ready { lines: 3 });
    r.record_plugin(&PluginStatus::Error("x".to_string()));
    assert_eq!((r.ready, r.skipped), (1, 1));
    assert!(!r.needs_setup_hint());
    assert_eq!(r.exit_code(), 0);
    r.record_check(false);
    r.record_check(true);
    assert_eq!(r.exit_code(), 1);
}

#[test]
fn doctor_message_and_token_display() {
    let long = "x".repeat(100);
    assert_eq!(short_message(&long).len(), 80);
    assert_eq!(short_message("short"), "short");
    assert_eq!(mask_token("0123456789abcdef"), "01234567...cdef");
    assert_eq!(mask_token("abc"), "abc...abc");
    assert_eq!(mask_token(""), "...");
}

#[test]
fn text_rules() {
    assert_eq!(trim_whitespace("  a b \n"), "a b");
    assert_eq!(trim_whitespace("\u{3000}x\u{a0}"), "x");
    assert_eq!(trim_whitespace("   "), "");
    assert_eq!(trim_end_matching("a//", '/'), "a");
    assert_eq!(strip_prefix_of("Bearer x", "Bearer "), Some("x".to_string()));
    assert_eq!(strip_prefix_of("Bear", "Bearer "), None);
    assert!(str_eq("abc", "abc"));
    assert!(!str_eq("abc", "abd"));
    assert!(str_greater("b", "a"));
    assert!(str_greater("ab", "a"));
    assert!(!str_greater("a", "a"));
    assert!(!str_greater("", "a"));
    assert!(str_greater("é", "z"));
    assert_eq!(parse_u16("65535"), Some(65535));
    assert_eq!(parse_u16("65536"), None);
}
