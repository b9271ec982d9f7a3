use openusage::relay::{
    extract_bearer_token, relay_port, PushRejection, RelayState, DEFAULT_RELAY_PORT,
    MAX_BODY_BYTES, MAX_MACHINES_PER_TOKEN, SWEEP_INTERVAL_SECS,
};
use openusage::wire::{
    MachineEntry, MachinePush, MetricLine, PluginSnapshot, ProgressFormat, SyncPullResponse,
};

fn push(id: &str, name: &str) -> MachinePush {
    MachinePush {
        machine_id: id.to_string(),
        machine_name: name.to_string(),
        snapshots: vec![],
        pushed_at: "2026-04-17T12:00:01Z".to_string(),
        agent_version: "0.1.0".to_string(),
    }
}

fn snapshot() -> PluginSnapshot {
    PluginSnapshot {
        provider_id: "cursor".to_string(),
        display_name: "Cursor".to_string(),
        plan: Some("Pro".to_string()),
        lines: vec![MetricLine::Progress {
            label: "Session".to_string(),
            used_bits: 42.0f64.to_bits(),
            limit_bits: 100.0f64.to_bits(),
            format: ProgressFormat::Percent,
            resets_at: Some("2026-04-18T00:00:00Z".to_string()),
            period_duration_ms: None,
            color: None,
        }],
        fetched_at: "2026-04-17T12:00:00Z".to_string(),
    }
}

fn ids(resp: &SyncPullResponse) -> Vec<String> {
    let mut v: Vec<String> = resp.machines.iter().map(|m| m.machine_id.clone()).collect();
    v.sort();
    v
}

fn find<'a>(resp: &'a SyncPullResponse, id: &str) -> &'a MachineEntry {
    resp.machines.iter().find(|m| m.machine_id == id).expect("machine present")
}

#[test]
fn pull_after_push_returns_the_entry() {
    let mut relay = RelayState::new();
    let mut p = push("ubuntu-server-01", "Ubuntu Server");
    p.snapshots.push(snapshot());
    assert!(relay.push_machine("tok".to_string(), p, "2026-04-17T12:00:05Z".to_string()).is_ok());
    let resp = relay.pull(&"tok".to_string());
    assert_eq!(resp.machines.len(), 1);
    let e = &resp.machines[0];
    assert_eq!(e.machine_id, "ubuntu-server-01");
    assert_eq!(e.machine_name, "Ubuntu Server");
    assert_eq!(e.pushed_at, "2026-04-17T12:00:01Z");
    assert_eq!(e.last_seen_at, "2026-04-17T12:00:05Z");
    assert_eq!(e.snapshots.len(), 1);
    assert_eq!(e.snapshots[0].provider_id, "cursor");
    match &e.snapshots[0].lines[0] {
        MetricLine::Progress { used_bits, limit_bits, .. } => {
            assert_eq!(f64::from_bits(*used_bits), 42.0);
            assert_eq!(f64::from_bits(*limit_bits), 100.0);
        }
        _ => panic!("expected a progress line"),
    }
}

#[test]
fn pull_of_unknown_token_is_empty() {
    let relay = RelayState::new();
    assert!(relay.pull(&"nobody".to_string()).machines.is_empty());
}

#[test]
fn push_without_machine_id_is_refused() {
    let mut relay = RelayState::new();
    let r = relay.push_machine("tok".to_string(), push("", "x"), "t".to_string());
    match r {
        Err(e) => {
            assert!(matches!(e, PushRejection::MissingMachineId));
            assert_eq!(e.status_code(), 400);
        }
        Ok(()) => panic!("push without machine id was taken"),
    }
    assert!(relay.pull(&"tok".to_string()).machines.is_empty());
}

#[test]
fn room_limit_refuses_new_machine_beyond_limit() {
    let mut relay = RelayState::new();
    for i in 0..MAX_MACHINES_PER_TOKEN {
        let id = format!("m{}", i);
        assert!(relay.push_machine("tok".to_string(), push(&id, "n"), "t".to_string()).is_ok());
    }
    assert_eq!(MAX_MACHINES_PER_TOKEN, 120);
    let r = relay.push_machine("tok".to_string(), push("one-too-many", "n"), "t".to_string());
    match r {
        Err(e) => {
            assert!(matches!(e, PushRejection::TooManyMachines));
            assert_eq!(e.status_code(), 429);
        }
        Ok(()) => panic!("121st machine was taken"),
    }
    // An existing machine may still push.
    assert!(relay.push_machine("tok".to_string(), push("m7", "renamed"), "t2".to_string()).is_ok());
    let resp = relay.pull(&"tok".to_string());
    assert_eq!(resp.machines.len(), 120);
    assert_eq!(find(&resp, "m7").machine_name, "renamed");
    // Another token is not limited by this one.
    assert!(relay.push_machine("other".to_string(), push("x", "n"), "t".to_string()).is_ok());
}

#[test]
fn repush_replaces_the_entry() {
    let mut relay = RelayState::new();
    relay.push_machine("tok".to_string(), push("m1", "first"), "t1".to_string()).ok();
    relay.push_machine("tok".to_string(), push("m2", "other"), "t1".to_string()).ok();
    relay.push_machine("tok".to_string(), push("m1", "second"), "t2".to_string()).ok();
    let resp = relay.pull(&"tok".to_string());
    assert_eq!(ids(&resp), vec!["m1".to_string(), "m2".to_string()]);
    assert_eq!(find(&resp, "m1").machine_name, "second");
    assert_eq!(find(&resp, "m1").last_seen_at, "t2");
}

#[test]
fn tokens_are_isolated() {
    let mut relay = RelayState::new();
    relay.push_machine("a".to_string(), push("m1", "a1"), "t".to_string()).ok();
    relay.push_machine("b".to_string(), push("m1", "b1"), "t".to_string()).ok();
    relay.delete_machine(&"a".to_string(), &"m1".to_string());
    assert!(relay.pull(&"a".to_string()).machines.is_empty());
    let resp = relay.pull(&"b".to_string());
    assert_eq!(resp.machines.len(), 1);
    assert_eq!(resp.machines[0].machine_name, "b1");
}

#[test]
fn delete_removes_only_that_machine() {
    let mut relay = RelayState::new();
    relay.push_machine("tok".to_string(), push("m1", "n"), "t".to_string()).ok();
    relay.push_machine("tok".to_string(), push("m2", "n"), "t".to_string()).ok();
    relay.delete_machine(&"tok".to_string(), &"m1".to_string());
    assert_eq!(ids(&relay.pull(&"tok".to_string())), vec!["m2".to_string()]);
    relay.delete_machine(&"tok".to_string(), &"unknown".to_string());
    assert_eq!(ids(&relay.pull(&"tok".to_string())), vec!["m2".to_string()]);
    relay.delete_machine(&"nobody".to_string(), &"m2".to_string());
    assert_eq!(ids(&relay.pull(&"tok".to_string())), vec!["m2".to_string()]);
}

#[test]
fn deleting_last_machine_drops_the_room() {
    let mut relay = RelayState::new();
    relay.push_machine("tok".to_string(), push("m1", "n"), "t".to_string()).ok();
    relay.delete_machine(&"tok".to_string(), &"m1".to_string());
    assert!(relay.pull(&"tok".to_string()).machines.is_empty());
    // The room starts afresh, with the full limit.
    for i in 0..MAX_MACHINES_PER_TOKEN {
        let id = format!("n{}", i);
        assert!(relay.push_machine("tok".to_string(), push(&id, "n"), "t".to_string()).is_ok());
    }
}

#[test]
fn eviction_keeps_only_entries_after_the_cutoff() {
    let mut relay = RelayState::new();
    relay.push_machine("a".to_string(), push("old", "n"), "2026-04-16T11:00:00Z".to_string()).ok();
    relay.push_machine("a".to_string(), push("edge", "n"), "2026-04-16T12:00:00Z".to_string()).ok();
    relay.push_machine("a".to_string(), push("new", "n"), "2026-04-17T09:00:00Z".to_string()).ok();
    relay.push_machine("b".to_string(), push("gone", "n"), "2026-04-15T00:00:00Z".to_string()).ok();
    relay.evict_stale("2026-04-16T12:00:00Z");
    assert_eq!(ids(&relay.pull(&"a".to_string())), vec!["new".to_string()]);
    assert!(relay.pull(&"b".to_string()).machines.is_empty());
    // A second sweep against the same cutoff changes nothing.
    relay.evict_stale("2026-04-16T12:00:00Z");
    assert_eq!(ids(&relay.pull(&"a".to_string())), vec!["new".to_string()]);
}

#[test]
fn eviction_compares_text_not_time() {
    // "12:00:00.5Z" sorts before "12:00:00Z" ('.' < 'Z'), so it counts as older.
    let mut relay = RelayState::new();
    relay.push_machine("a".to_string(), push("m", "n"), "2026-04-16T12:00:00.5Z".to_string()).ok();
    relay.evict_stale("2026-04-16T12:00:00Z");
    assert!(relay.pull(&"a".to_string()).machines.is_empty());
}

#[test]
fn eviction_with_empty_cutoff_keeps_everything_seen() {
    let mut relay = RelayState::new();
    relay.push_machine("a".to_string(), push("m", "n"), "x".to_string()).ok();
    relay.push_machine("a".to_string(), push("blank", "n"), "".to_string()).ok();
    relay.evict_stale("");
    assert_eq!(ids(&relay.pull(&"a".to_string())), vec!["m".to_string()]);
}

#[test]
fn accepted_push_is_stamped_now_and_survives_a_sweep() {
    let mut relay = RelayState::new();
    assert!(relay.accept_push("tok".to_string(), push("m1", "n")).is_ok());
    let resp = relay.pull(&"tok".to_string());
    assert!(resp.machines[0].last_seen_at.ends_with('Z'));
    relay.sweep_stale();
    assert_eq!(relay.pull(&"tok".to_string()).machines.len(), 1);
    relay.push_machine("tok".to_string(), push("stale", "n"), "2000-01-01T00:00:00Z".to_string()).ok();
    relay.sweep_stale();
    assert_eq!(ids(&relay.pull(&"tok".to_string())), vec!["m1".to_string()]);
}

#[test]
fn accept_push_refuses_missing_machine_id() {
    let mut relay = RelayState::new();
    assert!(matches!(
        relay.accept_push("tok".to_string(), push("", "n")),
        Err(PushRejection::MissingMachineId)
    ));
}

#[test]
fn bearer_token_extraction() {
    assert_eq!(extract_bearer_token(None), None);
    assert_eq!(extract_bearer_token(Some("Bearer abc")), Some("abc".to_string()));
    assert_eq!(extract_bearer_token(Some("Bearer   abc \t")), Some("abc".to_string()));
    assert_eq!(extract_bearer_token(Some("Bearer a b")), Some("a b".to_string()));
    assert_eq!(extract_bearer_token(Some("bearer abc")), None);
    assert_eq!(extract_bearer_token(Some("Bearer    ")), None);
    assert_eq!(extract_bearer_token(Some("Bearer")), None);
    assert_eq!(extract_bearer_token(Some("Basic abc")), None);
    assert_eq!(extract_bearer_token(Some("")), None);
}

#[test]
fn relay_port_from_setting() {
    assert_eq!(relay_port(None), DEFAULT_RELAY_PORT);
    assert_eq!(DEFAULT_RELAY_PORT, 8090);
    assert_eq!(relay_port(Some("9000")), 9000);
    assert_eq!(relay_port(Some("+9000")), 9000);
    assert_eq!(relay_port(Some("0065535")), 65535);
    assert_eq!(relay_port(Some("0")), 0);
    assert_eq!(relay_port(Some("65536")), 8090);
    assert_eq!(relay_port(Some("99999999999")), 8090);
    assert_eq!(relay_port(Some("abc")), 8090);
    assert_eq!(relay_port(Some("")), 8090);
    assert_eq!(relay_port(Some("-1")), 8090);
    assert_eq!(relay_port(Some("+")), 8090);
    assert_eq!(relay_port(Some(" 80")), 8090);
}

#[test]
fn deleting_a_new_machine_undoes_its_push() {
    let mut relay = RelayState::new();
    relay.push_machine("tok".to_string(), push("m1", "n"), "t".to_string()).ok();
    relay.push_machine("tok".to_string(), push("m2", "n"), "t".to_string()).ok();
    relay.delete_machine(&"tok".to_string(), &"m2".to_string());
    assert_eq!(ids(&relay.pull(&"tok".to_string())), vec!["m1".to_string()]);
    relay.push_machine("fresh".to_string(), push("x", "n"), "t".to_string()).ok();
    relay.delete_machine(&"fresh".to_string(), &"x".to_string());
    assert!(relay.pull(&"fresh".to_string()).machines.is_empty());
}

#[test]
fn many_requests_under_one_token_leave_another_alone() {
    let mut relay = RelayState::new();
    relay.push_machine("b".to_string(), push("mb", "b"), "t".to_string()).ok();
    let before = ids(&relay.pull(&"b".to_string()));
    for i in 0..10 {
        let id = format!("m{}", i);
        relay.push_machine("a".to_string(), push(&id, "a"), "t".to_string()).ok();
        if i % 3 == 0 {
            relay.delete_machine(&"a".to_string(), &id);
        }
    }
    relay.push_machine("a".to_string(), push("", "a"), "t".to_string()).ok();
    relay.delete_machine(&"a".to_string(), &"mb".to_string());
    assert_eq!(ids(&relay.pull(&"b".to_string())), before);
    assert_eq!(relay.pull(&"b".to_string()).machines[0].machine_name, "b");
}

#[test]
fn relay_limits() {
    assert_eq!(MAX_BODY_BYTES, 256 * 1024);
    assert_eq!(SWEEP_INTERVAL_SECS, 10 * 60);
}
