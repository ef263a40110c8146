use nanodock::{
    fold_stop_code, interpret_stop_status, is_safe_container_id, lookup_published_container,
    merge_daemon_response_bodies, merge_daemon_responses, port_map_from_records, ContainerInfo,
    ContainerPortMap, ContainerRecord, HostIp, PortKey, Protocol, PublishedContainerMatch,
    PublishedPort, SocketAddress, StopOutcome,
};

fn test_container_info(id: &str, name: &str, image: &str) -> ContainerInfo {
    ContainerInfo {
        id: id.to_string(),
        name: name.to_string(),
        image: image.to_string(),
    }
}

fn insert_test_container(
    map: &mut ContainerPortMap,
    host_ip: Option<HostIp>,
    port: u16,
    proto: Protocol,
    id: &str,
    name: &str,
    image: &str,
) {
    map.insert(
        PortKey { host_ip, port, proto },
        test_container_info(id, name, image),
    );
}

/// The records of one container in a daemon's container list.
fn record(names: &[&str], image: &str, ports: Vec<PublishedPort>) -> ContainerRecord {
    ContainerRecord {
        id: String::new(),
        names: names.iter().map(|n| n.to_string()).collect(),
        image: image.to_string(),
        ports,
    }
}

fn port(host_ip: Option<HostIp>, public_port: u16, kind: &str) -> PublishedPort {
    PublishedPort {
        host_ip,
        public_port: Some(public_port),
        kind: kind.to_string(),
    }
}

#[test]
fn merge_daemon_responses_combines_multiple_runtime_payloads() {
    // "[]" and [{"Names": ["/backend-postgres-1"], "Image": "postgres:16",
    //   "Ports": [{"PublicPort": 5432, "Type": "tcp"}]}]
    let empty = port_map_from_records(&vec![]);
    let postgres = port_map_from_records(&vec![record(
        &["/backend-postgres-1"],
        "postgres:16",
        vec![port(None, 5432, "tcp")],
    )]);
    let merged = merge_daemon_responses(vec![empty, postgres])
        .expect("at least one daemon response should produce a map");

    let container = merged
        .get(&PortKey { host_ip: None, port: 5432, proto: Protocol::Tcp })
        .expect("podman/docker ports should survive multi-daemon merging");
    assert_eq!(container.name, "backend-postgres-1");
    assert_eq!(container.image, "postgres:16");
}

#[test]
fn lookup_published_container_keeps_protocol_bindings_separate() {
    let mut map = ContainerPortMap::new();
    insert_test_container(
        &mut map,
        Some(HostIp::v4(127, 0, 0, 1)),
        53,
        Protocol::Tcp,
        "tcp53",
        "dns-tcp",
        "bind9",
    );
    insert_test_container(
        &mut map,
        Some(HostIp::v4(127, 0, 0, 1)),
        53,
        Protocol::Udp,
        "udp53",
        "dns-udp",
        "bind9",
    );

    let tcp = lookup_published_container(
        &map,
        SocketAddress { ip: HostIp::v4(127, 0, 0, 1), port: 53 },
        Protocol::Tcp,
        false,
    );
    let udp = lookup_published_container(
        &map,
        SocketAddress { ip: HostIp::v4(127, 0, 0, 1), port: 53 },
        Protocol::Udp,
        false,
    );

    assert!(matches!(
        tcp,
        PublishedContainerMatch::Match(info) if info.name == "dns-tcp"
    ));
    assert!(matches!(
        udp,
        PublishedContainerMatch::Match(info) if info.name == "dns-udp"
    ));
}

#[test]
fn lookup_published_container_marks_ambiguous_proxy_matches() {
    let mut map = ContainerPortMap::new();
    insert_test_container(
        &mut map,
        Some(HostIp::v4(127, 0, 0, 1)),
        8080,
        Protocol::Tcp,
        "api-a",
        "api-a",
        "node:22",
    );
    insert_test_container(
        &mut map,
        Some(HostIp::v4(192, 168, 1, 10)),
        8080,
        Protocol::Tcp,
        "api-b",
        "api-b",
        "node:22",
    );

    let result = lookup_published_container(
        &map,
        SocketAddress { ip: HostIp::v4(0, 0, 0, 0), port: 8080 },
        Protocol::Tcp,
        true,
    );

    assert_eq!(result, PublishedContainerMatch::Ambiguous);
}

#[test]
fn lookup_published_container_uses_normalized_wildcard_bindings() {
    // [{"Names": ["/postgres"], "Image": "postgres:16",
    //   "Ports": [{"IP": "0.0.0.0", "PrivatePort": 5432, "PublicPort": 5432, "Type": "tcp"}]}]
    let map = port_map_from_records(&vec![record(
        &["/postgres"],
        "postgres:16",
        vec![port(Some(HostIp::v4(0, 0, 0, 0)), 5432, "tcp")],
    )]);

    let result = lookup_published_container(
        &map,
        SocketAddress { ip: HostIp::v4(127, 0, 0, 1), port: 5432 },
        Protocol::Tcp,
        false,
    );

    assert!(matches!(
        result,
        PublishedContainerMatch::Match(info) if info.name == "postgres"
    ));
}

// ── interpret_stop_status ────────────────────────────────────────

#[test]
fn interpret_stop_status_204_means_stopped() {
    assert_eq!(
        interpret_stop_status(204, false),
        StopOutcome::Stopped,
        "204 should mean stopped for graceful stop"
    );
    assert_eq!(
        interpret_stop_status(204, true),
        StopOutcome::Stopped,
        "204 should mean stopped for force kill"
    );
}

#[test]
fn interpret_stop_status_304_means_already_stopped() {
    assert_eq!(
        interpret_stop_status(304, false),
        StopOutcome::AlreadyStopped,
        "304 from stop endpoint means already stopped"
    );
}

#[test]
fn interpret_stop_status_409_on_force_means_already_stopped() {
    assert_eq!(
        interpret_stop_status(409, true),
        StopOutcome::AlreadyStopped,
        "409 from kill endpoint means container not running"
    );
}

#[test]
fn interpret_stop_status_409_on_graceful_means_failed() {
    assert_eq!(
        interpret_stop_status(409, false),
        StopOutcome::Failed,
        "409 on non-force is unexpected and should map to Failed"
    );
}

#[test]
fn interpret_stop_status_404_means_not_found() {
    assert_eq!(
        interpret_stop_status(404, false),
        StopOutcome::NotFound,
        "404 means container not found"
    );
}

#[test]
fn interpret_stop_status_500_means_failed() {
    assert_eq!(
        interpret_stop_status(500, false),
        StopOutcome::Failed,
        "server error should map to Failed"
    );
}

// ── fold_stop_code ───────────────────────────────────────────────

#[test]
fn fold_stop_code_passes_non_404_through() {
    let mut fallback = None;
    assert_eq!(
        fold_stop_code(204, &mut fallback),
        Some(204),
        "non-404 should pass through"
    );
    assert_eq!(fallback, None, "fallback should remain None");
}

#[test]
fn fold_stop_code_defers_404_to_fallback() {
    let mut fallback = None;
    assert_eq!(
        fold_stop_code(404, &mut fallback),
        None,
        "404 should be deferred"
    );
    assert_eq!(fallback, Some(404), "fallback should record the 404");
}

// ── merge_daemon_response_bodies ─────────────────────────────────

#[test]
fn merge_bodies_empty_iterator_returns_none() {
    let result = merge_daemon_response_bodies(&[]);
    assert!(result.is_none(), "no responses means None");
}

#[test]
fn merge_bodies_single_empty_array() {
    let result = merge_daemon_response_bodies(&["[]"]);
    assert_eq!(
        result.as_deref(),
        Some("[]"),
        "single empty array should produce []"
    );
}

#[test]
fn merge_bodies_concatenates_non_empty_arrays() {
    let result = merge_daemon_response_bodies(&[r#"[{"a":1}]"#, r#"[{"b":2},{"c":3}]"#]);
    assert_eq!(
        result.as_deref(),
        Some(r#"[{"a":1},{"b":2},{"c":3}]"#),
        "elements from both arrays should be combined"
    );
}

#[test]
fn merge_bodies_skips_empty_arrays_without_spurious_commas() {
    let result = merge_daemon_response_bodies(&["[]", r#"[{"a":1}]"#]);
    assert_eq!(
        result.as_deref(),
        Some(r#"[{"a":1}]"#),
        "empty arrays should not introduce leading commas"
    );
}

#[test]
fn merge_bodies_trailing_empty_array_does_not_add_comma() {
    let result = merge_daemon_response_bodies(&[r#"[{"a":1}]"#, "[]"]);
    assert_eq!(
        result.as_deref(),
        Some(r#"[{"a":1}]"#),
        "trailing empty array should not add trailing comma"
    );
}

#[test]
fn merge_bodies_all_empty_arrays_produces_empty_array() {
    let result = merge_daemon_response_bodies(&["[]", "[]"]);
    assert_eq!(result.as_deref(), Some("[]"), "all-empty should produce []");
}

// ── is_safe_container_id ─────────────────────────────────────────

#[test]
fn safe_id_accepts_hex_id() {
    assert!(
        is_safe_container_id("abc123def456"),
        "hex ID should be valid"
    );
}

#[test]
fn safe_id_accepts_container_name() {
    assert!(
        is_safe_container_id("my-container_1.0"),
        "name with hyphens, underscores, dots should be valid"
    );
}

#[test]
fn safe_id_rejects_empty() {
    assert!(!is_safe_container_id(""), "empty ID should be rejected");
}

#[test]
fn safe_id_rejects_path_traversal() {
    assert!(
        !is_safe_container_id("../../../etc/passwd"),
        "path traversal should be rejected"
    );
}

#[test]
fn safe_id_rejects_query_injection() {
    assert!(
        !is_safe_container_id("abc?signal=SIGKILL"),
        "query injection should be rejected"
    );
}

#[test]
fn safe_id_rejects_crlf_injection() {
    assert!(
        !is_safe_container_id("abc\r\nX-Injected: true"),
        "CRLF injection should be rejected"
    );
}
