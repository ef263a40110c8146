use nanodock::http::{
    container_list_request, http_request, parse_http_response, response_status, success_body_text,
};
use nanodock::records::{name_of, normalize_host_ip, protocol_of};
use nanodock::text::{chars_of, trim_bounds};
use nanodock::transport::{
    decimal_text, default_pipe_paths, docker_host_target, stop_targets, unix_socket_paths, DockerHost,
    StopTarget,
};
use nanodock::{
    lookup_published_container, merge_daemon_response_bodies, merge_daemon_responses,
    is_safe_container_id, next_daemon_query, port_map_from_records, stop_container, stop_endpoint,
    unique_published_container, ContainerInfo, ContainerPortMap, ContainerRecord, DaemonAnswer,
    DaemonQuery, HostIp, PortKey, Protocol, PublishedContainerMatch, PublishedPort, SocketAddress,
    StopAction, StopOutcome,
};

fn info(id: &str, name: &str, image: &str) -> ContainerInfo {
    ContainerInfo::new(id, name, image)
}

fn key(host_ip: Option<HostIp>, port: u16, proto: Protocol) -> PortKey {
    PortKey { host_ip, port, proto }
}

fn localhost(port: u16) -> SocketAddress {
    SocketAddress { ip: HostIp::v4(127, 0, 0, 1), port }
}

// ── stop ─────────────────────────────────────────────────────────

/// Run a stop search whose transports answer `answers`, in order; the
/// outcome and the requests sent.
fn run_stop(id: &str, force: bool, answers: &[Option<u16>]) -> (StopOutcome, Vec<(usize, String)>) {
    let mut search = stop_container(id, force, answers.len());
    let mut sent = Vec::new();
    let mut action = search.action();
    loop {
        match action {
            StopAction::Send { transport, endpoint, request } => {
                assert_eq!(request, format!("POST {endpoint} HTTP/1.0\r\nHost: localhost\r\n\r\n"));
                sent.push((transport, endpoint));
                action = search.step(answers[transport]);
            }
            StopAction::Finish(outcome) => return (outcome, sent),
        }
    }
}

#[test]
fn stop_rejects_unsafe_id_without_asking_any_daemon() {
    let (outcome, sent) = run_stop("../etc", false, &[Some(204), Some(204), Some(204)]);
    assert_eq!(outcome, StopOutcome::NotFound);
    assert!(sent.is_empty());
}

#[test]
fn stop_rejects_control_characters() {
    for id in ["a\tb", "a\u{7f}b", "a\u{85}b", "a\u{0}b", "a\rb"] {
        assert!(!is_safe_container_id(id), "{id:?} should be rejected");
        let (outcome, sent) = run_stop(id, false, &[Some(204)]);
        assert_eq!(outcome, StopOutcome::NotFound);
        assert!(sent.is_empty());
    }
    assert!(is_safe_container_id("caf\u{e9}"));
}

#[test]
fn stop_uses_stop_and_kill_endpoints() {
    assert_eq!(stop_endpoint("web", false), "/containers/web/stop");
    assert_eq!(stop_endpoint("web", true), "/containers/web/kill");
    let (outcome, sent) = run_stop("abc123", true, &[Some(204)]);
    assert_eq!(outcome, StopOutcome::Stopped);
    assert_eq!(sent, vec![(0, "/containers/abc123/kill".to_string())]);
}

#[test]
fn stop_keeps_looking_after_not_found() {
    let (outcome, sent) = run_stop("db", false, &[Some(404), Some(304), Some(204)]);
    assert_eq!(outcome, StopOutcome::AlreadyStopped);
    assert_eq!(sent.len(), 2, "the first answer other than 404 ends the search");
    assert_eq!(sent[1], (1, "/containers/db/stop".to_string()));
}

#[test]
fn stop_reports_not_found_only_after_every_daemon() {
    let (outcome, sent) = run_stop("db", false, &[None, Some(404), None]);
    assert_eq!(outcome, StopOutcome::NotFound);
    assert_eq!(sent.len(), 3);
}

#[test]
fn stop_fails_when_no_daemon_answers() {
    assert_eq!(run_stop("db", false, &[None, None]).0, StopOutcome::Failed);
    assert_eq!(run_stop("db", false, &[]).0, StopOutcome::Failed);
}

#[test]
fn stop_unexpected_status_fails() {
    assert_eq!(run_stop("db", false, &[Some(409)]).0, StopOutcome::Failed);
    assert_eq!(run_stop("db", true, &[Some(409)]).0, StopOutcome::AlreadyStopped);
    assert_eq!(run_stop("db", false, &[None, Some(500), Some(204)]).0, StopOutcome::Failed);
}

#[test]
fn finished_stop_search_ignores_further_answers() {
    let mut search = stop_container("db", false, 2);
    assert!(!search.is_finished());
    assert!(matches!(search.step(Some(204)), StopAction::Finish(StopOutcome::Stopped)));
    assert!(search.is_finished());
    assert!(matches!(search.step(Some(404)), StopAction::Finish(StopOutcome::Stopped)));
    assert_eq!(search.status(), Some(204));
}

#[test]
fn stop_outcome_texts() {
    assert_eq!(StopOutcome::Stopped.to_display_string(), "stopped");
    assert_eq!(StopOutcome::AlreadyStopped.to_display_string(), "already stopped");
    assert_eq!(StopOutcome::NotFound.to_display_string(), "not found");
    assert_eq!(StopOutcome::Failed.to_display_string(), "failed");
}

// ── merging bodies ───────────────────────────────────────────────

#[test]
fn merge_bodies_empty_array_in_the_middle_adds_nothing() {
    let result = merge_daemon_response_bodies(&["[1]", " [ ] ", "[2]"]);
    assert_eq!(result.as_deref(), Some("[1,2]"));
}

#[test]
fn merge_bodies_trims_white_space() {
    let result = merge_daemon_response_bodies(&["  [ {\"a\":1} ]\n", "\t[{\"b\":2}]"]);
    assert_eq!(result.as_deref(), Some("[{\"a\":1},{\"b\":2}]"));
}

#[test]
fn merge_bodies_keeps_text_without_brackets() {
    assert_eq!(merge_daemon_response_bodies(&["{\"a\":1}"]).as_deref(), Some("[{\"a\":1}]"));
    assert_eq!(merge_daemon_response_bodies(&["["]).as_deref(), Some("[[]"));
    assert_eq!(merge_daemon_response_bodies(&[""]).as_deref(), Some("[]"));
}

#[test]
fn trim_bounds_strip_unicode_white_space() {
    let chars = chars_of("\u{a0} x y\u{3000}");
    let (start, end) = trim_bounds(&chars, 0, chars.len());
    assert_eq!(chars[start..end].iter().collect::<String>(), "x y");
}

// ── port map ─────────────────────────────────────────────────────

#[test]
fn port_map_insert_replaces_and_reads_back() {
    let mut map = ContainerPortMap::new();
    assert_eq!(map.len(), 0);
    assert!(map.insert(key(None, 80, Protocol::Tcp), info("1", "a", "nginx")).is_none());
    let previous = map.insert(key(None, 80, Protocol::Tcp), info("2", "b", "nginx"));
    assert_eq!(previous.map(|p| p.name), Some("a".to_string()));
    assert_eq!(map.len(), 1);
    assert_eq!(map.get(&key(None, 80, Protocol::Tcp)).map(|i| i.name.clone()), Some("b".to_string()));
    assert!(map.get(&key(None, 80, Protocol::Udp)).is_none());
}

#[test]
fn port_map_extend_prefers_later_bindings() {
    let mut first = ContainerPortMap::new();
    first.insert(key(None, 80, Protocol::Tcp), info("1", "a", ""));
    first.insert(key(None, 81, Protocol::Tcp), info("1", "a", ""));
    let mut second = ContainerPortMap::new();
    second.insert(key(None, 80, Protocol::Tcp), info("2", "b", ""));
    first.extend(second);
    assert_eq!(first.len(), 2);
    assert_eq!(first.get(&key(None, 80, Protocol::Tcp)).unwrap().name, "b");
    assert_eq!(first.get(&key(None, 81, Protocol::Tcp)).unwrap().name, "a");
    assert_eq!(first.entries().len(), 2);
}

#[test]
fn merge_daemon_responses_none_without_responses() {
    assert!(merge_daemon_responses(Vec::new()).is_none());
}

// ── lookup ───────────────────────────────────────────────────────

#[test]
fn lookup_prefers_exact_binding_over_wildcard() {
    let mut map = ContainerPortMap::new();
    map.insert(key(None, 5432, Protocol::Tcp), info("w", "wildcard", ""));
    map.insert(key(Some(HostIp::v4(127, 0, 0, 1)), 5432, Protocol::Tcp), info("e", "exact", ""));
    let found = lookup_published_container(&map, localhost(5432), Protocol::Tcp, false);
    assert!(matches!(found, PublishedContainerMatch::Match(i) if i.name == "exact"));
    let other = SocketAddress { ip: HostIp::v4(10, 0, 0, 1), port: 5432 };
    let found = lookup_published_container(&map, other, Protocol::Tcp, false);
    assert!(matches!(found, PublishedContainerMatch::Match(i) if i.name == "wildcard"));
}

#[test]
fn lookup_without_fallback_does_not_guess() {
    let mut map = ContainerPortMap::new();
    map.insert(key(Some(HostIp::v4(192, 168, 1, 10)), 8080, Protocol::Tcp), info("a", "api", ""));
    assert_eq!(
        lookup_published_container(&map, localhost(8080), Protocol::Tcp, false),
        PublishedContainerMatch::NotFound
    );
    let found = lookup_published_container(&map, localhost(8080), Protocol::Tcp, true);
    assert!(matches!(found, PublishedContainerMatch::Match(i) if i.name == "api"));
}

#[test]
fn proxy_fallback_accepts_one_container_on_several_addresses() {
    let mut map = ContainerPortMap::new();
    map.insert(key(Some(HostIp::v4(10, 0, 0, 1)), 9000, Protocol::Tcp), info("a", "api", "node"));
    map.insert(key(Some(HostIp::V6(1)), 9000, Protocol::Tcp), info("a", "api", "node"));
    map.insert(key(Some(HostIp::v4(10, 0, 0, 1)), 9000, Protocol::Udp), info("b", "other", ""));
    let found = unique_published_container(&map, 9000, Protocol::Tcp);
    assert!(matches!(found, PublishedContainerMatch::Match(i) if i.name == "api"));
    assert_eq!(unique_published_container(&map, 9001, Protocol::Tcp), PublishedContainerMatch::NotFound);
}

#[test]
fn match_texts() {
    let container = info("1", "web", "nginx:1");
    assert_eq!(container.to_display_string(), "web (nginx:1)");
    assert_eq!(info("1", "web", "").to_display_string(), "web");
    assert_eq!(PublishedContainerMatch::Match(&container).to_display_string(), "web (nginx:1)");
    assert_eq!(PublishedContainerMatch::NotFound.to_display_string(), "no matching container");
    assert_eq!(PublishedContainerMatch::Ambiguous.to_display_string(), "ambiguous match");
    assert_eq!(Protocol::Tcp.to_display_string(), "TCP");
    assert_eq!(Protocol::Udp.to_display_string(), "UDP");
}

// ── container records ────────────────────────────────────────────

#[test]
fn records_skip_unpublished_and_unknown_ports() {
    let record = ContainerRecord {
        id: "f00d".to_string(),
        names: vec!["/cache".to_string(), "/alias".to_string()],
        image: "redis:7".to_string(),
        ports: vec![
            PublishedPort { host_ip: None, public_port: None, kind: "tcp".to_string() },
            PublishedPort { host_ip: Some(HostIp::V6(0)), public_port: Some(6379), kind: "tcp".to_string() },
            PublishedPort { host_ip: None, public_port: Some(6380), kind: "sctp".to_string() },
            PublishedPort { host_ip: Some(HostIp::v4(127, 0, 0, 1)), public_port: Some(53), kind: "udp".to_string() },
        ],
    };
    let map = port_map_from_records(&vec![record]);
    assert_eq!(map.len(), 2);
    let cache = map.get(&key(None, 6379, Protocol::Tcp)).unwrap();
    assert_eq!((cache.id.as_str(), cache.name.as_str(), cache.image.as_str()), ("f00d", "cache", "redis:7"));
    assert!(map.get(&key(Some(HostIp::v4(127, 0, 0, 1)), 53, Protocol::Udp)).is_some());
}

#[test]
fn record_helpers() {
    assert_eq!(name_of(&vec![]), "");
    assert_eq!(name_of(&vec!["plain".to_string()]), "plain");
    assert_eq!(normalize_host_ip(Some(HostIp::v4(0, 0, 0, 0))), None);
    assert_eq!(normalize_host_ip(Some(HostIp::v4(1, 2, 3, 4))), Some(HostIp::V4(0x01020304)));
    assert_eq!(protocol_of(&"udp".to_string()), Some(Protocol::Udp));
    assert_eq!(protocol_of(&"TCP".to_string()), None);
}

// ── daemon queries ───────────────────────────────────────────────

#[test]
fn query_prefers_tcp_docker_host() {
    let step = next_daemon_query(DaemonAnswer::Tcp(Some("[1]".to_string())));
    assert!(matches!(step, DaemonQuery::Finish(Some(ref b)) if b == "[1]"));
    assert!(matches!(next_daemon_query::<String>(DaemonAnswer::Tcp(None)), DaemonQuery::AskDockerHostLocal));
}

#[test]
fn query_uses_unix_docker_host_even_when_it_fails() {
    assert!(matches!(next_daemon_query::<String>(DaemonAnswer::DockerHostUnix(Some(None))), DaemonQuery::Finish(None)));
    assert!(matches!(next_daemon_query::<String>(DaemonAnswer::DockerHostUnix(None)), DaemonQuery::AskSockets));
}

#[test]
fn query_tries_default_pipes_until_one_answers() {
    let step = next_daemon_query::<String>(DaemonAnswer::DockerHostPipe { answer: None, pipes: 2 });
    assert!(matches!(step, DaemonQuery::AskDefaultPipe(0)));
    let step = next_daemon_query::<String>(DaemonAnswer::DefaultPipe { index: 0, pipes: 2, answer: None });
    assert!(matches!(step, DaemonQuery::AskDefaultPipe(1)));
    let step = next_daemon_query(DaemonAnswer::DefaultPipe { index: 1, pipes: 2, answer: Some(7) });
    assert!(matches!(step, DaemonQuery::Finish(Some(7))));
    let step = next_daemon_query::<String>(DaemonAnswer::DefaultPipe { index: 1, pipes: 2, answer: None });
    assert!(matches!(step, DaemonQuery::Finish(None)));
    let step = next_daemon_query::<String>(DaemonAnswer::DockerHostPipe { answer: None, pipes: 0 });
    assert!(matches!(step, DaemonQuery::Finish(None)));
}

#[test]
fn query_merges_well_known_sockets() {
    assert_eq!(merge_daemon_response_bodies(&["[1]", "[2]"]).as_deref(), Some("[1,2]"));
    assert_eq!(merge_daemon_response_bodies(&[]), None);
}

// ── transport and http ───────────────────────────────────────────

#[test]
fn docker_host_values() {
    assert_eq!(docker_host_target("tcp://10.0.0.1:2375"), DockerHost::Tcp("10.0.0.1:2375".to_string()));
    assert_eq!(docker_host_target("unix:///run/d.sock"), DockerHost::Unix("/run/d.sock".to_string()));
    assert_eq!(docker_host_target("npipe:////./pipe/x"), DockerHost::NamedPipe("//./pipe/x".to_string()));
    assert_eq!(docker_host_target("ssh://host"), DockerHost::Unsupported);
}

#[test]
fn well_known_socket_paths() {
    assert_eq!(decimal_text(0), "0");
    assert_eq!(decimal_text(1000), "1000");
    assert_eq!(decimal_text(u32::MAX), "4294967295");
    let paths: Vec<Vec<u8>> = unix_socket_paths(1000, Some(b"/home/u"));
    let expected: Vec<&[u8]> = vec![
        b"/var/run/docker.sock",
        b"/run/user/1000/docker.sock",
        b"/home/u/.docker/desktop/docker.sock",
        b"/home/u/.docker/run/docker.sock",
        b"/run/user/1000/podman/podman.sock",
        b"/run/podman/podman.sock",
    ];
    assert_eq!(paths, expected);
    let odd_home: &[u8] = b"/home/\xff";
    assert_eq!(unix_socket_paths(7, Some(odd_home))[2], b"/home/\xff/.docker/desktop/docker.sock".to_vec());
    assert_eq!(unix_socket_paths(0, None).len(), 4);
    assert_eq!(
        default_pipe_paths(),
        vec![r"\\.\pipe\docker_engine", r"\\.\pipe\podman-machine-default"]
    );
}

#[test]
fn stop_targets_follow_transport_discovery_order() {
    let sockets = vec![b"/var/run/docker.sock".to_vec(), b"/run/podman/podman.sock".to_vec()];
    let pipes = vec![r"\\.\pipe\docker_engine".to_string()];
    let tcp = DockerHost::Tcp("10.0.0.1:2375".to_string());
    assert_eq!(
        stop_targets(&tcp, false, sockets.clone(), pipes.clone()),
        vec![
            StopTarget::Tcp("10.0.0.1:2375".to_string()),
            StopTarget::Unix(b"/var/run/docker.sock".to_vec()),
            StopTarget::Unix(b"/run/podman/podman.sock".to_vec()),
        ]
    );
    let unix = DockerHost::Unix("/run/d.sock".to_string());
    assert_eq!(
        stop_targets(&unix, false, sockets.clone(), pipes.clone())[0],
        StopTarget::Unix(b"/run/d.sock".to_vec())
    );
    let pipe = DockerHost::NamedPipe("//./pipe/x".to_string());
    assert_eq!(
        stop_targets(&pipe, true, sockets.clone(), pipes.clone()),
        vec![
            StopTarget::Pipe("//./pipe/x".to_string()),
            StopTarget::Pipe(r"\\.\pipe\docker_engine".to_string()),
        ]
    );
    assert_eq!(stop_targets(&pipe, false, vec![], pipes).len(), 0);
}

#[test]
fn http_request_text() {
    assert_eq!(container_list_request(), "GET /containers/json HTTP/1.0\r\nHost: localhost\r\n\r\n");
    assert_eq!(
        http_request("GET", "/containers/json"),
        "GET /containers/json HTTP/1.0\r\nHost: localhost\r\n\r\n"
    );
}

#[test]
fn http_response_is_split_into_status_and_body() {
    let raw = b"HTTP/1.0 200 OK\r\nContent-Type: application/json\r\n\r\n[{\"Id\":\"1\"}]";
    let response = parse_http_response(raw).expect("complete head");
    assert_eq!(response.status, 200);
    assert_eq!(response.body, b"[{\"Id\":\"1\"}]".to_vec());
    assert_eq!(success_body_text(raw).as_deref(), Some("[{\"Id\":\"1\"}]"));
    assert_eq!(response_status(b"HTTP/1.1 204 No Content\r\n\r\n"), Some(204));
}

#[test]
fn http_answers_without_success_give_no_body() {
    assert!(parse_http_response(b"HTTP/1.0 200 OK\r\n").is_none());
    assert_eq!(success_body_text(b"HTTP/1.0 404 Not Found\r\n\r\n{}"), None);
    assert_eq!(success_body_text(b"HTTP/1.0 200 OK\r\n\r\n\xff\xfe"), None);
    assert_eq!(response_status(b"garbage"), None);
}
