use sentinel::health::{
    classify_http_status, http_request, is_http_candidate, sanitize_target, start_health_check,
    status_line_from_response, status_line_of_text, ConnectOutcome, HealthStep, ResolveOutcome,
};

#[test]
fn maps_wildcards_to_localhost() {
    assert_eq!(sanitize_target("0.0.0.0"), "127.0.0.1");
    assert_eq!(sanitize_target("*"), "127.0.0.1");
    assert_eq!(sanitize_target("::"), "127.0.0.1");
}

#[test]
fn classifies_http_status_ranges() {
    let ok = classify_http_status("HTTP/1.1 200 OK");
    let warning = classify_http_status("HTTP/1.1 404 Not Found");
    let danger = classify_http_status("HTTP/1.1 503 Service Unavailable");

    assert_eq!(ok.0, "ok");
    assert_eq!(warning.0, "warning");
    assert_eq!(danger.0, "danger");
}

#[test]
fn http_status_messages_and_edges() {
    assert_eq!(
        classify_http_status("HTTP/1.1 301 Moved"),
        ("ok", "http probe ok: HTTP/1.1 301 Moved".to_string())
    );
    assert_eq!(
        classify_http_status("HTTP/1.1 404 Not Found").1,
        "http probe client response: HTTP/1.1 404 Not Found"
    );
    assert_eq!(
        classify_http_status("HTTP/1.1 503 Service Unavailable").1,
        "http probe error response: HTTP/1.1 503 Service Unavailable"
    );
    assert_eq!(
        classify_http_status("HTTP/1.1 101 Switching"),
        ("danger", "http probe error response: HTTP/1.1 101 Switching".to_string())
    );
    assert_eq!(
        classify_http_status("garbage"),
        ("warning", "http probe nonstandard status line: garbage".to_string())
    );
    assert_eq!(classify_http_status("HTTP/1.1 abc").0, "warning");
    assert_eq!(classify_http_status("HTTP/1.1 399").0, "ok");
    assert_eq!(classify_http_status("HTTP/1.1 400").0, "warning");
    assert_eq!(classify_http_status("HTTP/1.1 499").0, "warning");
    assert_eq!(classify_http_status("HTTP/1.1 500").0, "danger");
    assert_eq!(classify_http_status("HTTP/1.1 199").0, "danger");
}

#[test]
fn loopback_and_other_targets() {
    assert_eq!(sanitize_target("::1"), "127.0.0.1");
    assert_eq!(sanitize_target("10.0.0.2"), "10.0.0.2");
    assert_eq!(sanitize_target(&sanitize_target("::")), "127.0.0.1");
}

#[test]
fn http_candidates() {
    for p in [80, 443, 8080, 8443, 3000, 5173, 11500, 9000, 9090] {
        assert!(is_http_candidate(p));
    }
    assert!(!is_http_candidate(22));
    assert!(!is_http_candidate(5432));
}

#[test]
fn builds_head_request() {
    assert_eq!(
        http_request("127.0.0.1"),
        "HEAD / HTTP/1.1\r\nHost: 127.0.0.1\r\nConnection: close\r\nUser-Agent: sentinel-health\r\n\r\n"
    );
}

#[test]
fn reads_status_line_from_response_bytes() {
    assert_eq!(
        status_line_from_response(b"HTTP/1.1 200 OK\r\nServer: x\r\n\r\n"),
        Ok("HTTP/1.1 200 OK".to_string())
    );
    assert_eq!(
        status_line_from_response(b""),
        Err("response read returned 0 bytes".to_string())
    );
    assert_eq!(
        status_line_from_response(b"   \r\nServer: x"),
        Err("response status line missing".to_string())
    );
    assert_eq!(
        status_line_from_response(b"\xffHTTP/1.0 204 X"),
        Ok("\u{fffd}HTTP/1.0 204 X".to_string())
    );
}

#[test]
fn non_tcp_services_are_not_probed() {
    match start_health_check("udp", "0.0.0.0", 53) {
        HealthStep::Done(h) => {
            assert_eq!(h.protocol, "udp");
            assert_eq!(h.target, "127.0.0.1");
            assert_eq!(h.port, 53);
            assert_eq!(h.check_kind, "socket");
            assert_eq!(h.status, "warning");
            assert_eq!(h.latency_ms, None);
            assert_eq!(h.message, "active probing for protocol 'udp' is not implemented");
            assert!(h.warnings.is_empty());
        }
        other => panic!("unexpected step {other:?}"),
    }
}

fn resolve_step(protocol: &str, address: &str, port: u16) -> sentinel::health::HealthProbe {
    match start_health_check(protocol, address, port) {
        HealthStep::Resolve(p) => p,
        other => panic!("unexpected step {other:?}"),
    }
}

#[test]
fn resolution_failures_are_danger() {
    let p = resolve_step("tcp", "*", 8080);
    assert_eq!(p.address(), "127.0.0.1:8080");
    match p.after_resolve(ResolveOutcome::Failed { error: "boom".to_string() }) {
        HealthStep::Done(h) => {
            assert_eq!(h.status, "danger");
            assert_eq!(h.check_kind, "tcp_connect");
            assert_eq!(h.message, "address resolution failed for 127.0.0.1:8080: boom");
            assert_eq!(h.warnings, vec![h.message.clone()]);
        }
        other => panic!("unexpected step {other:?}"),
    }
    let p = resolve_step("tcp", "example.invalid", 22);
    match p.after_resolve(ResolveOutcome::NoCandidates) {
        HealthStep::Done(h) => {
            assert_eq!(
                h.message,
                "address resolution returned no candidates for example.invalid:22"
            );
            assert_eq!(h.latency_ms, None);
        }
        other => panic!("unexpected step {other:?}"),
    }
}

#[test]
fn connection_outcomes() {
    let p = resolve_step("tcp", "127.0.0.1", 22);
    let p = match p.after_resolve(ResolveOutcome::Resolved) {
        HealthStep::Connect(p) => p,
        other => panic!("unexpected step {other:?}"),
    };
    match p.after_connect(ConnectOutcome::Failed { error: "refused".to_string(), elapsed_ms: 3 }) {
        HealthStep::Done(h) => {
            assert_eq!(h.status, "danger");
            assert_eq!(h.latency_ms, Some(3));
            assert_eq!(h.message, "tcp connect failed: refused");
            assert_eq!(h.warnings, vec!["tcp connect failed: refused".to_string()]);
        }
        other => panic!("unexpected step {other:?}"),
    }

    let p = resolve_step("tcp", "127.0.0.1", 22);
    match p.after_connect(ConnectOutcome::Connected {
        latency_ms: 4,
        read_timeout_error: Some("r".to_string()),
        write_timeout_error: None,
    }) {
        HealthStep::Done(h) => {
            assert_eq!(h.status, "ok");
            assert_eq!(h.check_kind, "tcp_connect");
            assert_eq!(h.message, "tcp connect succeeded");
            assert_eq!(h.latency_ms, Some(4));
            assert_eq!(h.warnings, vec!["set_read_timeout failed: r".to_string()]);
        }
        other => panic!("unexpected step {other:?}"),
    }
}

#[test]
fn http_probe_outcomes() {
    let p = resolve_step("tcp", "0.0.0.0", 80);
    let (probe, latency) = match p.after_connect(ConnectOutcome::Connected {
        latency_ms: 7,
        read_timeout_error: None,
        write_timeout_error: Some("w".to_string()),
    }) {
        HealthStep::HttpProbe { probe, latency_ms } => (probe, latency_ms),
        other => panic!("unexpected step {other:?}"),
    };
    assert_eq!(latency, 7);
    let h = probe.after_http(latency, Ok("HTTP/1.1 404 Not Found".to_string()));
    assert_eq!(h.check_kind, "http_head");
    assert_eq!(h.status, "warning");
    assert_eq!(h.message, "http probe client response: HTTP/1.1 404 Not Found");
    assert_eq!(h.warnings, vec!["set_write_timeout failed: w".to_string()]);

    let p = resolve_step("tcp", "0.0.0.0", 80);
    let probe = match p.after_connect(ConnectOutcome::Connected {
        latency_ms: 1,
        read_timeout_error: None,
        write_timeout_error: None,
    }) {
        HealthStep::HttpProbe { probe, .. } => probe,
        other => panic!("unexpected step {other:?}"),
    };
    let h = probe.after_http(1, Err("response read returned 0 bytes".to_string()));
    assert_eq!(h.check_kind, "tcp_connect");
    assert_eq!(h.status, "ok");
    assert_eq!(h.message, "tcp connect succeeded");
    assert_eq!(
        h.warnings,
        vec!["http probe failed: response read returned 0 bytes".to_string()]
    );
}

#[test]
fn status_line_is_the_first_line_trimmed() {
    assert_eq!(
        status_line_of_text("  HTTP/1.1 301 Moved  \nLocation: /x\n"),
        Ok("HTTP/1.1 301 Moved".to_string())
    );
    assert_eq!(
        status_line_of_text(""),
        Err("response status line missing".to_string())
    );
    assert_eq!(
        status_line_of_text(" \t\nHTTP/1.1 200 OK"),
        Err("response status line missing".to_string())
    );
}
