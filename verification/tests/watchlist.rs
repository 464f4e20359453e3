use sentinel::health::{start_health_check, HealthStep};
use sentinel::listeners::parse_listener_line;
use sentinel::models::ServiceHealth;
use sentinel::watchlist::{
    address_matches, collect_watched_services, default_watch_services, find_listener,
    parse_watch_ports, watched_services_from_env, WatchedService,
};

#[test]
fn parses_watch_ports_env_format() {
    let mut warnings = Vec::new();
    let services = parse_watch_ports(
        "sentinel:tcp:127.0.0.1:11500,optional:tcp:127.0.0.1:9999:false",
        &mut warnings,
    );

    assert!(warnings.is_empty());
    assert_eq!(services.len(), 2);
    assert_eq!(services[0].name, "sentinel");
    assert_eq!(services[0].protocol, "tcp");
    assert_eq!(services[0].port, 11500);
    assert!(services[0].expected);
    assert!(!services[1].expected);
}

#[test]
fn invalid_entries_emit_warning_and_fallback() {
    let mut warnings = Vec::new();
    let services = parse_watch_ports("bad-entry", &mut warnings);

    assert!(!services.is_empty());
    assert!(warnings.iter().any(|warning| warning.contains("invalid")));
}

#[test]
fn wildcard_listener_matches_localhost_watch() {
    assert!(address_matches("0.0.0.0", "127.0.0.1"));
    assert!(address_matches("*", "localhost"));
    assert!(address_matches("::", "127.0.0.1"));
}

#[test]
fn entry_fields_are_trimmed_and_lowercased() {
    let mut warnings = Vec::new();
    let services = parse_watch_ports(" api : TCP : 10.0.0.1 : 8000 : Optional ,, ", &mut warnings);
    assert!(warnings.is_empty());
    assert_eq!(
        services,
        vec![WatchedService {
            name: "api".to_string(),
            category: "custom".to_string(),
            protocol: "tcp".to_string(),
            address: "10.0.0.1".to_string(),
            port: 8000,
            expected: false,
        }]
    );
}

#[test]
fn each_invalid_entry_is_reported() {
    let mut warnings = Vec::new();
    let services = parse_watch_ports(
        "a:tcp:h:1,b:icmp:h:2,c:udp:h:70000,d:udp::3,:udp:h:4,e:udp:h:5:maybe,f:tcp:h,g:tcp:h:6:yes:x,h:udp:h:7:YES",
        &mut warnings,
    );
    assert_eq!(services.len(), 2);
    assert_eq!(services[0].name, "a");
    assert_eq!(services[1].name, "h");
    assert!(services[1].expected);
    assert_eq!(services[1].protocol, "udp");
    assert_eq!(warnings.len(), 7);
    assert_eq!(
        warnings[0],
        "invalid SENTINEL_WATCH_PORTS entry 'b:icmp:h:2' expected name:protocol:address:port[:expected]"
    );
}

#[test]
fn no_valid_entry_falls_back_with_two_warnings() {
    let mut warnings = Vec::new();
    let services = parse_watch_ports("x", &mut warnings);
    assert_eq!(services, default_watch_services());
    assert_eq!(
        warnings,
        vec![
            "invalid SENTINEL_WATCH_PORTS entry 'x' expected name:protocol:address:port[:expected]"
                .to_string(),
            "SENTINEL_WATCH_PORTS produced no valid entries; using defaults".to_string(),
        ]
    );
    let mut warnings = Vec::new();
    let services = parse_watch_ports(" , ", &mut warnings);
    assert_eq!(services.len(), 16);
    assert_eq!(warnings, vec!["SENTINEL_WATCH_PORTS produced no valid entries; using defaults"]);
}

#[test]
fn default_list() {
    let d = default_watch_services();
    assert_eq!(d.len(), 16);
    assert_eq!(d[0].name, "sentinel-web-dashboard");
    assert_eq!(d[0].port, 11500);
    assert_eq!(d[3].address, "172.168.0.17");
    assert_eq!(d[15].category, "game");
    assert!(d.iter().all(|s| s.protocol == "tcp" && s.expected));
}

#[test]
fn env_value_selects_the_list() {
    let mut w = Vec::new();
    assert_eq!(watched_services_from_env(None, &mut w).len(), 16);
    assert_eq!(watched_services_from_env(Some("   "), &mut w).len(), 16);
    assert!(w.is_empty());
    let l = watched_services_from_env(Some("x:udp:h:1"), &mut w);
    assert_eq!(l.len(), 1);
    assert_eq!(l[0].category, "custom");
}

#[test]
fn address_matching() {
    assert!(address_matches("10.0.0.1", "10.0.0.1"));
    assert!(!address_matches("127.0.0.1", "10.0.0.1"));
    assert!(!address_matches("127.0.0.1", "localhost"));
}

fn health(port: u16) -> ServiceHealth {
    match start_health_check("udp", "h", port) {
        HealthStep::Done(h) => h,
        _ => unreachable!(),
    }
}

#[test]
fn services_find_their_listeners() {
    let listeners = vec![
        parse_listener_line("tcp LISTEN 0 5 10.0.0.9:8000 0.0.0.0:*").unwrap(),
        parse_listener_line("tcp LISTEN 0 5 0.0.0.0:8000 0.0.0.0:* users:((\"srv\",pid=4,fd=3))").unwrap(),
    ];
    let mut w = Vec::new();
    let watched = parse_watch_ports("a:tcp:127.0.0.1:8000,b:udp:127.0.0.1:8000,c:tcp:10.0.0.9:8000", &mut w);
    assert_eq!(
        find_listener(&listeners, &watched[0]).and_then(|l| l.pid),
        Some(4)
    );
    assert!(find_listener(&listeners, &watched[1]).is_none());
    let snapshot = collect_watched_services(
        &listeners,
        watched,
        vec![health(1), health(2), health(3)],
        vec!["w".to_string()],
    );
    assert_eq!(snapshot.services.len(), 3);
    assert_eq!(snapshot.services[0].name, "a");
    assert_eq!(snapshot.services[0].listener.as_ref().unwrap().local_address, "0.0.0.0");
    assert!(snapshot.services[1].listener.is_none());
    assert_eq!(snapshot.services[2].listener.as_ref().unwrap().local_address, "10.0.0.9");
    assert_eq!(snapshot.services[2].health.port, 3);
    assert_eq!(snapshot.warnings, vec!["w"]);
}
