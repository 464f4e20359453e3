use sentinel::listeners::{
    classify_port_kind, classify_scope, classify_severity, enrich_listener, parse_listener_line,
    listeners_from_ss, parse_ss_output, sort_listeners, split_socket, ss_command,
};
use sentinel::services::CommandOutcome;
use sentinel::models::UnitRef;

#[test]
fn splits_ipv4_socket() {
    assert_eq!(
        split_socket("127.0.0.1:8645"),
        Some(("127.0.0.1".to_string(), 8645))
    );
}

#[test]
fn splits_ipv6_socket() {
    assert_eq!(split_socket("[::]:8443"), Some(("::".to_string(), 8443)));
}

#[test]
fn classifies_all_interfaces_scope() {
    assert_eq!(classify_scope("0.0.0.0"), "all-ifaces");
}

#[test]
fn parses_listener_line_with_process_and_scope() {
    let line = "tcp LISTEN 0 128 127.0.0.1:8645 0.0.0.0:* users:((\"python\",pid=370995,fd=16)) uid:1000";
    let listener = parse_listener_line(line).expect("listener should parse");

    assert_eq!(listener.protocol, "tcp");
    assert_eq!(listener.local_address, "127.0.0.1");
    assert_eq!(listener.port, 8645);
    assert_eq!(listener.scope, "loopback");
    assert_eq!(listener.process.as_deref(), Some("python"));
    assert_eq!(listener.pid, Some(370995));
}

#[test]
fn classifies_standard_port_kind() {
    assert_eq!(classify_port_kind("tcp", 22), "standard");
    assert_eq!(classify_port_kind("tcp", 443), "standard");
    assert_eq!(classify_port_kind("udp", 53), "standard");
}

#[test]
fn classifies_nonstandard_port_kind() {
    assert_eq!(classify_port_kind("tcp", 11500), "nonstandard");
    assert_eq!(classify_port_kind("udp", 9999), "nonstandard");
}

#[test]
fn marks_nonstandard_all_interfaces_as_danger() {
    assert_eq!(
        classify_severity("all-ifaces", "nonstandard", false),
        "danger"
    );
}

#[test]
fn marks_standard_loopback_as_ok() {
    assert_eq!(classify_severity("loopback", "standard", true), "ok");
}

#[test]
fn marks_unmanaged_lan_listener_as_warning() {
    assert_eq!(classify_severity("lan", "standard", false), "warning");
}

#[test]
fn split_socket_edge_cases() {
    assert_eq!(split_socket("*"), None);
    assert_eq!(split_socket("*:22"), Some(("*".to_string(), 22)));
    assert_eq!(split_socket(":22"), Some(("*".to_string(), 22)));
    assert_eq!(split_socket("[]:53"), Some(("*".to_string(), 53)));
    assert_eq!(
        split_socket("[fe80::1%eth0]:5353"),
        Some(("fe80::1%eth0".to_string(), 5353))
    );
    assert_eq!(split_socket("0.0.0.0:*"), None);
    assert_eq!(split_socket("127.0.0.1:70000"), None);
    assert_eq!(split_socket("127.0.0.1:+80"), Some(("127.0.0.1".to_string(), 80)));
    assert_eq!(split_socket("[::1]"), None);
    assert_eq!(split_socket("[::1]é80"), None);
    assert_eq!(split_socket("noport"), None);
    assert_eq!(split_socket("::ffff:10.0.0.1:443"), Some(("::ffff:10.0.0.1".to_string(), 443)));
}

#[test]
fn scope_classification_covers_each_branch() {
    assert_eq!(classify_scope("127.0.0.1"), "loopback");
    assert_eq!(classify_scope("::1"), "loopback");
    assert_eq!(classify_scope("127.0.0.53%lo"), "loopback");
    assert_eq!(classify_scope("*"), "all-ifaces");
    assert_eq!(classify_scope("::"), "all-ifaces");
    assert_eq!(classify_scope("fe80::1%eth0"), "lan");
    assert_eq!(classify_scope("192.168.1.5"), "lan");
}

#[test]
fn severity_table() {
    assert_eq!(classify_severity("all-ifaces", "standard", false), "danger");
    assert_eq!(classify_severity("all-ifaces", "standard", true), "ok");
    assert_eq!(classify_severity("all-ifaces", "nonstandard", true), "danger");
    assert_eq!(classify_severity("lan", "nonstandard", true), "warning");
    assert_eq!(classify_severity("lan", "standard", true), "ok");
    assert_eq!(classify_severity("loopback", "nonstandard", false), "warning");
    assert_eq!(classify_severity("loopback", "nonstandard", true), "ok");
    assert_eq!(classify_severity("loopback", "standard", false), "ok");
    assert_eq!(classify_severity("other", "nonstandard", true), "warning");
    assert_eq!(classify_severity("other", "standard", false), "warning");
    assert_eq!(classify_severity("other", "standard", true), "ok");
}

#[test]
fn managed_listener_is_never_worse() {
    let rank = |s: &str| match s {
        "danger" => 2,
        "warning" => 1,
        _ => 0,
    };
    for scope in ["loopback", "all-ifaces", "lan", "other"] {
        for kind in ["standard", "nonstandard"] {
            assert!(rank(classify_severity(scope, kind, true)) <= rank(classify_severity(scope, kind, false)));
        }
    }
}

#[test]
fn short_lines_do_not_parse() {
    assert!(parse_listener_line("tcp LISTEN 0 128").is_none());
    assert!(parse_listener_line("").is_none());
    assert!(parse_listener_line("udp UNCONN 0 0 *:* *:*").is_none());
}

#[test]
fn listener_without_process_metadata() {
    let l = parse_listener_line("udp UNCONN 0 0 0.0.0.0:5353 0.0.0.0:*").expect("parses");
    assert_eq!(l.protocol, "udp");
    assert_eq!(l.scope, "all-ifaces");
    assert_eq!(l.port_kind, "nonstandard");
    assert_eq!(l.exposure_severity, "danger");
    assert_eq!(l.process, None);
    assert_eq!(l.pid, None);
    assert_eq!(l.unit, None);
}

#[test]
fn pid_that_does_not_parse_is_absent() {
    let l = parse_listener_line("tcp LISTEN 0 5 [::]:22 [::]:* users:((\"sshd\",pid=abc,fd=3))")
        .expect("parses");
    assert_eq!(l.local_address, "::");
    assert_eq!(l.port, 22);
    assert_eq!(l.process.as_deref(), Some("sshd"));
    assert_eq!(l.pid, None);
    assert_eq!(l.port_kind, "standard");
}

#[test]
fn parses_whole_ss_output() {
    let text = "tcp LISTEN 0 128 127.0.0.1:8645 0.0.0.0:* users:((\"python\",pid=1,fd=16))\r\n\nbogus\nudp UNCONN 0 0 0.0.0.0:53 0.0.0.0:*\n";
    let ls = parse_ss_output(text);
    assert_eq!(ls.len(), 2);
    assert_eq!(ls[0].port, 8645);
    assert_eq!(ls[1].port, 53);
    assert_eq!(ls[1].port_kind, "standard");
}

#[test]
fn unit_makes_listener_managed() {
    let l = parse_listener_line("tcp LISTEN 0 5 0.0.0.0:22 0.0.0.0:*").expect("parses");
    assert_eq!(l.exposure_severity, "danger");
    let unit = UnitRef {
        unit: "ssh.service".to_string(),
        is_user: false,
        cgroup_path: "0::/system.slice/ssh.service".to_string(),
    };
    let e = enrich_listener(l, Some(unit));
    assert_eq!(e.unit.as_deref(), Some("ssh.service"));
    assert_eq!(e.unit_scope.as_deref(), Some("system"));
    assert_eq!(e.exposure_severity, "ok");

    let l2 = parse_listener_line("tcp LISTEN 0 5 127.0.0.1:9999 0.0.0.0:*").expect("parses");
    let user = UnitRef {
        unit: "app.service".to_string(),
        is_user: true,
        cgroup_path: "x".to_string(),
    };
    let e2 = enrich_listener(l2, Some(user));
    assert_eq!(e2.unit_scope.as_deref(), Some("user"));
    assert_eq!(e2.exposure_severity, "ok");

    let l3 = parse_listener_line("tcp LISTEN 0 5 127.0.0.1:9999 0.0.0.0:*").expect("parses");
    let e3 = enrich_listener(l3, None);
    assert_eq!(e3.unit, None);
    assert_eq!(e3.exposure_severity, "warning");
}

#[test]
fn sorts_by_port_protocol_address_stably() {
    let lines = [
        "udp UNCONN 0 0 0.0.0.0:53 0.0.0.0:*",
        "tcp LISTEN 0 5 [::]:22 [::]:*",
        "tcp LISTEN 0 5 0.0.0.0:53 0.0.0.0:* users:((\"a\",pid=1,fd=1))",
        "tcp LISTEN 0 5 0.0.0.0:22 0.0.0.0:*",
        "tcp LISTEN 0 5 0.0.0.0:53 0.0.0.0:* users:((\"b\",pid=2,fd=1))",
    ];
    let ls: Vec<_> = lines.iter().map(|l| parse_listener_line(l).unwrap()).collect();
    let sorted = sort_listeners(ls);
    let keys: Vec<(u16, String, String, Option<u32>)> = sorted
        .iter()
        .map(|l| (l.port, l.protocol.clone(), l.local_address.clone(), l.pid))
        .collect();
    assert_eq!(
        keys,
        vec![
            (22, "tcp".to_string(), "0.0.0.0".to_string(), None),
            (22, "tcp".to_string(), "::".to_string(), None),
            (53, "tcp".to_string(), "0.0.0.0".to_string(), Some(1)),
            (53, "tcp".to_string(), "0.0.0.0".to_string(), Some(2)),
            (53, "udp".to_string(), "0.0.0.0".to_string(), None),
        ]
    );
}

#[test]
fn ss_runs_with_header_off_and_processes_shown() {
    let command = ss_command();
    assert_eq!(command.program, "ss");
    assert_eq!(command.args, vec!["-H".to_string(), "-ltnup".to_string()]);
}

#[test]
fn ss_launch_failure_warns_and_gives_nothing() {
    let mut warnings = vec!["earlier".to_string()];
    let outcome = CommandOutcome::LaunchFailed {
        error: "No such file or directory (os error 2)".to_string(),
    };
    assert!(listeners_from_ss(&outcome, &mut warnings).is_empty());
    assert_eq!(
        warnings,
        vec![
            "earlier".to_string(),
            "listener collector could not execute ss: No such file or directory (os error 2)"
                .to_string(),
        ]
    );
}

#[test]
fn ss_exit_failure_warns_with_trimmed_stderr() {
    let mut warnings = Vec::new();
    let outcome = CommandOutcome::Exited {
        success: false,
        status: "exit status: 1".to_string(),
        stdout: b"tcp LISTEN 0 128 127.0.0.1:22 0.0.0.0:*\n".to_vec(),
        stderr: b"  bad flag \n".to_vec(),
    };
    assert!(listeners_from_ss(&outcome, &mut warnings).is_empty());
    assert_eq!(
        warnings,
        vec!["listener collector ss exited with exit status: 1: bad flag".to_string()]
    );
}

#[test]
fn ss_success_parses_each_listener_line() {
    let mut warnings = Vec::new();
    let outcome = CommandOutcome::Exited {
        success: true,
        status: "exit status: 0".to_string(),
        stdout: b"tcp LISTEN 0 128 127.0.0.1:8645 0.0.0.0:* users:((\"python\",pid=7,fd=3))\nbroken\nudp UNCONN 0 0 [::]:53 [::]:*\n\xff\n".to_vec(),
        stderr: Vec::new(),
    };
    let listeners = listeners_from_ss(&outcome, &mut warnings);
    assert!(warnings.is_empty());
    assert_eq!(listeners.len(), 2);
    assert_eq!(listeners[0].port, 8645);
    assert_eq!(listeners[0].process.as_deref(), Some("python"));
    assert_eq!(listeners[0].pid, Some(7));
    assert_eq!(listeners[1].protocol, "udp");
    assert_eq!(listeners[1].local_address, "::");
    assert_eq!(listeners[1].scope, "all-ifaces");
    assert_eq!(listeners[1].exposure_severity, "danger");
}
