use sentinel::models::{SystemdUnitState, UnitRef};
use sentinel::services::{
    cgroup_file, cmdline_file, collect_kept_lines, command_line_from, fetch_service_details,
    join_arguments, journalctl_command,
    parse_systemctl_show, parse_systemctl_show_with_scope, parse_unit_from_cgroup_line,
    recent_logs_from, resolve_unit_for_pid, status_lines_from, systemctl_show_command,
    systemctl_status_command, unit_state_from, CommandOutcome, UnitOutcomes,
};

#[test]
fn parses_system_unit_name_from_cgroup() {
    let line = "0::/system.slice/ssh.service";
    assert_eq!(
        parse_unit_from_cgroup_line(line),
        Some(("ssh.service".to_string(), false))
    );
}

#[test]
fn parses_user_unit_name_from_cgroup() {
    let line = "0::/user.slice/user-1000.slice/user@1000.service/app.slice/nextcloud-frankenphp-https.service";
    assert_eq!(
        parse_unit_from_cgroup_line(line),
        Some(("nextcloud-frankenphp-https.service".to_string(), true))
    );
}

#[test]
fn keeps_session_scope_under_system_manager() {
    let line = "0::/user.slice/user-1000.slice/session-2.scope";
    assert_eq!(
        parse_unit_from_cgroup_line(line),
        Some(("session-2.scope".to_string(), false))
    );
}

#[test]
fn parses_systemctl_show_payload() {
    let state = parse_systemctl_show(
        "Id=ssh.service\nDescription=OpenBSD Secure Shell server\nLoadState=loaded\nActiveState=active\nSubState=running\nFragmentPath=/usr/lib/systemd/system/ssh.service\nUnitFileState=enabled\nMainPID=991\nExecMainPID=991\n"
    )
    .expect("systemctl output should parse");

    assert_eq!(
        state,
        SystemdUnitState {
            unit: "ssh.service".to_string(),
            description: "OpenBSD Secure Shell server".to_string(),
            load_state: "loaded".to_string(),
            active_state: "active".to_string(),
            sub_state: "running".to_string(),
            fragment_path: Some("/usr/lib/systemd/system/ssh.service".to_string()),
            unit_file_state: Some("enabled".to_string()),
            main_pid: Some(991),
            is_user: false,
        }
    );
}

#[test]
fn cgroup_lines_without_units() {
    assert_eq!(parse_unit_from_cgroup_line("0::/"), None);
    assert_eq!(parse_unit_from_cgroup_line(""), None);
    assert_eq!(
        parse_unit_from_cgroup_line("12:pids:/system.slice/docker.socket"),
        Some(("docker.socket".to_string(), false))
    );
    assert_eq!(
        parse_unit_from_cgroup_line("/user.slice/user@1000.service/init.scope"),
        Some(("init.scope".to_string(), true))
    );
}

#[test]
fn resolves_first_line_naming_a_unit() {
    let content = "1:name=systemd:/\n0::/system.slice/cron.service\n0::/system.slice/other.service\n";
    let u = resolve_unit_for_pid(content).expect("unit");
    assert_eq!(u.unit, "cron.service");
    assert!(!u.is_user);
    assert_eq!(u.cgroup_path, "0::/system.slice/cron.service");
    assert!(resolve_unit_for_pid("0::/\n").is_none());
    assert!(resolve_unit_for_pid("").is_none());
}

#[test]
fn proc_paths() {
    assert_eq!(cgroup_file(1234), "/proc/1234/cgroup");
    assert_eq!(cmdline_file(0), "/proc/0/cmdline");
}

#[test]
fn systemctl_show_defaults_and_user_scope() {
    let st = parse_systemctl_show_with_scope("Id=a.service\r\nFragmentPath=\nMainPID=x\n", true)
        .expect("parses");
    assert_eq!(st.unit, "a.service");
    assert_eq!(st.description, "");
    assert_eq!(st.fragment_path, None);
    assert_eq!(st.unit_file_state, None);
    assert_eq!(st.main_pid, None);
    assert!(st.is_user);
    assert!(parse_systemctl_show("Description=x\n").is_none());
    let st = parse_systemctl_show("Id=first\nId=second").expect("parses");
    assert_eq!(st.unit, "first");
}

fn unit(is_user: bool) -> UnitRef {
    UnitRef {
        unit: "web.service".to_string(),
        is_user,
        cgroup_path: "0::/system.slice/web.service".to_string(),
    }
}

#[test]
fn builds_unit_commands() {
    let c = systemctl_show_command(&unit(false));
    assert_eq!(c.program, "systemctl");
    assert_eq!(
        c.args,
        vec![
            "show",
            "web.service",
            "--property",
            "Id,Description,LoadState,ActiveState,SubState,FragmentPath,UnitFileState,MainPID,ExecMainPID",
            "--no-pager"
        ]
    );
    let c = systemctl_status_command(&unit(true));
    assert_eq!(c.args, vec!["--user", "status", "web.service", "--no-pager", "--lines", "20"]);
    let c = journalctl_command(&unit(true));
    assert_eq!(c.program, "journalctl");
    assert_eq!(
        c.args,
        vec!["--user", "-u", "web.service", "-n", "20", "--no-pager", "-o", "short-iso"]
    );
}

fn exited(success: bool, stdout: &str, stderr: &str) -> CommandOutcome {
    CommandOutcome::Exited {
        success,
        status: if success { "exit status: 0" } else { "exit status: 3" }.to_string(),
        stdout: stdout.as_bytes().to_vec(),
        stderr: stderr.as_bytes().to_vec(),
    }
}

#[test]
fn command_outcomes_give_state_lines_and_warnings() {
    let u = unit(false);
    let mut w = Vec::new();
    let st = unit_state_from(&u, &exited(true, "Id=web.service\nMainPID=5\n", ""), &mut w);
    assert_eq!(st.expect("state").main_pid, Some(5));
    assert!(w.is_empty());

    let st = unit_state_from(&u, &exited(false, "", " denied \n"), &mut w);
    assert!(st.is_none());
    assert_eq!(w, vec!["systemctl show web.service exited with exit status: 3: denied"]);

    let mut w = Vec::new();
    let lines = status_lines_from(&u, &exited(false, "  a  \n\n b\n", "x"), &mut w);
    assert_eq!(lines, vec!["  a", " b"]);
    assert_eq!(w, vec!["systemctl status web.service exited with exit status: 3: x"]);

    let mut w = Vec::new();
    let lines = status_lines_from(&u, &exited(false, "", "x"), &mut w);
    assert!(lines.is_empty());
    assert_eq!(w, vec!["systemctl status web.service exited with exit status: 3"]);

    let mut w = Vec::new();
    let logs = recent_logs_from(&u, &exited(true, " one \n\n two\n", ""), &mut w);
    assert_eq!(logs, vec!["one", "two"]);
    let logs = recent_logs_from(
        &u,
        &CommandOutcome::LaunchFailed { error: "no journalctl".to_string() },
        &mut w,
    );
    assert!(logs.is_empty());
    assert_eq!(w, vec!["journalctl for web.service failed: no journalctl"]);
}

#[test]
fn command_lines() {
    let mut w = Vec::new();
    let read: Result<Vec<u8>, String> = Ok(b"/usr/bin/python3\0-m\0\0http.server\0".to_vec());
    assert_eq!(
        command_line_from(7, &read, &mut w),
        Some("/usr/bin/python3 -m http.server".to_string())
    );
    let invalid: Result<Vec<u8>, String> = Ok(b"a\xff\0b".to_vec());
    assert_eq!(command_line_from(7, &invalid, &mut w), Some("a\u{fffd} b".to_string()));
    let empty: Result<Vec<u8>, String> = Ok(Vec::new());
    assert_eq!(command_line_from(7, &empty, &mut w), None);
    assert!(w.is_empty());
    let failed: Result<Vec<u8>, String> = Err("gone".to_string());
    assert_eq!(command_line_from(42, &failed, &mut w), None);
    assert_eq!(w, vec!["cmdline collector for pid 42: gone"]);
}

#[test]
fn assembles_service_details() {
    let d = fetch_service_details(9, Some("py".to_string()), Err("gone".to_string()), None);
    assert_eq!(d.pid, 9);
    assert_eq!(d.process_name.as_deref(), Some("py"));
    assert_eq!(d.command_line, None);
    assert_eq!(d.resolved_unit, None);
    assert_eq!(d.warnings, vec!["cmdline collector for pid 9: gone"]);

    let outcomes = UnitOutcomes {
        show: exited(true, "Id=web.service\nActiveState=active\n", ""),
        status: exited(true, "active\n", ""),
        logs: CommandOutcome::LaunchFailed { error: "x".to_string() },
    };
    let d = fetch_service_details(
        9,
        None,
        Ok(b"web\0--port\08080".to_vec()),
        Some((unit(true), outcomes)),
    );
    assert_eq!(d.command_line.as_deref(), Some("web --port 8080"));
    assert_eq!(d.resolved_unit.as_deref(), Some("web.service"));
    assert_eq!(d.resolved_unit_scope.as_deref(), Some("user"));
    assert_eq!(d.cgroup_path.as_deref(), Some("0::/system.slice/web.service"));
    let st = d.unit_state.expect("state");
    assert_eq!(st.active_state, "active");
    assert!(st.is_user);
    assert_eq!(d.status_lines, vec!["active"]);
    assert!(d.recent_logs.is_empty());
    assert_eq!(d.warnings, vec!["journalctl for web.service failed: x"]);
}

#[test]
fn arguments_join_with_single_spaces() {
    assert_eq!(join_arguments(&Vec::new()), None);
    assert_eq!(join_arguments(&vec!["sshd".to_string()]), Some("sshd".to_string()));
    assert_eq!(
        join_arguments(&vec!["a".to_string(), "".to_string(), "c d".to_string()]),
        Some("a  c d".to_string())
    );
}

#[test]
fn kept_lines_drop_blank_lines_and_trim() {
    assert_eq!(
        collect_kept_lines("  one  \n\n   \ntwo\r\n", true),
        vec!["one".to_string(), "two".to_string()]
    );
    assert_eq!(
        collect_kept_lines("  one  \n\n   \ntwo\r\n", false),
        vec!["  one".to_string(), "two".to_string()]
    );
}
