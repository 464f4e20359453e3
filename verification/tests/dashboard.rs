use sentinel::dashboard::{service_row, Action, AppState, Key};
use sentinel::health::{start_health_check, HealthStep};
use sentinel::listeners::parse_listener_line;
use sentinel::models::{WatchedServiceStatus, WatchedServicesSnapshot};

fn status(name: &str, category: &str, port: u16, listening: bool) -> WatchedServiceStatus {
    let health = match start_health_check("udp", "127.0.0.1", port) {
        HealthStep::Done(h) => h,
        _ => unreachable!(),
    };
    WatchedServiceStatus {
        name: name.to_string(),
        category: category.to_string(),
        protocol: "tcp".to_string(),
        address: "127.0.0.1".to_string(),
        port,
        expected: true,
        listener: if listening {
            parse_listener_line(&format!(
                "tcp LISTEN 0 5 0.0.0.0:{port} 0.0.0.0:* users:((\"srv\",pid=77,fd=3))"
            ))
        } else {
            None
        },
        health,
    }
}

fn snapshot() -> WatchedServicesSnapshot {
    WatchedServicesSnapshot {
        services: vec![
            status("a", "web", 80, true),
            status("b", "infra", 9000, false),
            status("c", "web", 5173, false),
            status("d", "game", 21025, false),
        ],
        warnings: vec!["w".to_string()],
    }
}

#[test]
fn rows_show_service_status() {
    let r = service_row(status("a", "web", 80, true));
    assert_eq!(r.port, "80");
    assert_eq!(r.endpoint, "tcp://127.0.0.1:80");
    assert_eq!(r.listener, "0.0.0.0:80");
    assert_eq!(r.process, "srv");
    assert_eq!(r.pid, "77");
    assert_eq!(r.latency, "\u{2014}");
    assert_eq!(r.status, "warning");
    assert_eq!(r.probe, "socket");
    let r = service_row(status("b", "infra", 9000, false));
    assert_eq!(r.listener, "not-listening");
    assert_eq!(r.process, "\u{2014}");
    assert_eq!(r.pid, "\u{2014}");
}

#[test]
fn latency_is_shown_in_milliseconds() {
    let mut s = status("a", "web", 80, false);
    s.health.latency_ms = Some(12);
    assert_eq!(service_row(s).latency, "12ms");
}

#[test]
fn tabs_filter_rows() {
    let mut st = AppState::new(snapshot());
    assert_eq!(st.active_category_key(), "all");
    assert_eq!(st.active_category_label(), "All");
    assert_eq!(st.visible_services(), vec![0, 1, 2, 3]);
    assert_eq!(st.warnings, vec!["w"]);
    st.next_category();
    assert_eq!(st.active_category_label(), "Web");
    assert_eq!(st.visible_services(), vec![0, 2]);
    st.next_category();
    st.next_category();
    assert_eq!(st.active_category_key(), "hermes");
    assert_eq!(st.visible_len(), 0);
    assert_eq!(st.selected_row(), None);
    st.next_category();
    st.next_category();
    assert_eq!(st.active_category, 0);
    st.previous_category();
    assert_eq!(st.active_category_key(), "game");
    assert_eq!(st.visible_services(), vec![3]);
}

#[test]
fn selection_moves_within_visible_rows() {
    let mut st = AppState::new(snapshot());
    st.move_up();
    assert_eq!(st.selected, 0);
    st.move_down();
    st.move_down();
    st.move_down();
    st.move_down();
    assert_eq!(st.selected, 3);
    assert_eq!(st.selected_row(), Some(3));
    st.next_category();
    assert_eq!(st.selected, 0);
    st.move_down();
    assert_eq!(st.selected_row(), Some(2));
    st.move_up();
    assert_eq!(st.selected, 0);
}

#[test]
fn refresh_clamps_selection() {
    let mut st = AppState::new(snapshot());
    st.move_down();
    st.move_down();
    st.move_down();
    let smaller = WatchedServicesSnapshot {
        services: vec![status("x", "web", 1, false), status("y", "web", 2, false)],
        warnings: Vec::new(),
    };
    st.refresh(smaller);
    assert_eq!(st.selected, 1);
    st.refresh(WatchedServicesSnapshot { services: Vec::new(), warnings: Vec::new() });
    assert_eq!(st.selected, 0);
    assert_eq!(st.selected_row(), None);
}

#[test]
fn keys_drive_the_state() {
    let mut st = AppState::new(snapshot());
    assert_eq!(st.handle_key(Key::Char('r')), Action::Refresh);
    assert_eq!(st.handle_key(Key::Char('j')), Action::Nothing);
    assert_eq!(st.selected, 1);
    st.handle_key(Key::Down);
    st.handle_key(Key::Char('k'));
    assert_eq!(st.selected, 1);
    st.handle_key(Key::Tab);
    assert_eq!(st.active_category, 1);
    st.handle_key(Key::Right);
    st.handle_key(Key::Char('l'));
    assert_eq!(st.active_category, 3);
    st.handle_key(Key::BackTab);
    st.handle_key(Key::Left);
    st.handle_key(Key::Char('h'));
    assert_eq!(st.active_category, 0);
    st.handle_key(Key::Up);
    st.handle_key(Key::Other);
    assert!(!st.should_quit);
    st.handle_key(Key::Esc);
    assert!(st.should_quit);
    let mut st = AppState::new(snapshot());
    st.handle_key(Key::Char('q'));
    assert!(st.should_quit);
}

#[test]
fn previous_undoes_next_on_every_tab() {
    let mut st = AppState::new(snapshot());
    for _ in 0..5 {
        let before = st.active_category;
        st.next_category();
        st.previous_category();
        assert_eq!(st.active_category, before);
        st.next_category();
    }
    assert_eq!(st.active_category, 0);
}

#[test]
fn tab_sizes_count_rows_per_category() {
    let state = AppState::new(snapshot());
    assert_eq!(state.tab_size(0), 4);
    assert_eq!(state.tab_size(1), 2);
    assert_eq!(state.tab_size(2), 1);
    assert_eq!(state.tab_size(3), 0);
    assert_eq!(state.tab_size(4), 1);
}

#[test]
fn status_counts_follow_the_active_tab() {
    let mut state = AppState::new(snapshot());
    state.services[0].status = "ok".to_string();
    state.services[3].status = "danger".to_string();
    assert_eq!(state.visible_with_status("ok"), 1);
    assert_eq!(state.visible_with_status("warning"), 2);
    assert_eq!(state.visible_with_status("danger"), 1);
    state.handle_key(Key::Tab);
    assert_eq!(state.visible_with_status("ok"), 1);
    assert_eq!(state.visible_with_status("warning"), 1);
    assert_eq!(state.visible_with_status("danger"), 0);
}
