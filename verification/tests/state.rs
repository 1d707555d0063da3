use pimon::server::{OverTimeData, PiHoleConfigImplementation, PiHoleData, PiHoleServer,
    RefreshState, Summary};
use pimon::state::{App, PiHoleServerConfig, PimonConfig, ProviderMutation, DISABLE_SECONDS};

fn config(servers: &[(&str, Option<&str>)], update_delay: u64) -> PimonConfig {
    PimonConfig {
        servers: servers
            .iter()
            .map(|(name, key)| PiHoleServerConfig {
                name: name.to_string(),
                host: format!("http://{}", name),
                api_key: key.map(|k| k.to_string()),
            })
            .collect(),
        update_delay,
    }
}

fn summary_fixture() -> Summary {
    Summary {
        domains_being_blocked: "100,000".to_string(),
        dns_queries_today: "1,234".to_string(),
        ads_blocked_today: "56".to_string(),
        ads_percentage_today: "4.5".to_string(),
        unique_domains: "321".to_string(),
        queries_forwarded: "900".to_string(),
        queries_cached: "300".to_string(),
        unique_clients: "7".to_string(),
        reply_nodata: "10".to_string(),
        reply_nxdomain: "11".to_string(),
        reply_cname: "12".to_string(),
        reply_ip: "13".to_string(),
        privacy_level: "0".to_string(),
        status: "enabled".to_string(),
    }
}

#[test]
fn select_previous_wraps_to_last() {
    let mut app = App::from_config(config(&[("a", None), ("b", None), ("c", None)], 1000), 5000);
    assert_eq!(app.selected_server_index, 0);
    app.previous_server();
    assert_eq!(app.selected_server_index, 2);
    app.previous_server();
    assert_eq!(app.selected_server_index, 1);
}

#[test]
fn select_next_wraps_to_first() {
    let mut app = App::from_config(config(&[("a", None), ("b", None), ("c", None)], 1000), 5000);
    app.next_server();
    app.next_server();
    assert_eq!(app.selected_server_index, 2);
    app.next_server();
    assert_eq!(app.selected_server_index, 0);
}

#[test]
fn single_server_selection_stays_put() {
    let mut app = App::from_config(config(&[("a", None)], 1000), 5000);
    app.next_server();
    assert_eq!(app.selected_server_index, 0);
    app.previous_server();
    assert_eq!(app.selected_server_index, 0);
}

#[test]
fn zoom_in_never_drops_below_one() {
    let mut app = App::from_config(config(&[("a", None)], 1000), 5000);
    assert_eq!(app.graph_squash_factor, 1);
    app.on_z();
    assert_eq!(app.graph_squash_factor, 1);
    app.on_x();
    app.on_x();
    assert_eq!(app.graph_squash_factor, 4);
    app.on_z();
    assert_eq!(app.graph_squash_factor, 2);
}

#[test]
fn zoom_out_never_wraps() {
    let mut app = App::from_config(config(&[("a", None)], 1000), 5000);
    let mut previous = app.graph_squash_factor;
    for _ in 0..200 {
        app.on_x();
        assert!(app.graph_squash_factor >= previous);
        previous = app.graph_squash_factor;
    }
    app.graph_squash_factor = usize::MAX;
    app.on_x();
    assert_eq!(app.graph_squash_factor, usize::MAX);
}

#[test]
fn single_flight_second_request_is_coalesced() {
    let mut server = PiHoleServer::new(
        "a".to_string(),
        "http://a".to_string(),
        None,
        1000,
        5000,
    );
    assert!(matches!(server.refresh_state, RefreshState::Idle));
    let first = server.run_background_update(6000);
    assert!(first);
    assert!(matches!(server.refresh_state, RefreshState::InFlight { started_at: 6000 }));
    let second = server.run_background_update(6500);
    assert!(!second);
    assert!(matches!(server.refresh_state, RefreshState::InFlight { started_at: 6000 }));
}

#[test]
fn tick_fetches_when_stale_and_waits_while_in_flight() {
    let mut app = App::from_config(config(&[("a", None)], 1000), 5000);
    // last_update was set back one interval, so the first due tick fetches.
    let spawn = app.on_tick(5100, None);
    assert!(spawn);
    // While the fetch is outstanding, further ticks spawn nothing.
    let spawn = app.on_tick(5200, None);
    assert!(!spawn);
    // A delivered snapshot completes the cycle and restarts the clock.
    let data = PiHoleData {
        summary: Some(summary_fixture()),
        top_sources: None,
        top_items: None,
        over_time_data: None,
    };
    let spawn = app.on_tick(5300, Some(Some(data)));
    assert!(!spawn);
    let server = &app.servers[0];
    assert_eq!(server.last_update, 5300);
    assert!(matches!(server.refresh_state, RefreshState::Idle));
    assert!(server.last_data.summary.is_some());
    // Fresh data: the next tick inside the interval spawns nothing.
    let spawn = app.on_tick(6300, None);
    assert!(!spawn);
    // One past the interval: stale again.
    let spawn = app.on_tick(6301, None);
    assert!(spawn);
}

#[test]
fn partial_snapshot_keeps_fields_independent() {
    let mut app = App::from_config(config(&[("a", None)], 1000), 5000);
    assert!(app.on_tick(5100, None));
    // The series sub-query failed, the summary succeeded: the snapshot keeps
    // the summary and leaves the series absent.
    let data = PiHoleData {
        summary: Some(summary_fixture()),
        top_sources: None,
        top_items: None,
        over_time_data: None,
    };
    assert!(!app.on_tick(5200, Some(Some(data))));
    let server = &app.servers[0];
    assert!(server.last_data.summary.is_some());
    assert!(server.last_data.over_time_data.is_none());
    assert!(server.last_data.top_sources.is_none());
    assert!(server.last_data.top_items.is_none());
    assert_eq!(server.last_data.summary.as_ref().unwrap().status, "enabled");
}

#[test]
fn delivery_without_snapshot_restarts_clock_and_keeps_data() {
    let mut server = PiHoleServer::new("a".to_string(), "http://a".to_string(), None, 1000, 5000);
    assert!(server.run_background_update(5100));
    let data = PiHoleData {
        summary: None,
        top_sources: None,
        top_items: None,
        over_time_data: Some(OverTimeData { domains_over_time: vec![(600, 4)] }),
    };
    assert!(server.check_background_update(5200, Some(Some(data))));
    assert_eq!(server.last_update, 5200);
    assert!(server.last_data.over_time_data.is_some());
    // A later cycle whose channel yielded no snapshot keeps the old data.
    assert!(server.run_background_update(6300));
    assert!(server.check_background_update(6400, Some(None)));
    assert_eq!(server.last_update, 6400);
    assert!(server.last_data.over_time_data.is_some());
}

#[test]
fn delivered_snapshot_replaces_the_old_one_wholesale() {
    let mut server = PiHoleServer::new("a".to_string(), "http://a".to_string(), None, 1000, 5000);
    assert!(server.run_background_update(5100));
    let first = PiHoleData {
        summary: Some(summary_fixture()),
        top_sources: None,
        top_items: None,
        over_time_data: None,
    };
    assert!(server.check_background_update(5200, Some(Some(first))));
    assert!(server.last_data.summary.is_some());
    // The next completed fetch lost its summary; the replacement is
    // wholesale, so the stored summary goes absent with it.
    assert!(server.run_background_update(6300));
    let second = PiHoleData {
        summary: None,
        top_sources: None,
        top_items: None,
        over_time_data: Some(OverTimeData { domains_over_time: vec![(600, 4)] }),
    };
    assert!(server.check_background_update(6400, Some(Some(second))));
    assert!(server.last_data.summary.is_none());
    assert!(server.last_data.over_time_data.is_some());
}

#[test]
fn poll_without_result_changes_nothing() {
    let mut server = PiHoleServer::new("a".to_string(), "http://a".to_string(), None, 1000, 5000);
    assert!(server.run_background_update(5100));
    assert!(!server.check_background_update(5200, None));
    assert!(matches!(server.refresh_state, RefreshState::InFlight { started_at: 5100 }));
    assert_eq!(server.last_update, 4000);
}

#[test]
fn staleness_is_strictly_past_the_interval() {
    let server = PiHoleServer::new("a".to_string(), "http://a".to_string(), None, 0, 4000);
    assert_eq!(server.last_update, 4000);
    assert!(!server.is_stale(5000, 1000));
    assert!(server.is_stale(5001, 1000));
    assert!(!server.is_stale(3000, 1000));
}

#[test]
fn snapshot_starts_all_absent() {
    let server = PiHoleServer::new("a".to_string(), "http://a".to_string(), None, 1000, 5000);
    let snapshot = server.snapshot();
    assert!(snapshot.summary.is_none());
    assert!(snapshot.top_sources.is_none());
    assert!(snapshot.top_items.is_none());
    assert!(snapshot.over_time_data.is_none());
}

#[test]
fn force_refresh_bypasses_staleness() {
    let mut app = App::from_config(config(&[("a", None)], 1000), 5000);
    let data = PiHoleData::empty();
    assert!(app.on_tick(5100, None));
    assert!(!app.on_tick(5200, Some(Some(data))));
    // Fresh data, not stale: a tick spawns nothing, but the space command does.
    assert!(!app.on_tick(5300, None));
    assert!(app.on_space(5400));
}

#[test]
fn enable_needs_an_api_key() {
    let mut app = App::from_config(
        config(&[("open", None), ("keyed", Some("SECRET-REDACTED"))], 1000),
        5000,
    );
    let (mutation, spawn) = app.on_e(5100);
    assert!(mutation.is_none());
    assert!(spawn);
    app.next_server();
    let (mutation, spawn) = app.on_e(5200);
    assert!(matches!(mutation, Some(ProviderMutation::Enable)));
    assert!(spawn);
}

#[test]
fn disable_needs_an_api_key_and_is_timed() {
    let mut app = App::from_config(
        config(&[("open", None), ("keyed", Some("SECRET-REDACTED"))], 1000),
        5000,
    );
    let (mutation, _spawn) = app.on_d(5100);
    assert!(mutation.is_none());
    app.next_server();
    let (mutation, _spawn) = app.on_d(5200);
    match mutation {
        Some(ProviderMutation::Disable { duration_seconds }) => {
            assert_eq!(duration_seconds, DISABLE_SECONDS);
            assert_eq!(duration_seconds, 60);
        },
        _ => panic!("expected a timed disable"),
    }
}

#[test]
fn from_config_builds_one_coordinator_per_server() {
    let app = App::from_config(
        config(&[("a", None), ("b", Some("SECRET-REDACTED"))], 2000),
        9000,
    );
    assert_eq!(app.servers.len(), 2);
    assert_eq!(app.selected_server_index, 0);
    assert_eq!(app.update_delay, 2000);
    assert_eq!(app.graph_squash_factor, 1);
    assert_eq!(app.servers[0].name, "a");
    assert_eq!(app.servers[0].host, "http://a");
    assert!(app.servers[0].api_key.is_none());
    assert_eq!(app.servers[0].last_update, 7000);
    assert!(matches!(app.servers[0].refresh_state, RefreshState::Idle));
    assert!(app.servers[1].api_key.is_some());
}

#[test]
fn config_capabilities_follow_the_key() {
    let open = PiHoleConfigImplementation::new("http://a".to_string(), None);
    assert!(open.get_authenticated_api().is_none());
    assert_eq!(open.get_unauthenticated_api().unwrap().as_str(), "http://a");
    let keyed = PiHoleConfigImplementation::new(
        "http://b".to_string(),
        Some("SECRET-REDACTED".to_string()),
    );
    let auth = keyed.get_authenticated_api().unwrap();
    assert_eq!(auth.host, "http://b");
    assert_eq!(auth.api_key, "SECRET-REDACTED");
    assert_eq!(keyed.get_unauthenticated_api().unwrap().as_str(), "http://b");
}
