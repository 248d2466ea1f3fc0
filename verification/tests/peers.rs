use herdr::command::CommandOutput;
use herdr::peers::host::{
    compute_short_host_name, local_name_of, macos_local_host_name, short_host_name, short_name_of,
    HostName,
};
use herdr::peers::model::{
    peer_to_wire, AgentState, App, AppState, FleetSnapshotState, GitSpace, PaneDetail,
    PeerSummaryState, PeerSystemSummary, PeerWorkspaceSummary, SystemStats, Workspace,
    WorktreeSpace, HOME_SWITCH_TARGET,
};
use herdr::peers::summary::{
    needs_look, system_summary, workspace_peer_summary, ResponseResult,
};
use herdr::peers::switch::PeerSwitchRequest;

const SECOND: u64 = 1_000_000_000;

const BUSY: AgentState = AgentState { code: 2 };
const IDLE: AgentState = AgentState { code: 1 };

fn unnamed() -> HostName {
    HostName { local_name: None, cached: None }
}

fn test_app() -> App {
    App {
        state: AppState {
            workspaces: Vec::new(),
            system_stats: None,
            peer_summaries: Vec::new(),
            fleet_snapshot: None,
        },
        version: "0.1.0".to_string(),
        host: unnamed(),
        background: Vec::new(),
    }
}

fn summary(name: &str, ssh_target: &str) -> PeerSummaryState {
    PeerSummaryState {
        peer: name.to_string(),
        ssh_target: ssh_target.to_string(),
        host: Some(name.to_string()),
        version: None,
        system: None,
        latency_ms: Some(10),
        workspaces: Vec::new(),
    }
}

fn carried_snapshot() -> FleetSnapshotState {
    FleetSnapshotState {
        origin: "mba22".to_string(),
        peers: vec![summary("anvil", "lars@anvil"), summary("ksb", "lars@ksb")],
    }
}

fn remote_workspace(id: &str, workspace: &str) -> PeerWorkspaceSummary {
    PeerWorkspaceSummary {
        id: id.to_string(),
        workspace: workspace.to_string(),
        project_key: None,
        project_label: None,
        branch: None,
        is_linked_worktree: false,
        agent: None,
        status: "idle".to_string(),
        status_age_secs: None,
        activity: None,
    }
}

fn pane(state: AgentState, seen: bool, at: Option<u64>, agent: &str) -> PaneDetail {
    PaneDetail {
        state,
        seen,
        state_changed_at: at,
        agent: agent.to_string(),
        live_activity: Some(format!("{agent} works")),
    }
}

fn workspace(id: &str, panes: Vec<PaneDetail>) -> Workspace {
    Workspace {
        id: id.to_string(),
        display_name: format!("name of {id}"),
        project_key: None,
        git_space: None,
        worktree_space: None,
        has_identity_cwd: true,
        branch: Some("main".to_string()),
        state: BUSY,
        seen: false,
        status: "working".to_string(),
        panes,
    }
}

fn checkout(name: &str) -> GitSpace {
    GitSpace {
        project_key: format!("{name}.git"),
        label: name.to_string(),
        is_linked_worktree: true,
    }
}

// ---- Switches --------------------------------------------------------------

#[test]
fn home_request_resolves_to_reserved_target_without_fleet() {
    let mut app = test_app();
    app.state.fleet_snapshot = Some(carried_snapshot());

    let prepared = app
        .prepare_switch_server(PeerSwitchRequest::Home)
        .expect("home resolves when an origin was carried");
    assert_eq!(prepared.ssh_target, HOME_SWITCH_TARGET);
    assert!(prepared.label.contains("mba22"));
    // Going home carries nothing: the local server needs no snapshot.
    assert!(prepared.fleet.is_none());
}

#[test]
fn home_request_without_origin_resolves_to_none() {
    let mut app = test_app();
    assert!(app.prepare_switch_server(PeerSwitchRequest::Home).is_none());
}

#[test]
fn snapshot_row_switch_passes_snapshot_through_with_original_origin() {
    let mut app = test_app();
    app.state.fleet_snapshot = Some(carried_snapshot());

    let prepared = app
        .prepare_switch_server(PeerSwitchRequest::SnapshotPeer { entry_idx: 0 })
        .expect("snapshot row resolves");
    assert_eq!(prepared.ssh_target, "lars@anvil");
    let fleet = prepared.fleet.expect("nested leap carries the snapshot");
    // Pass-through, not re-stamp: the ORIGINAL origin survives, and the
    // hop target drops out (it becomes the self row over there).
    assert_eq!(fleet.origin, "mba22");
    assert_eq!(fleet.peers.len(), 1);
    assert_eq!(fleet.peers[0].ssh_target, "lars@ksb");
}

#[test]
fn config_peer_switch_from_hub_stamps_own_origin_and_peers() {
    let mut app = test_app();
    app.state.peer_summaries =
        vec![summary("anvil", "lars@anvil"), summary("sage", "lars@sage")];

    let prepared = app
        .prepare_switch_server(PeerSwitchRequest::ConfigPeer {
            peer_idx: 1,
            ws_idx: 0,
        })
        .expect("config peer resolves");
    assert_eq!(prepared.ssh_target, "lars@sage");
    let fleet = prepared.fleet.expect("hub leap stamps a fresh snapshot");
    assert_eq!(fleet.origin, short_host_name(&mut unnamed()));
    // The hop target is excluded from its own snapshot.
    assert_eq!(fleet.peers.len(), 1);
    assert_eq!(fleet.peers[0].ssh_target, "lars@anvil");
}

#[test]
fn stale_snapshot_row_index_resolves_to_none() {
    let mut app = test_app();
    app.state.fleet_snapshot = Some(carried_snapshot());
    assert!(app
        .prepare_switch_server(PeerSwitchRequest::SnapshotPeer { entry_idx: 99 })
        .is_none());
}

#[test]
fn snapshot_row_without_snapshot_resolves_to_none() {
    let mut app = test_app();
    app.state.peer_summaries = vec![summary("anvil", "lars@anvil")];
    assert!(app
        .prepare_switch_server(PeerSwitchRequest::SnapshotPeer { entry_idx: 0 })
        .is_none());
}

#[test]
fn stale_peer_index_resolves_to_none() {
    let mut app = test_app();
    app.state.peer_summaries = vec![summary("anvil", "lars@anvil")];
    assert!(app
        .prepare_switch_server(PeerSwitchRequest::ConfigPeer { peer_idx: 1, ws_idx: 0 })
        .is_none());
    assert!(app.background.is_empty());
    assert_eq!(app.host, unnamed());
}

#[test]
fn home_label_says_so() {
    let mut app = test_app();
    app.state.fleet_snapshot = Some(carried_snapshot());
    let prepared = app.prepare_switch_server(PeerSwitchRequest::Home).unwrap();
    assert_eq!(prepared.label, "mba22 (home)");
}

#[test]
fn carried_snapshot_goes_on_even_to_a_polled_peer() {
    let mut app = test_app();
    app.state.fleet_snapshot = Some(carried_snapshot());
    app.state.peer_summaries = vec![summary("sage", "lars@sage")];
    let prepared = app
        .prepare_switch_server(PeerSwitchRequest::ConfigPeer { peer_idx: 0, ws_idx: 0 })
        .unwrap();
    let fleet = prepared.fleet.unwrap();
    assert_eq!(fleet.origin, "mba22");
    assert_eq!(fleet.peers.len(), 2);
    // No name was needed, so none was asked for.
    assert_eq!(app.host, unnamed());
}

#[test]
fn nested_leaps_lose_their_targets_only() {
    let mut hub = test_app();
    hub.host.cached = Some("hub".to_string());
    hub.state.peer_summaries =
        vec![summary("anvil", "lars@anvil"), summary("ksb", "lars@ksb"), summary("sage", "lars@sage")];
    let request = PeerSwitchRequest::ConfigPeer { peer_idx: 1, ws_idx: 0 };
    let first = hub.prepare_switch_server(request).unwrap().fleet.unwrap();

    let mut ksb = test_app();
    ksb.state.peer_summaries = vec![summary("own", "own@peer")];
    ksb.state.fleet_snapshot = Some(FleetSnapshotState {
        origin: first.origin,
        peers: first
            .peers
            .into_iter()
            .map(|peer| PeerSummaryState {
                peer: peer.peer,
                ssh_target: peer.ssh_target,
                host: peer.host,
                version: peer.version,
                system: peer.system,
                latency_ms: peer.latency_ms,
                workspaces: peer.workspaces,
            })
            .collect(),
    });
    let request = PeerSwitchRequest::SnapshotPeer { entry_idx: 1 };
    let second = ksb.prepare_switch_server(request).unwrap();
    assert_eq!(second.ssh_target, "lars@sage");
    assert_eq!(second.label, "sage");
    let fleet = second.fleet.unwrap();
    assert_eq!(fleet.origin, "hub");
    assert_eq!(fleet.peers, vec![peer_to_wire(&summary("anvil", "lars@anvil"))]);
}

#[test]
fn snapshot_without_the_target_goes_on_whole() {
    assert_eq!(carried_snapshot().to_wire("lars@else").peers.len(), 2);
    assert_eq!(carried_snapshot().to_wire("lars@ksb").origin, "mba22");
}

#[test]
fn workspace_switch_focuses_the_workspace_ahead() {
    let mut app = test_app();
    let mut peer = summary("sage", "lars@sage");
    peer.workspaces = vec![remote_workspace("ws_1", "one"), remote_workspace("ws_3", "three")];
    app.state.peer_summaries = vec![peer];
    let leg = app.prepare_peer_switch(0, 1);
    assert_eq!(leg, Some(("lars@sage".to_string(), "sage:three".to_string())));
    assert_eq!(app.background.len(), 1);
    assert_eq!(
        app.background[0].args,
        vec![
            "-o",
            "BatchMode=yes",
            "-o",
            "ConnectTimeout=5",
            "lars@sage",
            "sh -lc 'herdr workspace focus --workspace ws_3'",
        ]
    );
}

#[test]
fn unsafe_workspace_ids_are_not_passed_on() {
    for id in ["", "ws 3", "ws'3", "ws-3", "w\u{e9}", "$x", "a;b"] {
        let mut app = test_app();
        let mut peer = summary("sage", "lars@sage");
        peer.workspaces = vec![remote_workspace(id, "w")];
        app.state.peer_summaries = vec![peer];
        let leg = app.prepare_peer_switch(0, 0);
        assert_eq!(leg, Some(("lars@sage".to_string(), "sage:w".to_string())));
        assert!(app.background.is_empty());
    }
}

#[test]
fn peer_without_host_is_shown_by_its_configured_name() {
    let mut app = test_app();
    let mut peer = summary("sage", "lars@sage");
    peer.host = None;
    peer.peer = "the sage".to_string();
    app.state.peer_summaries = vec![peer];
    let leg = app.prepare_peer_switch(0, 5);
    assert_eq!(leg, Some(("lars@sage".to_string(), "the sage".to_string())));
    assert!(app.background.is_empty());
}

// ---- Host name -------------------------------------------------------------

#[test]
fn network_name_is_cut_to_its_first_label() {
    let network = Some("staff-net-17.intern.ethz.ch".to_string());
    assert_eq!(short_name_of(&None, &network), "staff-net-17");
    assert_eq!(short_name_of(&None, &Some("sage".to_string())), "sage");
    assert_eq!(short_name_of(&None, &Some(".x".to_string())), "");
    assert_eq!(short_name_of(&None, &None), "unknown");
    assert_eq!(short_name_of(&Some("my.mac".to_string()), &network), "my.mac");
}

#[test]
fn short_host_name_is_remembered() {
    let mut host = unnamed();
    let name = short_host_name(&mut host);
    assert_eq!(host.cached, Some(name.clone()));
    assert_eq!(short_host_name(&mut host), name);
    assert_eq!(name, compute_short_host_name(&None));
    let network = sysinfo::System::host_name();
    assert_eq!(name, short_name_of(&None, &network));
    let mut known = HostName { local_name: None, cached: Some("elsewhere".to_string()) };
    assert_eq!(short_host_name(&mut known), "elsewhere");
    let mut mac = HostName { local_name: Some("mba22".to_string()), cached: None };
    assert_eq!(short_host_name(&mut mac), "mba22");
}

#[test]
fn local_host_name_is_what_scutil_prints() {
    let printed = |success: bool, stdout: &[u8]| {
        macos_local_host_name(&Some(CommandOutput { success, stdout: stdout.to_vec() }))
    };
    assert_eq!(printed(true, b" mba22\n"), Some("mba22".to_string()));
    assert_eq!(printed(true, b"a\xffb\n"), Some("a\u{fffd}b".to_string()));
    assert_eq!(printed(true, b" \n"), None);
    assert_eq!(printed(false, b"mba22\n"), None);
    assert_eq!(macos_local_host_name(&None), None);
    assert_eq!(local_name_of("\u{a0}x y\t"), Some("x y".to_string()));
}

// ---- Summaries -------------------------------------------------------------

#[test]
fn load_is_told_on_its_scale() {
    let told = |cpu_percent: Option<i64>| {
        system_summary(&SystemStats {
            cpu_percent,
            mem_used: Some(1),
            mem_total: Some(2),
            disk_free: None,
        })
    };
    let expected = |cpu_percent: Option<u8>| PeerSystemSummary {
        cpu_percent,
        mem_used: Some(1),
        mem_total: Some(2),
        disk_free: None,
    };
    assert_eq!(told(None), expected(None));
    assert_eq!(told(Some(-3)), expected(Some(0)));
    assert_eq!(told(Some(0)), expected(Some(0)));
    assert_eq!(told(Some(42)), expected(Some(42)));
    assert_eq!(told(Some(100)), expected(Some(100)));
    assert_eq!(told(Some(356)), expected(Some(100)));
}

#[test]
fn oldest_pane_in_the_leading_state_leads() {
    let ws = workspace(
        "ws_1",
        vec![
            pane(IDLE, false, Some(0), "idle"),
            pane(BUSY, true, Some(1), "seen"),
            pane(BUSY, false, None, "undated"),
            pane(BUSY, false, Some(7 * SECOND), "younger"),
            pane(BUSY, false, Some(5 * SECOND), "older"),
            pane(BUSY, false, Some(5 * SECOND), "tied"),
        ],
    );
    let told = workspace_peer_summary(&ws, &None, 9 * SECOND - 1);
    assert_eq!(told.agent, Some("older".to_string()));
    assert_eq!(told.status_age_secs, Some(3));
    assert_eq!(told.activity, Some("older works".to_string()));
    assert_eq!(told.status, "working");
    assert_eq!(told.id, "ws_1");
    assert_eq!(told.workspace, "name of ws_1");
    assert_eq!(told.branch, Some("main".to_string()));
}

#[test]
fn undated_pane_leads_only_alone() {
    let ws = workspace("ws_1", vec![pane(BUSY, false, None, "undated")]);
    let told = workspace_peer_summary(&ws, &None, SECOND);
    assert_eq!(told.agent, Some("undated".to_string()));
    assert_eq!(told.status_age_secs, None);
}

#[test]
fn workspace_without_a_leading_pane_names_no_agent() {
    let ws = workspace("ws_1", vec![pane(IDLE, false, Some(1), "idle")]);
    let told = workspace_peer_summary(&ws, &None, SECOND);
    assert_eq!(told.agent, None);
    assert_eq!(told.status_age_secs, None);
    assert_eq!(told.activity, None);
}

#[test]
fn age_never_runs_backwards() {
    let ws = workspace("ws_1", vec![pane(BUSY, false, Some(5 * SECOND), "a")]);
    assert_eq!(workspace_peer_summary(&ws, &None, SECOND).status_age_secs, Some(0));
}

#[test]
fn known_checkout_tells_the_project() {
    let mut ws = workspace("ws_1", Vec::new());
    ws.git_space = Some(checkout("known"));
    ws.worktree_space =
        Some(WorktreeSpace { label: "tree".to_string(), is_linked_worktree: false });
    assert!(!needs_look(&ws));
    let told = workspace_peer_summary(&ws, &Some(checkout("found")), 0);
    assert_eq!(told.project_key, None);
    assert_eq!(told.project_label, Some("known".to_string()));
    assert!(told.is_linked_worktree);
    ws.project_key = Some("key".to_string());
    let told = workspace_peer_summary(&ws, &None, 0);
    assert_eq!(told.project_key, Some("key".to_string()));
}

#[test]
fn cold_workspace_is_told_by_a_look_at_its_directory() {
    let mut ws = workspace("ws_1", Vec::new());
    assert!(needs_look(&ws));
    ws.worktree_space =
        Some(WorktreeSpace { label: "tree".to_string(), is_linked_worktree: false });
    let told = workspace_peer_summary(&ws, &Some(checkout("found")), 0);
    assert_eq!(told.project_key, Some("found.git".to_string()));
    assert_eq!(told.project_label, Some("found".to_string()));
    // The look tells the project only.
    assert!(!told.is_linked_worktree);
    let told = workspace_peer_summary(&ws, &None, 0);
    assert_eq!(told.project_key, None);
    assert_eq!(told.project_label, Some("tree".to_string()));
    ws.has_identity_cwd = false;
    assert!(!needs_look(&ws));
    let told = workspace_peer_summary(&ws, &Some(checkout("found")), 0);
    assert_eq!(told.project_label, Some("tree".to_string()));
}

#[test]
fn peers_summary_has_one_entry_per_workspace() {
    let mut app = test_app();
    app.host.cached = Some("sage".to_string());
    app.state.workspaces = vec![workspace("ws_1", Vec::new()), workspace("ws_2", Vec::new())];
    app.state.system_stats = Some(SystemStats {
        cpu_percent: Some(250),
        mem_used: None,
        mem_total: None,
        disk_free: Some(3),
    });
    let response = app.handle_peers_summary("req".to_string(), &[Some(checkout("found"))], 0);
    assert_eq!(response.id, "req");
    let ResponseResult::PeersSummary { host, version, system, workspaces } = response.result;
    assert_eq!(host, "sage");
    assert_eq!(version, Some("0.1.0".to_string()));
    let load = system.unwrap();
    assert_eq!(load.cpu_percent, Some(100));
    assert_eq!(load.disk_free, Some(3));
    assert_eq!(workspaces.len(), 2);
    assert_eq!(workspaces[0].id, "ws_1");
    assert_eq!(workspaces[0].project_label, Some("found".to_string()));
    assert_eq!(workspaces[1].id, "ws_2");
    assert_eq!(workspaces[1].project_label, None);
}
