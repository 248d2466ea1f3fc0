//! The data that hosts of a fleet tell each other, and the state that it is
//! taken from.

use vstd::prelude::*;
use crate::peers::host::HostName;

verus! {

/// The reserved target that stands for going back to where the user came from.
pub const HOME_SWITCH_TARGET: &'static str = "@home";

/// A state that an agent was detected in. States are only ever compared here.
#[derive(Clone, Copy, Debug, PartialEq, Eq, Structural)]
pub struct AgentState {
    pub code: u32,
}

/// A git checkout, as a project is told by it.
#[derive(Debug, PartialEq, Eq)]
pub struct GitSpace {
    pub project_key: String,
    pub label: String,
    pub is_linked_worktree: bool,
}

/// A worktree that herdr made for a workspace.
#[derive(Debug, PartialEq, Eq)]
pub struct WorktreeSpace {
    pub label: String,
    pub is_linked_worktree: bool,
}

/// A pane of a workspace.
#[derive(Debug, PartialEq, Eq)]
pub struct PaneDetail {
    pub state: AgentState,
    pub seen: bool,
    /// When the state last changed, in nanoseconds of the monotonic clock.
    pub state_changed_at: Option<u64>,
    /// The short label of the agent in the pane.
    pub agent: String,
    pub live_activity: Option<String>,
}

/// A workspace.
#[derive(Debug, PartialEq, Eq)]
pub struct Workspace {
    pub id: String,
    pub display_name: String,
    pub project_key: Option<String>,
    /// The checkout that the workspace is in, once the periodic refresh has seen
    /// it.
    pub git_space: Option<GitSpace>,
    pub worktree_space: Option<WorktreeSpace>,
    /// There is a directory to tell the workspace's project by.
    pub has_identity_cwd: bool,
    pub branch: Option<String>,
    /// The state that most wants attention among the panes, and whether the user
    /// has seen it.
    pub state: AgentState,
    pub seen: bool,
    /// The status that state is reported as.
    pub status: String,
    pub panes: Vec<PaneDetail>,
}

/// What the status line samples of this host.
#[derive(Clone, Copy, Debug, PartialEq, Eq, Structural)]
pub struct SystemStats {
    /// The CPU load, rounded to whole percent. A sample may be off the scale.
    pub cpu_percent: Option<i64>,
    pub mem_used: Option<u64>,
    pub mem_total: Option<u64>,
    pub disk_free: Option<u64>,
}

/// What a peer is told of this host's load.
#[derive(Clone, Copy, Debug, PartialEq, Eq, Structural)]
pub struct PeerSystemSummary {
    pub cpu_percent: Option<u8>,
    pub mem_used: Option<u64>,
    pub mem_total: Option<u64>,
    pub disk_free: Option<u64>,
}

/// What a peer is told of a workspace: its project and the status of the agent
/// that leads it.
#[derive(Debug, PartialEq, Eq)]
pub struct PeerWorkspaceSummary {
    pub id: String,
    pub workspace: String,
    pub project_key: Option<String>,
    pub project_label: Option<String>,
    pub branch: Option<String>,
    pub is_linked_worktree: bool,
    pub agent: Option<String>,
    pub status: String,
    pub status_age_secs: Option<u64>,
    pub activity: Option<String>,
}

/// What is known of a peer.
#[derive(Debug, PartialEq, Eq)]
pub struct PeerSummaryState {
    pub peer: String,
    pub ssh_target: String,
    pub host: Option<String>,
    pub version: Option<String>,
    pub system: Option<PeerSystemSummary>,
    pub latency_ms: Option<u64>,
    pub workspaces: Vec<PeerWorkspaceSummary>,
}

/// The fleet as the host that the user came from saw it.
#[derive(Debug, PartialEq, Eq)]
pub struct FleetSnapshotState {
    /// The host that took the snapshot: the user's home.
    pub origin: String,
    pub peers: Vec<PeerSummaryState>,
}

/// A peer, as it is sent.
#[derive(Debug, PartialEq, Eq)]
pub struct FleetPeer {
    pub peer: String,
    pub ssh_target: String,
    pub host: Option<String>,
    pub version: Option<String>,
    pub system: Option<PeerSystemSummary>,
    pub latency_ms: Option<u64>,
    pub workspaces: Vec<PeerWorkspaceSummary>,
}

/// A fleet snapshot, as it is sent.
#[derive(Debug, PartialEq, Eq)]
pub struct FleetSnapshot {
    pub origin: String,
    pub peers: Vec<FleetPeer>,
}

/// A command for ssh: its arguments.
#[derive(Debug, PartialEq, Eq)]
pub struct SshCommand {
    pub args: Vec<String>,
}

/// What the server knows.
#[derive(Debug, PartialEq, Eq)]
pub struct AppState {
    pub workspaces: Vec<Workspace>,
    pub system_stats: Option<SystemStats>,
    /// The peers that this server polls.
    pub peer_summaries: Vec<PeerSummaryState>,
    /// The snapshot that the user's client carried here, if it came from another
    /// server.
    pub fleet_snapshot: Option<FleetSnapshotState>,
}

/// The server.
#[derive(Debug, PartialEq, Eq)]
pub struct App {
    pub state: AppState,
    /// The version of this build.
    pub version: String,
    pub host: HostName,
    /// Commands to run in the background, oldest first. Nothing waits for them.
    pub background: Vec<SshCommand>,
}

/// `GitSpace` by its characters.
pub ghost struct GitSpaceView {
    pub project_key: Seq<char>,
    pub label: Seq<char>,
    pub is_linked_worktree: bool,
}

/// `WorktreeSpace` by its characters.
pub ghost struct WorktreeSpaceView {
    pub label: Seq<char>,
    pub is_linked_worktree: bool,
}

/// `PaneDetail` by its characters.
pub ghost struct PaneView {
    pub state: AgentState,
    pub seen: bool,
    pub state_changed_at: Option<u64>,
    pub agent: Seq<char>,
    pub live_activity: Option<Seq<char>>,
}

/// `Workspace` by its characters.
pub ghost struct WorkspaceView {
    pub id: Seq<char>,
    pub display_name: Seq<char>,
    pub project_key: Option<Seq<char>>,
    pub git_space: Option<GitSpaceView>,
    pub worktree_space: Option<WorktreeSpaceView>,
    pub has_identity_cwd: bool,
    pub branch: Option<Seq<char>>,
    pub state: AgentState,
    pub seen: bool,
    pub status: Seq<char>,
    pub panes: Seq<PaneView>,
}

/// `PeerWorkspaceSummary` by its characters.
pub ghost struct WorkspaceSummaryView {
    pub id: Seq<char>,
    pub workspace: Seq<char>,
    pub project_key: Option<Seq<char>>,
    pub project_label: Option<Seq<char>>,
    pub branch: Option<Seq<char>>,
    pub is_linked_worktree: bool,
    pub agent: Option<Seq<char>>,
    pub status: Seq<char>,
    pub status_age_secs: Option<u64>,
    pub activity: Option<Seq<char>>,
}

/// A peer, known or sent, by its characters.
pub ghost struct PeerView {
    pub peer: Seq<char>,
    pub ssh_target: Seq<char>,
    pub host: Option<Seq<char>>,
    pub version: Option<Seq<char>>,
    pub system: Option<PeerSystemSummary>,
    pub latency_ms: Option<u64>,
    pub workspaces: Seq<WorkspaceSummaryView>,
}

/// A fleet snapshot, known or sent, by its characters.
pub ghost struct SnapshotView {
    pub origin: Seq<char>,
    pub peers: Seq<PeerView>,
}

/// `AppState` by its characters.
pub ghost struct StateView {
    pub workspaces: Seq<WorkspaceView>,
    pub system_stats: Option<SystemStats>,
    pub peer_summaries: Seq<PeerView>,
    pub fleet_snapshot: Option<SnapshotView>,
}

impl DeepView for GitSpace {
    type V = GitSpaceView;

    open spec fn deep_view(&self) -> GitSpaceView {
        GitSpaceView {
            project_key: self.project_key@,
            label: self.label@,
            is_linked_worktree: self.is_linked_worktree,
        }
    }
}

impl DeepView for WorktreeSpace {
    type V = WorktreeSpaceView;

    open spec fn deep_view(&self) -> WorktreeSpaceView {
        WorktreeSpaceView { label: self.label@, is_linked_worktree: self.is_linked_worktree }
    }
}

impl DeepView for PaneDetail {
    type V = PaneView;

    open spec fn deep_view(&self) -> PaneView {
        PaneView {
            state: self.state,
            seen: self.seen,
            state_changed_at: self.state_changed_at,
            agent: self.agent@,
            live_activity: self.live_activity.deep_view(),
        }
    }
}

impl DeepView for Workspace {
    type V = WorkspaceView;

    open spec fn deep_view(&self) -> WorkspaceView {
        WorkspaceView {
            id: self.id@,
            display_name: self.display_name@,
            project_key: self.project_key.deep_view(),
            git_space: self.git_space.deep_view(),
            worktree_space: self.worktree_space.deep_view(),
            has_identity_cwd: self.has_identity_cwd,
            branch: self.branch.deep_view(),
            state: self.state,
            seen: self.seen,
            status: self.status@,
            panes: self.panes.deep_view(),
        }
    }
}

impl DeepView for PeerWorkspaceSummary {
    type V = WorkspaceSummaryView;

    open spec fn deep_view(&self) -> WorkspaceSummaryView {
        WorkspaceSummaryView {
            id: self.id@,
            workspace: self.workspace@,
            project_key: self.project_key.deep_view(),
            project_label: self.project_label.deep_view(),
            branch: self.branch.deep_view(),
            is_linked_worktree: self.is_linked_worktree,
            agent: self.agent.deep_view(),
            status: self.status@,
            status_age_secs: self.status_age_secs,
            activity: self.activity.deep_view(),
        }
    }
}

impl DeepView for PeerSummaryState {
    type V = PeerView;

    open spec fn deep_view(&self) -> PeerView {
        PeerView {
            peer: self.peer@,
            ssh_target: self.ssh_target@,
            host: self.host.deep_view(),
            version: self.version.deep_view(),
            system: self.system,
            latency_ms: self.latency_ms,
            workspaces: self.workspaces.deep_view(),
        }
    }
}

impl DeepView for FleetPeer {
    type V = PeerView;

    open spec fn deep_view(&self) -> PeerView {
        PeerView {
            peer: self.peer@,
            ssh_target: self.ssh_target@,
            host: self.host.deep_view(),
            version: self.version.deep_view(),
            system: self.system,
            latency_ms: self.latency_ms,
            workspaces: self.workspaces.deep_view(),
        }
    }
}

impl DeepView for FleetSnapshotState {
    type V = SnapshotView;

    open spec fn deep_view(&self) -> SnapshotView {
        SnapshotView { origin: self.origin@, peers: self.peers.deep_view() }
    }
}

impl DeepView for FleetSnapshot {
    type V = SnapshotView;

    open spec fn deep_view(&self) -> SnapshotView {
        SnapshotView { origin: self.origin@, peers: self.peers.deep_view() }
    }
}

impl DeepView for SshCommand {
    type V = Seq<Seq<char>>;

    open spec fn deep_view(&self) -> Seq<Seq<char>> {
        self.args.deep_view()
    }
}

impl DeepView for AppState {
    type V = StateView;

    open spec fn deep_view(&self) -> StateView {
        StateView {
            workspaces: self.workspaces.deep_view(),
            system_stats: self.system_stats,
            peer_summaries: self.peer_summaries.deep_view(),
            fleet_snapshot: self.fleet_snapshot.deep_view(),
        }
    }
}

/// A copy of a text that there may be.
pub fn copy_text(source: &Option<String>) -> (copy: Option<String>)
    ensures
        copy.deep_view() == source.deep_view(),
{
    match source {
        Some(source) => Some(source.clone()),
        None => None,
    }
}

impl Clone for PeerWorkspaceSummary {
    fn clone(&self) -> (copy: Self)
        ensures
            copy.deep_view() == self.deep_view(),
            copy.id@ == self.id@,
            copy.workspace@ == self.workspace@,
            copy.project_key.deep_view() == self.project_key.deep_view(),
            copy.project_label.deep_view() == self.project_label.deep_view(),
            copy.branch.deep_view() == self.branch.deep_view(),
            copy.is_linked_worktree == self.is_linked_worktree,
            copy.agent.deep_view() == self.agent.deep_view(),
            copy.status@ == self.status@,
            copy.status_age_secs == self.status_age_secs,
            copy.activity.deep_view() == self.activity.deep_view(),
    {
        PeerWorkspaceSummary {
            id: self.id.clone(),
            workspace: self.workspace.clone(),
            project_key: copy_text(&self.project_key),
            project_label: copy_text(&self.project_label),
            branch: copy_text(&self.branch),
            is_linked_worktree: self.is_linked_worktree,
            agent: copy_text(&self.agent),
            status: self.status.clone(),
            status_age_secs: self.status_age_secs,
            activity: copy_text(&self.activity),
        }
    }
}

/// A copy of what is known of the workspaces of a peer.
fn copy_workspaces(source: &Vec<PeerWorkspaceSummary>) -> (copies: Vec<PeerWorkspaceSummary>)
    ensures
        copies.deep_view() == source.deep_view(),
{
    let mut copies: Vec<PeerWorkspaceSummary> = Vec::new();
    for i in 0..source.len()
        invariant
            copies.deep_view() == source.deep_view().take(i as int),
    {
        let ghost before = copies.deep_view();
        copies.push(source[i].clone());
        assert(copies.deep_view() == before.push(source.deep_view()[i as int]));
    }
    copies
}

/// A peer as it is sent: all that is known of it.
pub fn peer_to_wire(peer: &PeerSummaryState) -> (wire: FleetPeer)
    ensures
        wire.deep_view() == peer.deep_view(),
        wire.peer@ == peer.peer@,
        wire.ssh_target@ == peer.ssh_target@,
        wire.host.deep_view() == peer.host.deep_view(),
        wire.version.deep_view() == peer.version.deep_view(),
        wire.system == peer.system,
        wire.latency_ms == peer.latency_ms,
        wire.workspaces.deep_view() == peer.workspaces.deep_view(),
{
    FleetPeer {
        peer: peer.peer.clone(),
        ssh_target: peer.ssh_target.clone(),
        host: copy_text(&peer.host),
        version: copy_text(&peer.version),
        system: peer.system,
        latency_ms: peer.latency_ms,
        workspaces: copy_workspaces(&peer.workspaces),
    }
}

/// A snapshot without the peer at one target.
pub open spec fn without(snapshot: SnapshotView, ssh_target: Seq<char>) -> SnapshotView {
    SnapshotView {
        origin: snapshot.origin,
        peers: snapshot.peers.filter(|peer: PeerView| peer.ssh_target != ssh_target),
    }
}

/// The peers that are sent to one of them: all but itself.
pub fn peers_to_wire(peers: &Vec<PeerSummaryState>, exclude_ssh_target: &str) -> (wire: Vec<
    FleetPeer,
>)
    ensures
        wire.deep_view() == peers.deep_view().filter(
            |peer: PeerView| peer.ssh_target != exclude_ssh_target@,
        ),
{
    let ghost all = peers.deep_view();
    let ghost keep = |peer: PeerView| peer.ssh_target != exclude_ssh_target@;
    let mut wire: Vec<FleetPeer> = Vec::new();
    assert(wire.deep_view() == all.take(0).filter(keep)) by {
        reveal(Seq::filter);
    }
    for i in 0..peers.len()
        invariant
            all == peers.deep_view(),
            keep == (|peer: PeerView| peer.ssh_target != exclude_ssh_target@),
            wire.deep_view() == all.take(i as int).filter(keep),
    {
        let ghost before = wire.deep_view();
        assert(all[i as int] == peers@[i as int].deep_view());
        assert(all.take(i + 1).drop_last() == all.take(i as int));
        if !crate::text::same_text(peers[i].ssh_target.as_str(), exclude_ssh_target) {
            wire.push(peer_to_wire(&peers[i]));
            assert(wire.deep_view() == before.push(all[i as int]));
        }
        assert(wire.deep_view() == all.take(i + 1).filter(keep)) by {
            reveal(Seq::filter);
        }
    }
    assert(all.take(all.len() as int) == all);
    wire
}

impl FleetSnapshotState {
    /// The snapshot as it is sent on: by the same origin, without the host that it
    /// is sent to.
    pub fn to_wire(&self, exclude_ssh_target: &str) -> (wire: FleetSnapshot)
        ensures
            wire.deep_view() == without(self.deep_view(), exclude_ssh_target@),
    {
        FleetSnapshot {
            origin: self.origin.clone(),
            peers: peers_to_wire(&self.peers, exclude_ssh_target),
        }
    }
}

/// Leaving out a target keeps the order and the number of all others: two lists, put
/// together, are left with what each of them is left with.
pub proof fn lemma_without_keeps_the_order(
    origin: Seq<char>,
    first: Seq<PeerView>,
    peer: PeerView,
    rest: Seq<PeerView>,
    ssh_target: Seq<char>,
)
    ensures
        ({
            let left = |peers: Seq<PeerView>|
                without(SnapshotView { origin, peers }, ssh_target).peers;
            &&& left(Seq::empty()) == Seq::<PeerView>::empty()
            &&& peer.ssh_target == ssh_target ==> left(first + seq![peer] + rest) == left(first)
                + left(rest)
            &&& peer.ssh_target != ssh_target ==> left(first + seq![peer] + rest) == left(first)
                + seq![peer] + left(rest)
        }),
        without(SnapshotView { origin, peers: first }, ssh_target).origin == origin,
{
    let keep = |peer: PeerView| peer.ssh_target != ssh_target;
    let one = seq![peer];
    Seq::filter_distributes_over_add(first + one, rest, keep);
    Seq::filter_distributes_over_add(first, one, keep);
    assert(one.drop_last() == Seq::<PeerView>::empty());
    reveal(Seq::filter);
    let none = Seq::<PeerView>::empty().filter(keep);
    assert(none == Seq::<PeerView>::empty());
    assert(one.drop_last().filter(keep) == none);
    if keep(peer) {
        assert(one.filter(keep) == one);
    } else {
        assert(first.filter(keep) + none == first.filter(keep));
    }
}

} // verus!
