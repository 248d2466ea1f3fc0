//! Leaping from one server of the fleet to another.
//!
//! Each leg carries a snapshot of the fleet along, stamped by the host that the
//! user set out from, so that they can leap on and find back home.

use vstd::prelude::*;
use crate::peers::host;
use crate::peers::host::short_host_name;
use crate::peers::model;
use crate::peers::model::{
    peers_to_wire, App, FleetSnapshot, PeerView, SnapshotView, SshCommand, StateView,
    HOME_SWITCH_TARGET,
};
use crate::text;

verus! {

/// A request to go to another server.
#[derive(Clone, Copy, Debug, PartialEq, Eq, Structural)]
pub enum PeerSwitchRequest {
    /// To a polled peer, and to one of its workspaces.
    ConfigPeer { peer_idx: usize, ws_idx: usize },
    /// To a peer in the carried snapshot.
    SnapshotPeer { entry_idx: usize },
    /// Back to where the user came from.
    Home,
}

/// A resolved switch: the next target to attach to, and the snapshot that this leg
/// carries.
#[derive(Debug, PartialEq, Eq)]
pub struct PreparedServerSwitch {
    pub ssh_target: String,
    pub label: String,
    pub fleet: Option<FleetSnapshot>,
}

/// `PreparedServerSwitch` by its characters.
pub ghost struct PreparedView {
    pub ssh_target: Seq<char>,
    pub label: Seq<char>,
    pub fleet: Option<SnapshotView>,
}

impl DeepView for PreparedServerSwitch {
    type V = PreparedView;

    open spec fn deep_view(&self) -> PreparedView {
        PreparedView {
            ssh_target: self.ssh_target@,
            label: self.label@,
            fleet: self.fleet.deep_view(),
        }
    }
}

/// The name that a peer is shown by: its host's, or else the one it is configured
/// under.
pub open spec fn shown_name(peer: PeerView) -> Seq<char> {
    match peer.host {
        Some(host) => host,
        None => peer.peer,
    }
}

/// Where a switch to a polled peer leads, and what it is called: the peer, and the
/// workspace if it is still there.
pub open spec fn peer_leg(peers: Seq<PeerView>, peer_idx: int, ws_idx: int) -> Option<
    (Seq<char>, Seq<char>),
> {
    if 0 <= peer_idx < peers.len() {
        let peer = peers[peer_idx];
        Some(
            (
                peer.ssh_target,
                if 0 <= ws_idx < peer.workspaces.len() {
                    shown_name(peer) + ":"@ + peer.workspaces[ws_idx].workspace
                } else {
                    shown_name(peer)
                },
            ),
        )
    } else {
        None
    }
}

/// A character that an id may hold.
pub open spec fn id_char(c: char) -> bool {
    'a' <= c <= 'z' || 'A' <= c <= 'Z' || '0' <= c <= '9' || c == '_'
}

/// An id that a shell takes for one word, whatever its quoting.
pub open spec fn safe_id(id: Seq<char>) -> bool {
    id.len() > 0 && forall|i: int| 0 <= i < id.len() ==> id_char(#[trigger] id[i])
}

/// The arguments with which ssh focuses a workspace on a peer.
pub open spec fn focus_command(ssh_target: Seq<char>, id: Seq<char>) -> Seq<Seq<char>> {
    seq![
        "-o"@,
        "BatchMode=yes"@,
        "-o"@,
        "ConnectTimeout=5"@,
        ssh_target,
        "sh -lc 'herdr workspace focus --workspace "@ + id + "'"@,
    ]
}

/// The commands that a switch to a polled peer runs in the background: one, to focus
/// the workspace, if it is still there and its id is safe to pass on.
pub open spec fn focus_commands(peers: Seq<PeerView>, peer_idx: int, ws_idx: int) -> Seq<
    Seq<Seq<char>>,
> {
    if 0 <= peer_idx < peers.len() && 0 <= ws_idx < peers[peer_idx].workspaces.len() && safe_id(
        peers[peer_idx].workspaces[ws_idx].id,
    ) {
        seq![
            focus_command(
                peers[peer_idx].ssh_target,
                peers[peer_idx].workspaces[ws_idx].id,
            ),
        ]
    } else {
        Seq::empty()
    }
}

/// The snapshot that the next leg carries: the one that was carried here, under its
/// own origin, or else a fresh one of the polled peers, under this host's name. The
/// target itself is left out: it becomes the self row over there.
pub open spec fn outgoing(state: StateView, host_name: Seq<char>, target: Seq<char>) -> SnapshotView {
    match state.fleet_snapshot {
        Some(snapshot) => model::without(snapshot, target),
        None => model::without(
            SnapshotView { origin: host_name, peers: state.peer_summaries },
            target,
        ),
    }
}

/// What a request resolves to, if the rows that it names are still there.
pub open spec fn resolved(
    state: StateView,
    host_name: Seq<char>,
    request: PeerSwitchRequest,
) -> Option<PreparedView> {
    match request {
        PeerSwitchRequest::ConfigPeer { peer_idx, ws_idx } => match peer_leg(
            state.peer_summaries,
            peer_idx as int,
            ws_idx as int,
        ) {
            Some((ssh_target, label)) => Some(
                PreparedView {
                    ssh_target,
                    label,
                    fleet: Some(outgoing(state, host_name, ssh_target)),
                },
            ),
            None => None,
        },
        PeerSwitchRequest::SnapshotPeer { entry_idx } => match state.fleet_snapshot {
            Some(snapshot) if entry_idx < snapshot.peers.len() => {
                let entry = snapshot.peers[entry_idx as int];
                Some(
                    PreparedView {
                        ssh_target: entry.ssh_target,
                        label: shown_name(entry),
                        fleet: Some(outgoing(state, host_name, entry.ssh_target)),
                    },
                )
            },
            _ => None,
        },
        PeerSwitchRequest::Home => match state.fleet_snapshot {
            Some(snapshot) => Some(
                PreparedView {
                    ssh_target: HOME_SWITCH_TARGET@,
                    label: snapshot.origin + " (home)"@,
                    fleet: None,
                },
            ),
            None => None,
        },
    }
}

/// The request makes this server stamp a snapshot with its own name.
pub open spec fn stamps(state: StateView, request: PeerSwitchRequest) -> bool {
    &&& request matches PeerSwitchRequest::ConfigPeer { peer_idx, .. }
    &&& peer_idx < state.peer_summaries.len()
    &&& state.fleet_snapshot is None
}

/// The commands that a request runs in the background.
pub open spec fn background_of(state: StateView, request: PeerSwitchRequest) -> Seq<
    Seq<Seq<char>>,
> {
    match request {
        PeerSwitchRequest::ConfigPeer { peer_idx, ws_idx } => focus_commands(
            state.peer_summaries,
            peer_idx as int,
            ws_idx as int,
        ),
        _ => Seq::empty(),
    }
}

/// Whether an id is safe to pass on to a shell.
fn is_safe_id(id: &str) -> (yes: bool)
    ensures
        yes == safe_id(id@),
{
    let chars = text::chars_of(id);
    for i in 0..chars.len()
        invariant
            chars@ == id@,
            forall|k: int| 0 <= k < i ==> id_char(#[trigger] id@[k]),
    {
        let c = chars[i];
        assert(id@[i as int] == c);
        if !(('a' <= c && c <= 'z') || ('A' <= c && c <= 'Z') || ('0' <= c && c <= '9') || c
            == '_') {
            return false;
        }
    }
    chars.len() > 0
}

/// The command with which ssh focuses a workspace on a peer.
fn focus(ssh_target: &str, id: &str) -> (command: SshCommand)
    ensures
        command.deep_view() == focus_command(ssh_target@, id@),
{
    let remote = "sh -lc 'herdr workspace focus --workspace ".to_string().concat(id).concat("'");
    let args = vec![
        "-o".to_string(),
        "BatchMode=yes".to_string(),
        "-o".to_string(),
        "ConnectTimeout=5".to_string(),
        ssh_target.to_string(),
        remote,
    ];
    assert(args.deep_view() == focus_command(ssh_target@, id@));
    SshCommand { args }
}

/// The name that a peer is shown by.
fn peer_name(host: &Option<String>, peer: &String) -> (name: String)
    ensures
        name@ == match *host {
            Some(host) => host@,
            None => peer@,
        },
{
    match host {
        Some(host) => host.clone(),
        None => peer.clone(),
    }
}

impl App {
    /// Resolves a request to go to another server. `None` where the request no longer
    /// resolves, as the rows have changed, and for `Home` where no snapshot says where
    /// that is.
    pub fn prepare_switch_server(&mut self, request: PeerSwitchRequest) -> (prepared: Option<
        PreparedServerSwitch,
    >)
        ensures
            prepared.deep_view() == resolved(
                old(self).state.deep_view(),
                final(self).host@.cached->0,
                request,
            ),
            request is ConfigPeer && prepared is Some ==> prepared->0.ssh_target@ == old(
                self,
            ).state.peer_summaries@[request->peer_idx as int].ssh_target@,
            request is SnapshotPeer && prepared is Some ==> prepared->0.ssh_target@ == old(
                self,
            ).state.fleet_snapshot->0.peers@[request->entry_idx as int].ssh_target@,
            stamps(old(self).state.deep_view(), request) ==> host::named(
                old(self).host@,
                final(self).host@,
            ),
            !stamps(old(self).state.deep_view(), request) ==> final(self).host == old(self).host,
            final(self).background.deep_view() == old(self).background.deep_view() + background_of(
                old(self).state.deep_view(),
                request,
            ),
            final(self).state == old(self).state,
            final(self).version == old(self).version,
    {
        let ghost none: Seq<Seq<Seq<char>>> = Seq::empty();
        assert(self.background.deep_view() + none == self.background.deep_view());
        match request {
            PeerSwitchRequest::ConfigPeer { peer_idx, ws_idx } => {
                match self.prepare_peer_switch(peer_idx, ws_idx) {
                    Some((ssh_target, label)) => {
                        let fleet = Some(self.outgoing_fleet_snapshot(ssh_target.as_str()));
                        Some(PreparedServerSwitch { ssh_target, label, fleet })
                    },
                    None => None,
                }
            },
            PeerSwitchRequest::SnapshotPeer { entry_idx } => {
                let row = match &self.state.fleet_snapshot {
                    Some(snapshot) if entry_idx < snapshot.peers.len() => {
                        let entry = &snapshot.peers[entry_idx];
                        assert(snapshot.deep_view().peers[entry_idx as int] == entry.deep_view());
                        Some((entry.ssh_target.clone(), peer_name(&entry.host, &entry.peer)))
                    },
                    _ => None,
                };
                match row {
                    Some((ssh_target, label)) => {
                        let fleet = Some(self.outgoing_fleet_snapshot(ssh_target.as_str()));
                        Some(PreparedServerSwitch { ssh_target, label, fleet })
                    },
                    None => None,
                }
            },
            PeerSwitchRequest::Home => {
                match &self.state.fleet_snapshot {
                    Some(snapshot) => Some(
                        PreparedServerSwitch {
                            ssh_target: HOME_SWITCH_TARGET.to_string(),
                            label: snapshot.origin.clone().concat(" (home)"),
                            fleet: None,
                        },
                    ),
                    None => None,
                }
            },
        }
    }

    /// The snapshot that the next leg carries.
    pub fn outgoing_fleet_snapshot(&mut self, exclude_ssh_target: &str) -> (fleet: FleetSnapshot)
        ensures
            fleet.deep_view() == outgoing(
                old(self).state.deep_view(),
                final(self).host@.cached->0,
                exclude_ssh_target@,
            ),
            old(self).state.fleet_snapshot is None ==> host::named(
                old(self).host@,
                final(self).host@,
            ),
            old(self).state.fleet_snapshot is Some ==> final(self).host == old(self).host,
            final(self).state == old(self).state,
            final(self).version == old(self).version,
            final(self).background == old(self).background,
    {
        match &self.state.fleet_snapshot {
            Some(snapshot) => snapshot.to_wire(exclude_ssh_target),
            None => {
                let peers = peers_to_wire(&self.state.peer_summaries, exclude_ssh_target);
                FleetSnapshot { origin: short_host_name(&mut self.host), peers }
            },
        }
    }

    /// Resolves a switch to a polled peer: the target to attach to and the label to
    /// show. The chosen workspace is focused on the peer ahead of time, in the
    /// background.
    pub fn prepare_peer_switch(&mut self, peer_idx: usize, ws_idx: usize) -> (leg: Option<
        (String, String),
    >)
        ensures
            leg.deep_view() == peer_leg(
                old(self).state.peer_summaries.deep_view(),
                peer_idx as int,
                ws_idx as int,
            ),
            leg is Some <==> peer_idx < old(self).state.peer_summaries@.len(),
            leg matches Some((ssh_target, _)) ==> ssh_target@ == old(
                self,
            ).state.peer_summaries@[peer_idx as int].ssh_target@,
            final(self).background.deep_view() == old(self).background.deep_view() + focus_commands(
                old(self).state.peer_summaries.deep_view(),
                peer_idx as int,
                ws_idx as int,
            ),
            final(self).state == old(self).state,
            final(self).version == old(self).version,
            final(self).host == old(self).host,
    {
        let ghost none: Seq<Seq<Seq<char>>> = Seq::empty();
        let ghost before = self.background.deep_view();
        assert(before + none == before);
        if peer_idx >= self.state.peer_summaries.len() {
            return None;
        }
        let peer = &self.state.peer_summaries[peer_idx];
        assert(self.state.peer_summaries.deep_view()[peer_idx as int] == peer.deep_view());
        let ssh_target = peer.ssh_target.clone();
        let label = peer_name(&peer.host, &peer.peer);
        if ws_idx >= peer.workspaces.len() {
            return Some((ssh_target, label));
        }
        let remote = &peer.workspaces[ws_idx];
        assert(peer.deep_view().workspaces[ws_idx as int] == remote.deep_view());
        let label = label.concat(":").concat(remote.workspace.as_str());
        if is_safe_id(remote.id.as_str()) {
            let command = focus(ssh_target.as_str(), remote.id.as_str());
            self.background.push(command);
            assert(self.background.deep_view() == before + seq![command.deep_view()]);
        }
        Some((ssh_target, label))
    }
}

/// A leg never carries its own target along: it becomes the self row over there.
pub proof fn lemma_target_is_left_out(
    state: StateView,
    host_name: Seq<char>,
    request: PeerSwitchRequest,
)
    ensures
        resolved(state, host_name, request) matches Some(prepared) ==> {
            prepared.fleet matches Some(fleet) ==> forall|i: int|
                0 <= i < fleet.peers.len() ==> (#[trigger] fleet.peers[i]).ssh_target
                    != prepared.ssh_target
        },
{
    if let Some(prepared) = resolved(state, host_name, request) {
        if let Some(fleet) = prepared.fleet {
            lemma_without(carried(state, host_name), prepared.ssh_target);
        }
    }
}

/// The fleet that the next leg is told of, before its target is left out.
pub open spec fn carried(state: StateView, host_name: Seq<char>) -> SnapshotView {
    match state.fleet_snapshot {
        Some(snapshot) => snapshot,
        None => SnapshotView { origin: host_name, peers: state.peer_summaries },
    }
}

/// Leaving out a target leaves out nothing else, and adds nothing.
pub proof fn lemma_without(snapshot: SnapshotView, target: Seq<char>)
    ensures
        model::without(snapshot, target).origin == snapshot.origin,
        forall|i: int|
            0 <= i < model::without(snapshot, target).peers.len() ==> (#[trigger] model::without(
                snapshot,
                target,
            ).peers[i]).ssh_target != target,
        forall|peer: PeerView| #[trigger]
            model::without(snapshot, target).peers.contains(peer) <==> snapshot.peers.contains(peer)
                && peer.ssh_target != target,
{
    let keep = |peer: PeerView| peer.ssh_target != target;
    let kept = snapshot.peers.filter(keep);
    assert forall|i: int| 0 <= i < kept.len() implies (#[trigger] kept[i]).ssh_target
        != target by {
        snapshot.peers.lemma_filter_pred(keep, i);
    }
    assert forall|peer: PeerView| #[trigger] kept.contains(peer) <==> snapshot.peers.contains(peer)
        && peer.ssh_target != target by {
        if kept.contains(peer) {
            snapshot.peers.lemma_filter_contains_rev(keep, peer);
        }
        if snapshot.peers.contains(peer) && peer.ssh_target != target {
            let i = choose|i: int| 0 <= i < snapshot.peers.len() && snapshot.peers[i] == peer;
            snapshot.peers.lemma_filter_contains(keep, i);
        }
    }
}

/// Nested leaps keep the real home: a server that the snapshot was carried to passes
/// it on under its original origin, whatever its own name and its own peers, and
/// every host but the targets so far stays in it.
pub proof fn lemma_nested_leaps_keep_home(
    hub: StateView,
    hub_name: Seq<char>,
    first: Seq<char>,
    next: StateView,
    next_name: Seq<char>,
    second: Seq<char>,
)
    requires
        next.fleet_snapshot == Some(outgoing(hub, hub_name, first)),
    ensures
        outgoing(next, next_name, second).origin == carried(hub, hub_name).origin,
        forall|peer: PeerView| #[trigger]
            outgoing(next, next_name, second).peers.contains(peer) <==> carried(
                hub,
                hub_name,
            ).peers.contains(peer) && peer.ssh_target != first && peer.ssh_target != second,
{
    lemma_without(carried(hub, hub_name), first);
    lemma_without(outgoing(hub, hub_name, first), second);
}

/// Going home carries nothing, leads to the reserved target, and resolves exactly
/// where a snapshot says where home is.
pub proof fn lemma_home(state: StateView, host_name: Seq<char>)
    ensures
        resolved(state, host_name, PeerSwitchRequest::Home) is Some <==> state.fleet_snapshot
            is Some,
        resolved(state, host_name, PeerSwitchRequest::Home) matches Some(prepared) ==> {
            &&& prepared.ssh_target == HOME_SWITCH_TARGET@
            &&& prepared.ssh_target == "@home"@
            &&& prepared.label == state.fleet_snapshot->0.origin + " (home)"@
            &&& prepared.fleet is None
        },
{
}

/// A command that is run in the background leaves the quotes of its remote command
/// alone: what stands between them holds no character but letters, digits,
/// underscores, and what herdr itself puts there.
pub proof fn lemma_background_command_is_quoted(state: StateView, request: PeerSwitchRequest)
    ensures
        background_of(state, request).len() <= 1,
        forall|i: int|
            0 <= i < background_of(state, request).len() ==> exists|target: Seq<char>, id: Seq<char>|
                {
                    &&& #[trigger] background_of(state, request)[i] == #[trigger] focus_command(
                        target,
                        id,
                    )
                    &&& id.len() > 0
                    &&& !id.contains('\'')
                    &&& !id.contains(' ')
                    &&& forall|k: int| 0 <= k < id.len() ==> id_char(#[trigger] id[k])
                },
{
    if let PeerSwitchRequest::ConfigPeer { peer_idx, ws_idx } = request {
        if background_of(state, request).len() > 0 {
            let peer = state.peer_summaries[peer_idx as int];
            let id = peer.workspaces[ws_idx as int].id;
            assert(background_of(state, request)[0] == focus_command(peer.ssh_target, id));
        }
    }
}

/// A switch to a polled peer resolves exactly where there is such a row. It leads to that
/// peer, and is called by the peer's host, or else by the name that it is configured
/// under, and by the chosen workspace if that is still there.
pub proof fn lemma_leads_to_the_chosen_peer(
    state: StateView,
    host_name: Seq<char>,
    peer_idx: usize,
    ws_idx: usize,
)
    ensures
        ({
            let leg = resolved(
                state,
                host_name,
                PeerSwitchRequest::ConfigPeer { peer_idx, ws_idx },
            );
            let peer = state.peer_summaries[peer_idx as int];
            &&& leg is Some <==> peer_idx < state.peer_summaries.len()
            &&& leg is Some ==> {
                let prepared = leg->0;
                let there = ws_idx < peer.workspaces.len();
                &&& prepared.ssh_target == peer.ssh_target
                &&& peer.host is Some && there ==> prepared.label == peer.host->0 + ":"@
                    + peer.workspaces[ws_idx as int].workspace
                &&& peer.host is None && there ==> prepared.label == peer.peer + ":"@
                    + peer.workspaces[ws_idx as int].workspace
                &&& peer.host is Some && !there ==> prepared.label == peer.host->0
                &&& peer.host is None && !there ==> prepared.label == peer.peer
            }
            &&& peer_leg(state.peer_summaries, peer_idx as int, ws_idx as int) is Some <==> leg
                is Some
            &&& leg is Some ==> peer_leg(state.peer_summaries, peer_idx as int, ws_idx as int)->0
                == (leg->0.ssh_target, leg->0.label)
        }),
{
}

/// A switch to a row of the carried snapshot resolves exactly where there is such a row. It
/// leads to the peer in that row, and is called by its host or else by its name.
pub proof fn lemma_leads_to_the_chosen_row(
    state: StateView,
    host_name: Seq<char>,
    entry_idx: usize,
)
    ensures
        ({
            let leg = resolved(state, host_name, PeerSwitchRequest::SnapshotPeer { entry_idx });
            &&& leg is Some <==> state.fleet_snapshot is Some && entry_idx
                < state.fleet_snapshot->0.peers.len()
            &&& leg is Some ==> {
                let row = state.fleet_snapshot->0.peers[entry_idx as int];
                &&& leg->0.ssh_target == row.ssh_target
                &&& row.host is Some ==> leg->0.label == row.host->0
                &&& row.host is None ==> leg->0.label == row.peer
            }
        }),
{
}

/// Every leg but the one home tells its target of the fleet: of the snapshot that was
/// carried here, under the origin that it came with, or else of the polled peers, under
/// this host's own name. Only the target is not told of itself. This host's name is put in
/// where it stamps a snapshot, and nowhere else.
pub proof fn lemma_fleet_goes_along(
    state: StateView,
    host_name: Seq<char>,
    other_name: Seq<char>,
    request: PeerSwitchRequest,
)
    ensures
        ({
            let leg = resolved(state, host_name, request);
            leg is Some && !(request is Home) ==> {
                let fleet = leg->0.fleet;
                &&& fleet is Some
                &&& state.fleet_snapshot is Some ==> {
                    &&& fleet->0.origin == state.fleet_snapshot->0.origin
                    &&& fleet->0 == model::without(state.fleet_snapshot->0, leg->0.ssh_target)
                    &&& forall|peer: PeerView| #[trigger]
                        fleet->0.peers.contains(peer) <==> peer.ssh_target != leg->0.ssh_target
                            && state.fleet_snapshot->0.peers.contains(peer)
                }
                &&& state.fleet_snapshot is None ==> {
                    &&& fleet->0.origin == host_name
                    &&& fleet->0 == model::without(
                        SnapshotView { origin: host_name, peers: state.peer_summaries },
                        leg->0.ssh_target,
                    )
                    &&& forall|peer: PeerView| #[trigger]
                        fleet->0.peers.contains(peer) <==> peer.ssh_target != leg->0.ssh_target
                            && state.peer_summaries.contains(peer)
                }
            }
        }),
        stamps(state, request) ==> resolved(state, host_name, request) is Some && resolved(
            state,
            host_name,
            request,
        )->0.fleet is Some && resolved(state, host_name, request)->0.fleet->0.origin == host_name,
        !stamps(state, request) ==> resolved(state, host_name, request) == resolved(
            state,
            other_name,
            request,
        ),
{
    if let Some(leg) = resolved(state, host_name, request) {
        if state.fleet_snapshot is Some {
            lemma_without(state.fleet_snapshot->0, leg.ssh_target);
        } else {
            lemma_without(
                SnapshotView { origin: host_name, peers: state.peer_summaries },
                leg.ssh_target,
            );
        }
    }
}

/// A character that a shell takes for nothing but itself: an ASCII letter or digit, or an
/// underscore.
pub proof fn lemma_id_char(c: char)
    ensures
        id_char(c) <==> {
            let code = c as int;
            48 <= code <= 57 || 65 <= code <= 90 || code == 95 || 97 <= code <= 122
        },
{
}

/// The chosen workspace is focused on the host that the switch leads to: one command, run
/// by ssh without a prompt and not for long, to that host, for that workspace. It is run
/// exactly where the workspace is still there and its id, which is not empty, holds ASCII
/// letters, digits and underscores alone. No other switch runs a command.
pub proof fn lemma_focuses_the_chosen_workspace(
    state: StateView,
    host_name: Seq<char>,
    peer_idx: usize,
    ws_idx: usize,
    entry_idx: usize,
)
    ensures
        ({
            let request = PeerSwitchRequest::ConfigPeer { peer_idx, ws_idx };
            let commands = background_of(state, request);
            let peer = state.peer_summaries[peer_idx as int];
            let id = peer.workspaces[ws_idx as int].id;
            &&& commands.len() <= 1
            &&& commands.len() == 1 <==> {
                &&& peer_idx < state.peer_summaries.len()
                &&& ws_idx < peer.workspaces.len()
                &&& id.len() > 0
                &&& forall|k: int|
                    0 <= k < id.len() ==> {
                        let c = #[trigger] id[k];
                        'a' <= c <= 'z' || 'A' <= c <= 'Z' || '0' <= c <= '9' || c == '_'
                    }
            }
            &&& commands.len() == 1 ==> {
                &&& resolved(state, host_name, request) is Some
                &&& commands[0] == seq![
                    "-o"@,
                    "BatchMode=yes"@,
                    "-o"@,
                    "ConnectTimeout=5"@,
                    resolved(state, host_name, request)->0.ssh_target,
                    "sh -lc 'herdr workspace focus --workspace "@ + id + "'"@,
                ]
            }
            &&& commands == focus_commands(state.peer_summaries, peer_idx as int, ws_idx as int)
        }),
        background_of(state, PeerSwitchRequest::SnapshotPeer { entry_idx }).len() == 0,
        background_of(state, PeerSwitchRequest::Home).len() == 0,
{
    let peer = state.peer_summaries[peer_idx as int];
    let id = peer.workspaces[ws_idx as int].id;
    if forall|k: int|
        0 <= k < id.len() ==> {
            let c = #[trigger] id[k];
            'a' <= c <= 'z' || 'A' <= c <= 'Z' || '0' <= c <= '9' || c == '_'
        } {
        assert forall|k: int| 0 <= k < id.len() implies id_char(#[trigger] id[k]) by {}
    }
    if safe_id(id) {
        assert forall|k: int| 0 <= k < id.len() implies {
            let c = #[trigger] id[k];
            'a' <= c <= 'z' || 'A' <= c <= 'Z' || '0' <= c <= '9' || c == '_'
        } by {
            assert(id_char(id[k]));
        }
    }
}

/// Whatever target is left out, a carried snapshot goes on under its own origin and with
/// its own rows, and this host's name and its polled peers come in only where none was
/// carried.
pub proof fn lemma_carried_snapshot_goes_on(
    state: StateView,
    host_name: Seq<char>,
    target: Seq<char>,
    snapshot: SnapshotView,
)
    ensures
        outgoing(
            StateView { fleet_snapshot: Some(snapshot), ..state },
            host_name,
            target,
        ).origin == snapshot.origin,
        outgoing(
            StateView { fleet_snapshot: Some(snapshot), ..state },
            host_name,
            target,
        ).peers == snapshot.peers.filter(|peer: PeerView| peer.ssh_target != target),
        outgoing(StateView { fleet_snapshot: None, ..state }, host_name, target).origin
            == host_name,
        outgoing(StateView { fleet_snapshot: None, ..state }, host_name, target).peers
            == state.peer_summaries.filter(|peer: PeerView| peer.ssh_target != target),
{
}

} // verus!
