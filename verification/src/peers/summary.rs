//! This server's federated summary: one entry per workspace, with its project and
//! the status of the agent that most wants attention. Peers poll it to fold this
//! server's workspaces into their sidebars.

use vstd::prelude::*;
use crate::peers::host;
use crate::peers::host::short_host_name;
use crate::peers::model::{
    copy_text, App, GitSpace, GitSpaceView, PaneDetail, PaneView, PeerSystemSummary,
    PeerWorkspaceSummary, SystemStats, Workspace, WorkspaceSummaryView, WorkspaceView,
};

verus! {

/// Nanoseconds in a second.
pub const NANOS_PER_SEC: u64 = 1_000_000_000;

/// The result of a request that succeeded.
#[derive(Debug, PartialEq, Eq)]
pub enum ResponseResult {
    PeersSummary {
        host: String,
        version: Option<String>,
        system: Option<PeerSystemSummary>,
        workspaces: Vec<PeerWorkspaceSummary>,
    },
}

/// The response to a request that succeeded.
#[derive(Debug, PartialEq, Eq)]
pub struct SuccessResponse {
    /// The request that is answered.
    pub id: String,
    pub result: ResponseResult,
}

/// `ResponseResult` by its characters.
pub ghost enum ResultView {
    PeersSummary {
        host: Seq<char>,
        version: Option<Seq<char>>,
        system: Option<PeerSystemSummary>,
        workspaces: Seq<WorkspaceSummaryView>,
    },
}

impl View for ResponseResult {
    type V = ResultView;

    open spec fn view(&self) -> ResultView {
        match *self {
            ResponseResult::PeersSummary { host, version, system, workspaces } => {
                ResultView::PeersSummary {
                    host: host@,
                    version: version.deep_view(),
                    system,
                    workspaces: workspaces.deep_view(),
                }
            },
        }
    }
}

/// A load on the scale from 0 to 100 percent.
pub open spec fn on_scale(percent: i64) -> u8 {
    if percent < 0 {
        0
    } else if percent > 100 {
        100
    } else {
        percent as u8
    }
}

/// What a peer is told of a host's load.
pub open spec fn load_of(stats: SystemStats) -> PeerSystemSummary {
    PeerSystemSummary {
        cpu_percent: match stats.cpu_percent {
            Some(percent) => Some(on_scale(percent)),
            None => None,
        },
        mem_used: stats.mem_used,
        mem_total: stats.mem_total,
        disk_free: stats.disk_free,
    }
}

/// The pane is in the state that its workspace is reported in.
pub open spec fn leads_in(workspace: WorkspaceView, pane: PaneView) -> bool {
    pane.state == workspace.state && pane.seen == workspace.seen
}

/// When the pane came to its state; one that does not say counts as newest.
pub open spec fn since(pane: PaneView, now: u64) -> u64 {
    match pane.state_changed_at {
        Some(at) => at,
        None => now,
    }
}

/// The pane that leads among the first `count`: of those in the state of the
/// workspace the one that has been in it longest, the first of them on a tie.
pub open spec fn leading(workspace: WorkspaceView, now: u64, count: nat) -> Option<int>
    decreases count,
{
    if count == 0 {
        None
    } else {
        let before = leading(workspace, now, (count - 1) as nat);
        let pane = workspace.panes[count - 1];
        match before {
            _ if !leads_in(workspace, pane) => before,
            Some(best) if since(workspace.panes[best], now) <= since(pane, now) => before,
            _ => Some(count - 1),
        }
    }
}

/// The pane that leads the workspace, if one is in its state.
pub open spec fn leading_pane(workspace: WorkspaceView, now: u64) -> Option<PaneView> {
    match leading(workspace, now, workspace.panes.len()) {
        Some(i) => Some(workspace.panes[i]),
        None => None,
    }
}

/// How long ago something happened, in whole seconds; not before it did.
pub open spec fn age_secs(at: u64, now: u64) -> u64 {
    if at >= now {
        0
    } else {
        ((now - at) / NANOS_PER_SEC as int) as u64
    }
}

/// The project of the workspace has to be told from its checkout: the periodic
/// refresh has not been there yet, and there is a directory to look at.
pub open spec fn cold(workspace: WorkspaceView) -> bool {
    workspace.git_space is None && workspace.has_identity_cwd
}

/// What a peer is told of a workspace. `found` is what a look at its directory
/// found; it counts only where the workspace is cold.
pub open spec fn summary_of(
    workspace: WorkspaceView,
    found: Option<GitSpaceView>,
    now: u64,
) -> WorkspaceSummaryView {
    let derived = if cold(workspace) {
        found
    } else {
        None
    };
    let lead = leading_pane(workspace, now);
    WorkspaceSummaryView {
        id: workspace.id,
        workspace: workspace.display_name,
        project_key: match (workspace.project_key, derived) {
            (Some(key), _) => Some(key),
            (None, Some(space)) => Some(space.project_key),
            (None, None) => None,
        },
        project_label: match (workspace.git_space, derived, workspace.worktree_space) {
            (Some(space), _, _) => Some(space.label),
            (None, Some(space), _) => Some(space.label),
            (None, None, Some(space)) => Some(space.label),
            (None, None, None) => None,
        },
        branch: workspace.branch,
        is_linked_worktree: match (workspace.git_space, workspace.worktree_space) {
            (Some(space), _) => space.is_linked_worktree,
            (None, Some(space)) => space.is_linked_worktree,
            (None, None) => false,
        },
        agent: match lead {
            Some(pane) => Some(pane.agent),
            None => None,
        },
        status: workspace.status,
        status_age_secs: match lead {
            Some(pane) => match pane.state_changed_at {
                Some(at) => Some(age_secs(at, now)),
                None => None,
            },
            None => None,
        },
        activity: match lead {
            Some(pane) => pane.live_activity,
            None => None,
        },
    }
}

/// What was found for the workspace at an index, if anything was.
pub open spec fn found_at(found: Seq<Option<GitSpaceView>>, i: int) -> Option<GitSpaceView> {
    if 0 <= i < found.len() {
        found[i]
    } else {
        None
    }
}

/// What a peer is told of the workspaces, in their order.
pub open spec fn summaries(
    workspaces: Seq<WorkspaceView>,
    found: Seq<Option<GitSpaceView>>,
    now: u64,
) -> Seq<WorkspaceSummaryView> {
    Seq::new(workspaces.len(), |i: int| summary_of(workspaces[i], found_at(found, i), now))
}

/// Maps the status line's samples onto what a peer is told of them.
pub fn system_summary(stats: &SystemStats) -> (summary: PeerSystemSummary)
    ensures
        summary == load_of(*stats),
{
    PeerSystemSummary {
        cpu_percent: match stats.cpu_percent {
            Some(percent) => Some(
                if percent < 0 {
                    0
                } else if percent > 100 {
                    100
                } else {
                    percent as u8
                },
            ),
            None => None,
        },
        mem_used: stats.mem_used,
        mem_total: stats.mem_total,
        disk_free: stats.disk_free,
    }
}

/// Whether the directory of the workspace has to be looked at for its project.
pub fn needs_look(workspace: &Workspace) -> (yes: bool)
    ensures
        yes == cold(workspace.deep_view()),
{
    workspace.git_space.is_none() && workspace.has_identity_cwd
}

/// When the pane came to its state.
fn pane_since(pane: &PaneDetail, now: u64) -> (at: u64)
    ensures
        at == since(pane.deep_view(), now),
{
    match pane.state_changed_at {
        Some(at) => at,
        None => now,
    }
}

/// The pane that leads the workspace.
fn find_leading(workspace: &Workspace, now: u64) -> (lead: Option<usize>)
    ensures
        match lead {
            Some(i) => i < workspace.panes@.len() && leading(
                workspace.deep_view(),
                now,
                workspace.panes@.len(),
            ) == Some(i as int),
            None => leading(workspace.deep_view(), now, workspace.panes@.len()) is None,
        },
{
    let ghost whole = workspace.deep_view();
    let mut lead: Option<usize> = None;
    for i in 0..workspace.panes.len()
        invariant
            whole == workspace.deep_view(),
            match lead {
                Some(best) => best < i && leading(whole, now, i as nat) == Some(best as int),
                None => leading(whole, now, i as nat) is None,
            },
    {
        let pane = &workspace.panes[i];
        assert(whole.panes[i as int] == pane.deep_view());
        if pane.state == workspace.state && pane.seen == workspace.seen {
            let older = match lead {
                Some(best) => {
                    assert(whole.panes[best as int] == workspace.panes@[best as int].deep_view());
                    pane_since(&workspace.panes[best], now) <= pane_since(pane, now)
                },
                None => false,
            };
            if !older {
                lead = Some(i);
            }
        }
    }
    lead
}

/// How long ago something happened, in whole seconds.
fn seconds_since(at: u64, now: u64) -> (age: u64)
    ensures
        age == age_secs(at, now),
{
    if at >= now {
        0
    } else {
        (now - at) / NANOS_PER_SEC
    }
}

/// What a peer is told of a workspace. `found` is what a look at its directory
/// found, `now` is the time on the monotonic clock, in nanoseconds.
pub fn workspace_peer_summary(
    workspace: &Workspace,
    found: &Option<GitSpace>,
    now: u64,
) -> (summary: PeerWorkspaceSummary)
    ensures
        summary.deep_view() == summary_of(workspace.deep_view(), found.deep_view(), now),
        summary.id@ == workspace.id@,
        summary.workspace@ == workspace.display_name@,
        summary.branch.deep_view() == workspace.branch.deep_view(),
        summary.status@ == workspace.status@,
{
    let mut agent: Option<String> = None;
    let mut status_age_secs: Option<u64> = None;
    let mut activity: Option<String> = None;
    if let Some(i) = find_leading(workspace, now) {
        let pane = &workspace.panes[i];
        assert(workspace.deep_view().panes[i as int] == pane.deep_view());
        agent = Some(pane.agent.clone());
        status_age_secs =
        match pane.state_changed_at {
            Some(at) => Some(seconds_since(at, now)),
            None => None,
        };
        activity = copy_text(&pane.live_activity);
    }
    let derived: Option<&GitSpace> = match found {
        Some(space) if needs_look(workspace) => Some(space),
        _ => None,
    };
    let project_key = match &workspace.project_key {
        Some(key) => Some(key.clone()),
        None => match derived {
            Some(space) => Some(space.project_key.clone()),
            None => None,
        },
    };
    let project_label = match &workspace.git_space {
        Some(space) => Some(space.label.clone()),
        None => match derived {
            Some(space) => Some(space.label.clone()),
            None => match &workspace.worktree_space {
                Some(space) => Some(space.label.clone()),
                None => None,
            },
        },
    };
    let is_linked_worktree = match &workspace.git_space {
        Some(space) => space.is_linked_worktree,
        None => match &workspace.worktree_space {
            Some(space) => space.is_linked_worktree,
            None => false,
        },
    };
    PeerWorkspaceSummary {
        id: workspace.id.clone(),
        workspace: workspace.display_name.clone(),
        project_key,
        project_label,
        branch: copy_text(&workspace.branch),
        is_linked_worktree,
        agent,
        status: workspace.status.clone(),
        status_age_secs,
        activity,
    }
}

impl App {
    /// Serves this server's federated summary. `found` holds, by index, what looks
    /// at the directories of the workspaces found; `now` is the time on the
    /// monotonic clock, in nanoseconds.
    pub fn handle_peers_summary(
        &mut self,
        id: String,
        found: &[Option<GitSpace>],
        now: u64,
    ) -> (response: SuccessResponse)
        ensures
            response.id == id,
            response.result@ == (ResultView::PeersSummary {
                host: final(self).host@.cached->0,
                version: Some(old(self).version@),
                system: match old(self).state.system_stats {
                    Some(stats) => Some(load_of(stats)),
                    None => None,
                },
                workspaces: summaries(
                    old(self).state.workspaces.deep_view(),
                    found.deep_view(),
                    now,
                ),
            }),
            host::named(old(self).host@, final(self).host@),
            final(self).state == old(self).state,
            final(self).version == old(self).version,
            final(self).background == old(self).background,
    {
        let ghost all = self.state.workspaces.deep_view();
        let ghost seen = found.deep_view();
        let mut workspaces: Vec<PeerWorkspaceSummary> = Vec::new();
        for i in 0..self.state.workspaces.len()
            invariant
                *self == *old(self),
                all == self.state.workspaces.deep_view(),
                seen == found.deep_view(),
                workspaces.deep_view() == summaries(all, seen, now).take(i as int),
        {
            let ghost before = workspaces.deep_view();
            assert(all[i as int] == self.state.workspaces@[i as int].deep_view());
            let summary = if i < found.len() {
                assert(seen[i as int] == found@[i as int].deep_view());
                workspace_peer_summary(&self.state.workspaces[i], &found[i], now)
            } else {
                workspace_peer_summary(&self.state.workspaces[i], &None, now)
            };
            workspaces.push(summary);
            assert(workspaces.deep_view() == before.push(summaries(all, seen, now)[i as int]));
        }
        assert(summaries(all, seen, now).take(all.len() as int) == summaries(all, seen, now));
        let system = match &self.state.system_stats {
            Some(stats) => Some(system_summary(stats)),
            None => None,
        };
        let host = short_host_name(&mut self.host);
        SuccessResponse {
            id,
            result: ResponseResult::PeersSummary {
                host,
                version: Some(self.version.clone()),
                system,
                workspaces,
            },
        }
    }
}

/// The leading pane is in the state of its workspace. None in that state has been
/// in it longer, and none of those that have been in it as long comes before it.
/// Where none leads, none is in that state.
pub proof fn lemma_leading(workspace: WorkspaceView, now: u64, count: nat)
    requires
        count <= workspace.panes.len(),
    ensures
        match leading(workspace, now, count) {
            Some(best) => {
                &&& 0 <= best < count
                &&& leads_in(workspace, workspace.panes[best])
                &&& forall|i: int|
                    0 <= i < count && leads_in(workspace, #[trigger] workspace.panes[i]) ==> {
                        let (lead, other) = (workspace.panes[best], workspace.panes[i]);
                        &&& since(lead, now) <= since(other, now)
                        &&& i < best ==> since(lead, now) < since(other, now)
                    }
            },
            None => forall|i: int|
                0 <= i < count ==> !leads_in(workspace, #[trigger] workspace.panes[i]),
        },
    decreases count,
{
    if count > 0 {
        lemma_leading(workspace, now, (count - 1) as nat);
    }
}

/// A pane that does not say since when it is in its state leads only where no pane
/// in that state has been in it since before now.
pub proof fn lemma_undated_pane_is_newest(workspace: WorkspaceView, now: u64)
    ensures
        leading_pane(workspace, now) matches Some(lead) && lead.state_changed_at is None
            ==> forall|i: int|
            0 <= i < workspace.panes.len() && leads_in(workspace, #[trigger] workspace.panes[i])
                ==> since(workspace.panes[i], now) >= now,
{
    lemma_leading(workspace, now, workspace.panes.len());
}

/// A peer is told a load from 0 to 100 percent, and the sampled one where that is
/// on the scale. More load is never told as less.
pub proof fn lemma_load_is_on_scale(percent: i64, more: i64)
    ensures
        0 <= on_scale(percent) <= 100,
        0 <= percent <= 100 ==> on_scale(percent) == percent,
        percent <= more ==> on_scale(percent) <= on_scale(more),
{
}

/// There is one entry per workspace, in order and under its id; each depends on its
/// own workspace alone.
pub proof fn lemma_one_entry_per_workspace(
    workspaces: Seq<WorkspaceView>,
    found: Seq<Option<GitSpaceView>>,
    now: u64,
)
    ensures
        summaries(workspaces, found, now).len() == workspaces.len(),
        forall|i: int|
            0 <= i < workspaces.len() ==> (#[trigger] summaries(workspaces, found, now)[i]).id
                == workspaces[i].id,
        forall|i: int|
            0 <= i < workspaces.len() ==> #[trigger] summaries(workspaces, found, now)[i]
                == summary_of(workspaces[i], found_at(found, i), now),
{
}

/// What a look at the directory found counts only for a workspace that the periodic
/// refresh has not been to.
pub proof fn lemma_known_checkout_stands(
    workspace: WorkspaceView,
    found: Option<GitSpaceView>,
    now: u64,
)
    requires
        workspace.git_space is Some,
    ensures
        summary_of(workspace, found, now) == summary_of(workspace, None, now),
{
}

/// A told age is the whole seconds between two times on the clock: no more than have
/// passed, and less than one short of it. It is zero for what has not happened yet, and
/// what happened earlier is never told as younger.
pub proof fn lemma_age(at: u64, now: u64, earlier: u64, later: u64)
    ensures
        at <= now ==> age_secs(at, now) * 1_000_000_000 <= now - at < (age_secs(at, now) + 1)
            * 1_000_000_000,
        at >= now ==> age_secs(at, now) == 0,
        earlier <= at ==> age_secs(at, now) <= age_secs(earlier, now),
        now <= later ==> age_secs(at, now) <= age_secs(at, later),
{
    lemma_whole_seconds(at, now);
    lemma_whole_seconds(earlier, now);
    lemma_whole_seconds(at, later);
}

proof fn lemma_whole_seconds(at: u64, now: u64)
    ensures
        at <= now ==> age_secs(at, now) * 1_000_000_000 <= now - at < (age_secs(at, now) + 1)
            * 1_000_000_000,
        at >= now ==> age_secs(at, now) == 0,
{
}

/// The pane that leads, by what the panes themselves say: it is one of the workspace's
/// panes, in the state that the workspace is in, seen or not as the workspace is. No other
/// such pane came to its state before it, nor at the same time and stands before it; one
/// that does not say when it did counts as having done so now. Where none leads there is
/// no such pane.
pub proof fn lemma_leading_pane(workspace: WorkspaceView, now: u64)
    ensures
        match leading_pane(workspace, now) {
            Some(lead) => exists|best: int|
                {
                    &&& 0 <= best < workspace.panes.len()
                    &&& #[trigger] workspace.panes[best] == lead
                    &&& lead.state == workspace.state
                    &&& lead.seen == workspace.seen
                    &&& forall|i: int|
                        0 <= i < workspace.panes.len() && (#[trigger] workspace.panes[i]).state
                            == workspace.state && workspace.panes[i].seen == workspace.seen ==> {
                            let other = workspace.panes[i].state_changed_at;
                            let own = lead.state_changed_at;
                            let came = if own is Some {
                                own->0
                            } else {
                                now
                            };
                            &&& other is Some ==> came <= other->0
                            &&& other is None ==> came <= now
                            &&& i < best && other is Some ==> came < other->0
                            &&& i < best && other is None ==> came < now
                        }
                },
            None => forall|i: int|
                0 <= i < workspace.panes.len() ==> (#[trigger] workspace.panes[i]).state
                    != workspace.state || workspace.panes[i].seen != workspace.seen,
        },
{
    lemma_leading(workspace, now, workspace.panes.len());
    match leading(workspace, now, workspace.panes.len()) {
        Some(best) => {
            let lead = workspace.panes[best];
            assert forall|i: int|
                0 <= i < workspace.panes.len() && (#[trigger] workspace.panes[i]).state
                    == workspace.state && workspace.panes[i].seen == workspace.seen implies {
                let other = workspace.panes[i].state_changed_at;
                let own = lead.state_changed_at;
                let came = if own is Some {
                    own->0
                } else {
                    now
                };
                &&& other is Some ==> came <= other->0
                &&& other is None ==> came <= now
                &&& i < best && other is Some ==> came < other->0
                &&& i < best && other is None ==> came < now
            } by {
                assert(leads_in(workspace, workspace.panes[i]));
            }
        },
        None => {
            assert forall|i: int| 0 <= i < workspace.panes.len() implies (
            #[trigger] workspace.panes[i]).state != workspace.state || workspace.panes[i].seen
                != workspace.seen by {
                assert(!leads_in(workspace, workspace.panes[i]));
            }
        },
    }
}

/// A peer is told of the agent in the leading pane: its name, what it is at, and for how
/// many whole seconds it has been in its state, where that is known. Where no pane leads
/// it is told of none.
pub proof fn lemma_told_of_the_leading_agent(
    workspace: WorkspaceView,
    found: Option<GitSpaceView>,
    now: u64,
)
    ensures
        ({
            let told = summary_of(workspace, found, now);
            match leading_pane(workspace, now) {
                Some(lead) => {
                    &&& told.agent == Some(lead.agent)
                    &&& told.activity == lead.live_activity
                    &&& told.status_age_secs is Some <==> lead.state_changed_at is Some
                    &&& lead.state_changed_at is Some && lead.state_changed_at->0 <= now ==> {
                        let passed = now - lead.state_changed_at->0;
                        let age = told.status_age_secs->0;
                        age * 1_000_000_000 <= passed < (age + 1) * 1_000_000_000
                    }
                    &&& lead.state_changed_at is Some && lead.state_changed_at->0 > now
                        ==> told.status_age_secs == Some(0u64)
                },
                None => told.agent is None && told.status_age_secs is None && told.activity is None,
            }
        }),
{
    if let Some(lead) = leading_pane(workspace, now) {
        if lead.state_changed_at is Some {
            lemma_whole_seconds(lead.state_changed_at->0, now);
        }
    }
}

/// A peer is told what the workspace says of itself: its id, its name, its branch and its
/// status, as they are. Its project is told by its own key, or else by the checkout; that
/// is the one the periodic refresh saw, or else the one a look at its directory found, or
/// else, for the label and the kind of worktree, the one that herdr made for it.
pub proof fn lemma_told_of_the_workspace(
    workspace: WorkspaceView,
    found: Option<GitSpaceView>,
    now: u64,
)
    ensures
        ({
            let told = summary_of(workspace, found, now);
            let looked = workspace.git_space is None && workspace.has_identity_cwd && found is Some;
            &&& told.id == workspace.id
            &&& told.workspace == workspace.display_name
            &&& told.branch == workspace.branch
            &&& told.status == workspace.status
            &&& workspace.project_key is Some ==> told.project_key == workspace.project_key
            &&& workspace.project_key is None && looked ==> told.project_key == Some(
                found->0.project_key,
            )
            &&& workspace.project_key is None && !looked ==> told.project_key is None
            &&& workspace.git_space is Some ==> told.project_label == Some(
                workspace.git_space->0.label,
            )
            &&& looked ==> told.project_label == Some(found->0.label)
            &&& workspace.git_space is None && !looked && workspace.worktree_space is Some
                ==> told.project_label == Some(workspace.worktree_space->0.label)
            &&& workspace.git_space is None && !looked && workspace.worktree_space is None
                ==> told.project_label is None
            &&& workspace.git_space is Some ==> told.is_linked_worktree
                == workspace.git_space->0.is_linked_worktree
            &&& workspace.git_space is None && workspace.worktree_space is Some
                ==> told.is_linked_worktree == workspace.worktree_space->0.is_linked_worktree
            &&& workspace.git_space is None && workspace.worktree_space is None
                ==> !told.is_linked_worktree
        }),
{
}

/// The directory of a workspace is looked at exactly where the periodic refresh has not
/// seen its checkout and there is a directory.
pub proof fn lemma_looked_at_while_cold(workspace: WorkspaceView)
    ensures
        workspace.git_space is Some ==> !cold(workspace),
        !workspace.has_identity_cwd ==> !cold(workspace),
        workspace.git_space is None && workspace.has_identity_cwd ==> cold(workspace),
{
}

/// What a look found is told of the workspace that was looked at, by its index; of a
/// workspace that was not looked at, nothing is.
pub proof fn lemma_found_by_index(
    workspaces: Seq<WorkspaceView>,
    found: Seq<Option<GitSpaceView>>,
    now: u64,
    i: int,
)
    requires
        0 <= i < workspaces.len(),
    ensures
        i < found.len() ==> summaries(workspaces, found, now)[i] == summary_of(
            workspaces[i],
            found[i],
            now,
        ),
        i >= found.len() ==> summaries(workspaces, found, now)[i] == summary_of(
            workspaces[i],
            None,
            now,
        ),
{
}

/// A peer is told the memory and the disk as they were sampled, and a load exactly where
/// one was.
pub proof fn lemma_load(stats: SystemStats)
    ensures
        load_of(stats).mem_used == stats.mem_used,
        load_of(stats).mem_total == stats.mem_total,
        load_of(stats).disk_free == stats.disk_free,
        load_of(stats).cpu_percent is Some <==> stats.cpu_percent is Some,
        stats.cpu_percent is Some && 0 <= stats.cpu_percent->0 <= 100
            ==> load_of(stats).cpu_percent->0 == stats.cpu_percent->0,
        stats.cpu_percent is Some && stats.cpu_percent->0 < 0 ==> load_of(stats).cpu_percent
            == Some(0u8),
        stats.cpu_percent is Some && stats.cpu_percent->0 > 100 ==> load_of(stats).cpu_percent
            == Some(100u8),
{
}

} // verus!
