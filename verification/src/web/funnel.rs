//! Whether `tailscale funnel` publishes this node to the internet.

use vstd::prelude::*;
use crate::command::CommandOutput;
use crate::text;

verus! {

/// What is known of the funnel.
#[derive(Clone, Copy, Debug, PartialEq, Eq, Structural)]
pub enum FunnelCheck {
    Active,
    Inactive,
    Unknown,
}

/// A member of the status object.
#[derive(Debug, PartialEq, Eq)]
pub struct StatusMember {
    pub name: String,
    /// The values of the member's own members, each by its truth value if it is
    /// one. `None` where the member is not an object.
    pub flags: Option<Vec<Option<bool>>>,
}

/// What `tailscale serve status --json` reports, as far as it can be about the
/// funnel: the members of the top-level object, `None` where that is no object.
#[derive(Debug, PartialEq, Eq)]
pub struct ServeStatus {
    pub members: Option<Vec<StatusMember>>,
}

impl DeepView for StatusMember {
    type V = (Seq<char>, Option<Seq<Option<bool>>>);

    open spec fn deep_view(&self) -> Self::V {
        (self.name@, self.flags.deep_view())
    }
}

/// The members of a status object by name, with their truth values.
pub type StatusView = Option<Seq<(Seq<char>, Option<Seq<Option<bool>>>)>>;

impl View for ServeStatus {
    type V = StatusView;

    open spec fn view(&self) -> StatusView {
        self.members.deep_view()
    }
}

/// The member that reports the funnel, a map of `host:port` to `bool`, holds
/// `true` for some port.
pub open spec fn publishes(member: (Seq<char>, Option<Seq<Option<bool>>>)) -> bool {
    &&& member.0 == "AllowFunnel"@
    &&& member.1 matches Some(flags)
    &&& flags.contains(Some(true))
}

/// The funnel is live on this node.
pub open spec fn live(status: StatusView) -> bool {
    match status {
        Some(members) => exists|i: int| 0 <= i < members.len() && publishes(#[trigger] members[i]),
        None => false,
    }
}

/// What a status, if it could be read, says of the funnel.
pub open spec fn check_of(status: Option<StatusView>) -> FunnelCheck {
    match status {
        Some(status) => if live(status) {
            FunnelCheck::Active
        } else {
            FunnelCheck::Inactive
        },
        None => FunnelCheck::Unknown,
    }
}

/// What `serde_json::from_slice` makes of these bytes: `None` where they are no
/// JSON document; else the members of the top-level object, in the order of the
/// parsed map, each with the truth values of its own members.
pub uninterp spec fn json_members(bytes: Seq<u8>) -> Option<
    Option<Seq<(Seq<char>, Option<Seq<Option<bool>>>)>>,
>;

/// `serde_json::Error`, opaque.
#[verifier::external_type_specification]
#[verifier::external_body]
pub struct ExJsonError(serde_json::Error);

/// `serde_json::from_slice` into a `serde_json::Value`, whose two upper levels
/// are then read with `as_object`, `values` and `as_bool`. Whether the bytes
/// parse, and what they parse to, depends on the bytes alone.
#[verifier::external_body]
fn read_status(bytes: &[u8]) -> (status: Result<ServeStatus, serde_json::Error>)
    ensures
        match status {
            Ok(status) => json_members(bytes@) == Some(status@),
            Err(_) => json_members(bytes@) is None,
        },
{
    let document: serde_json::Value = serde_json::from_slice(bytes)?;
    let flags = |value: &serde_json::Value| {
        value.as_object().map(|map| map.values().map(|flag| flag.as_bool()).collect())
    };
    let members = document.as_object().map(
        |map| map.iter().map(|(k, v)| StatusMember { name: k.clone(), flags: flags(v) }).collect(),
    );
    Ok(ServeStatus { members })
}

/// Whether the funnel is live on this node.
pub fn funnel_active(status: &ServeStatus) -> (active: bool)
    ensures
        active == live(status@),
{
    let members = match &status.members {
        Some(members) => members,
        None => {
            return false;
        },
    };
    let ghost all = members.deep_view();
    for i in 0..members.len()
        invariant
            all == members.deep_view(),
            status@ is Some,
            status@->0 == all,
            forall|k: int| 0 <= k < i ==> !publishes(#[trigger] all[k]),
    {
        let member = &members[i];
        assert(all[i as int] == member.deep_view());
        if text::same_text(member.name.as_str(), "AllowFunnel") {
            if let Some(flags) = &member.flags {
                let ghost values = flags.deep_view();
                for j in 0..flags.len()
                    invariant
                        values == flags.deep_view(),
                        0 <= i < all.len(),
                        status@ is Some,
                        status@->0 == all,
                        all[i as int] == ("AllowFunnel"@, Some(values)),
                        forall|k: int| 0 <= k < j ==> #[trigger] values[k] != Some(true),
                {
                    assert(values[j as int] == flags@[j as int].deep_view());
                    if let Some(true) = flags[j] {
                        assert(values[j as int] == Some(true));
                        assert(publishes(all[i as int]));
                        return true;
                    }
                }
            }
        }
    }
    false
}

/// What a status, if it could be read, says of the funnel.
pub fn funnel_check(status: &Option<ServeStatus>) -> (check: FunnelCheck)
    ensures
        check == check_of(
            match *status {
                Some(status) => Some(status@),
                None => None,
            },
        ),
{
    match status {
        Some(status) => if funnel_active(status) {
            FunnelCheck::Active
        } else {
            FunnelCheck::Inactive
        },
        None => FunnelCheck::Unknown,
    }
}

/// What `tailscale serve status --json` says of the funnel. `output` is what the
/// command left behind, `None` where it could not be run.
pub fn tailscale_funnel_status(output: &Option<CommandOutput>) -> (check: FunnelCheck)
    ensures
        check == check_of(
            match *output {
                Some(output) if output.success => json_members(output.stdout@),
                _ => None,
            },
        ),
        *output is None ==> check == FunnelCheck::Unknown,
        *output is Some && !output->0.success ==> check == FunnelCheck::Unknown,
{
    let status = match output {
        Some(output) if output.success => match read_status(output.stdout.as_slice()) {
            Ok(status) => Some(status),
            Err(_) => None,
        },
        _ => None,
    };
    funnel_check(&status)
}

/// The funnel is active where the member that reports it says `true` of some port,
/// whatever else stands in the status, and inactive where a status that could be read
/// says that of no port. Nothing is known where there is no status.
pub proof fn lemma_check(members: Seq<(Seq<char>, Option<Seq<Option<bool>>>)>)
    ensures
        check_of(Some(Some(members))) == FunnelCheck::Active <==> exists|i: int, port: int|
            {
                &&& 0 <= i < members.len()
                &&& members[i].0 == "AllowFunnel"@
                &&& members[i].1 is Some
                &&& 0 <= port < members[i].1->0.len()
                &&& #[trigger] members[i].1->0[port] == Some(true)
            },
        check_of(Some(Some(members))) != FunnelCheck::Unknown,
        check_of(Some(None)) == FunnelCheck::Inactive,
        check_of(None) == FunnelCheck::Unknown,
{
    if live(Some(members)) {
        let i = choose|i: int| 0 <= i < members.len() && publishes(#[trigger] members[i]);
        let flags = members[i].1->0;
        let port = choose|port: int| 0 <= port < flags.len() && flags[port] == Some(true);
        assert(members[i].1->0[port] == Some(true));
    }
    if exists|i: int, port: int|
        {
            &&& 0 <= i < members.len()
            &&& members[i].0 == "AllowFunnel"@
            &&& members[i].1 is Some
            &&& 0 <= port < members[i].1->0.len()
            &&& #[trigger] members[i].1->0[port] == Some(true)
        } {
        let (i, port) = choose|i: int, port: int|
            {
                &&& 0 <= i < members.len()
                &&& members[i].0 == "AllowFunnel"@
                &&& members[i].1 is Some
                &&& 0 <= port < members[i].1->0.len()
                &&& #[trigger] members[i].1->0[port] == Some(true)
            };
        assert(members[i].1->0.contains(Some(true)));
        assert(publishes(members[i]));
    }
}

} // verus!
