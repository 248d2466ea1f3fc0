//! The name that this host goes by in the fleet.

use vstd::prelude::*;
use crate::command::CommandOutput;
use crate::text;

verus! {

/// What is known of this host's name.
#[derive(Debug, PartialEq, Eq)]
pub struct HostName {
    /// The name that the user gave the machine, where the system keeps one apart
    /// from the network's name for it.
    pub local_name: Option<String>,
    /// The short name, once it has been asked for.
    pub cached: Option<String>,
}

/// `HostName` by its characters.
pub ghost struct HostView {
    pub local_name: Option<Seq<char>>,
    pub cached: Option<Seq<char>>,
}

impl View for HostName {
    type V = HostView;

    open spec fn view(&self) -> HostView {
        HostView { local_name: self.local_name.deep_view(), cached: self.cached.deep_view() }
    }
}

/// The short name of a host: the one that the user gave it, or else the network's
/// name up to its first dot.
pub open spec fn short_name(local: Option<Seq<char>>, network: Option<Seq<char>>) -> Seq<char> {
    match (local, network) {
        (Some(name), _) => name,
        (None, Some(name)) => text::before_first(name, '.'),
        (None, None) => "unknown"@,
    }
}

/// The system, asked for the machine's name on the network, may answer this.
pub closed spec fn system_says(network: Option<Seq<char>>) -> bool {
    exists|answer: Option<String>|
        #[trigger] call_ensures(network_name, (), answer) && network == answer.deep_view()
}

/// The host was asked for its short name: the answer of the first time stands.
/// The first time it is the short name for what the system answered.
pub open spec fn named(before: HostView, after: HostView) -> bool {
    &&& after.local_name == before.local_name
    &&& after.cached is Some
    &&& match before.cached {
        Some(name) => after.cached == Some(name),
        None => exists|network: Option<Seq<char>>|
            after.cached == Some(#[trigger] short_name(before.local_name, network)) && (
            before.local_name is Some || system_says(network)),
    }
}

/// The user-set name in what `scutil --get LocalHostName` printed.
pub open spec fn local_name_in(printed: Seq<char>) -> Option<Seq<char>> {
    let name = text::trimmed(printed);
    if name.len() > 0 {
        Some(name)
    } else {
        None
    }
}

/// What `String::from_utf8_lossy` makes of bytes that need not be UTF-8.
pub uninterp spec fn utf8_lossy(bytes: Seq<u8>) -> Seq<char>;

/// `String::from_utf8_lossy`: the text that the bytes encode. Where they are not
/// UTF-8, the replacement character stands in place of what is invalid; which
/// bytes each one replaces is left to the name.
#[verifier::external_body]
fn text_from_utf8_lossy(bytes: &[u8]) -> (decoded: String)
    ensures
        decoded@ == utf8_lossy(bytes@),
        vstd::utf8::valid_utf8(bytes@) ==> decoded@ == vstd::utf8::decode_utf8(bytes@),
{
    String::from_utf8_lossy(bytes).into_owned()
}

/// `sysinfo::System::host_name`: the machine's host name, if it can be had.
/// Nothing is claimed of it: it is the machine's to say.
#[verifier::external_body]
fn network_name() -> (name: Option<String>) {
    sysinfo::System::host_name()
}

/// The user-set name in what `scutil --get LocalHostName` printed.
pub fn local_name_of(printed: &str) -> (name: Option<String>)
    ensures
        name.deep_view() == local_name_in(printed@),
{
    let name = text::trim(printed);
    if name.as_str().is_empty() {
        None
    } else {
        Some(name)
    }
}

/// The user-set name of a machine, by what `scutil --get LocalHostName` left
/// behind, `None` where it could not be run.
pub fn macos_local_host_name(output: &Option<CommandOutput>) -> (name: Option<String>)
    ensures
        name.deep_view() == match *output {
            Some(output) if output.success => local_name_in(utf8_lossy(output.stdout@)),
            _ => None,
        },
{
    match output {
        Some(output) if output.success => local_name_of(
            text_from_utf8_lossy(output.stdout.as_slice()).as_str(),
        ),
        _ => None,
    }
}

/// The short name of a host, by the name that the user gave it and the network's.
pub fn short_name_of(local: &Option<String>, network: &Option<String>) -> (name: String)
    ensures
        name@ == short_name(local.deep_view(), network.deep_view()),
{
    match local {
        Some(name) => name.clone(),
        None => match network {
            Some(name) => text::head_before(name.as_str(), '.'),
            None => "unknown".to_string(),
        },
    }
}

/// The short name of this host, asked for anew.
pub fn compute_short_host_name(local: &Option<String>) -> (name: String)
    ensures
        exists|network: Option<Seq<char>>|
            name@ == #[trigger] short_name(local.deep_view(), network) && system_says(network),
{
    let ask = network_name;
    let network = ask();
    assert(system_says(network.deep_view()));
    short_name_of(local, &network)
}

/// Short, stable name of this host, for the status line and its identity among
/// the peers. It is asked for once and remembered.
pub fn short_host_name(host: &mut HostName) -> (name: String)
    ensures
        named(old(host)@, final(host)@),
        final(host)@.cached == Some(name@),
{
    match &host.cached {
        Some(name) => name.clone(),
        None => {
            let name = compute_short_host_name(&host.local_name);
            host.cached = Some(name.clone());
            name
        },
    }
}

/// The name stays what it was: asked again, the host gives the same answer.
pub proof fn lemma_name_is_stable(first: HostView, second: HostView, third: HostView)
    requires
        named(first, second),
        named(second, third),
    ensures
        third == second,
{
}

/// A network name is cut to its first label; a name that the user gave is kept
/// whole, whatever the network says.
pub proof fn lemma_short_name(local: Option<Seq<char>>, network: Option<Seq<char>>)
    ensures
        local matches Some(name) ==> short_name(local, network) == name,
        local is None ==> !short_name(local, network).contains('.'),
        local is None && network is Some ==> short_name(local, network).is_prefix_of(network->0),
{
    reveal_strlit("unknown");
    if let Some(name) = network {
        lemma_before_first(name, '.');
    }
}

proof fn lemma_before_first(name: Seq<char>, stop: char)
    ensures
        !text::before_first(name, stop).contains(stop),
        text::before_first(name, stop).is_prefix_of(name),
    decreases name.len(),
{
    if name.len() > 0 && name[0] != stop {
        let rest = name.skip(1);
        lemma_before_first(rest, stop);
        let head = text::before_first(rest, stop);
        let all = text::before_first(name, stop);
        assert(all == seq![name[0]] + head);
        assert forall|i: int| 0 <= i < all.len() implies all[i] != stop by {
            if i > 0 {
                assert(all[i] == head[i - 1]);
                assert(head.contains(head[i - 1]));
            }
        }
        assert(all == name.take(all.len() as int)) by {
            assert(head == rest.take(head.len() as int));
        }
    }
}

/// A network name is cut at its first dot and nowhere else: the first label is kept
/// whole. A machine without any name is called `unknown`.
pub proof fn lemma_first_label_is_the_name(label: Seq<char>, domain: Seq<char>)
    requires
        !label.contains('.'),
    ensures
        short_name(None, Some(label)) == label,
        short_name(None, Some(label + seq!['.'] + domain)) == label,
        short_name(None, None) == "unknown"@,
{
    text::lemma_before_first(label, Seq::empty(), '.');
    assert(label + Seq::<char>::empty() == label);
    text::lemma_before_first(label, seq!['.'] + domain, '.');
    assert(label + (seq!['.'] + domain) == label + seq!['.'] + domain);
}

/// A host that has been asked for its name keeps it. One that is asked for the first time
/// takes the name that the user gave it, if there is one, and a name without a dot
/// otherwise. Asking changes nothing else.
pub proof fn lemma_asked_for_its_name(before: HostView, after: HostView)
    requires
        named(before, after),
    ensures
        before.cached is Some ==> after == before,
        before.cached is None && before.local_name is Some ==> after.cached == before.local_name,
        before.cached is None && before.local_name is None ==> after.cached is Some
            && !after.cached->0.contains('.'),
        after.local_name == before.local_name,
{
    if before.cached is None {
        let network = choose|network: Option<Seq<char>>|
            after.cached == Some(#[trigger] short_name(before.local_name, network)) && (
            before.local_name is Some || system_says(network));
        lemma_short_name(before.local_name, network);
    }
}

/// The user-set name is what the command prints, without the white space around it; white
/// space alone is no name.
pub proof fn lemma_printed_name(left: Seq<char>, name: Seq<char>, right: Seq<char>)
    requires
        forall|i: int| 0 <= i < left.len() ==> text::white_space(#[trigger] left[i]),
        forall|i: int| 0 <= i < right.len() ==> text::white_space(#[trigger] right[i]),
        name.len() > 0 ==> !text::white_space(name[0]) && !text::white_space(name.last()),
    ensures
        name.len() > 0 ==> local_name_in(left + name + right) == Some(name),
        name.len() == 0 ==> local_name_in(left + name + right) is None,
{
    text::lemma_trim(left, name, right);
}

} // verus!
