//! One WebSocket session: what the bridge does with each message from the
//! browser, and how the herdr client behind it is spawned.
//!
//! Nothing is spawned until the browser has said how large its terminal is.
//! From then on keystrokes go to the terminal verbatim, what it prints goes to the
//! browser verbatim, and size changes resize it, until either side hangs up.

use vstd::prelude::*;
use crate::text;
use crate::web::args::HerdrBin;

verus! {

/// A control message from the browser.
#[derive(Clone, Copy, Debug, PartialEq, Eq, Structural)]
pub enum ClientMsg {
    /// First message: the terminal's size. Spawning waits for it, so that the
    /// terminal has the right size from the start.
    Init { cols: u16, rows: u16 },
    /// The browser's terminal was resized.
    Resize { cols: u16, rows: u16 },
}

/// The size of a terminal, in character cells.
#[derive(Clone, Copy, Debug, PartialEq, Eq, Structural)]
pub struct TermSize {
    pub cols: u16,
    pub rows: u16,
}

/// What happened on the WebSocket, or to the terminal.
pub enum Event {
    /// A text frame, and the control message that it parses as, if it does.
    Text { raw: String, control: Option<ClientMsg> },
    /// A binary frame.
    Binary(Vec<u8>),
    /// A ping or a pong.
    KeepAlive,
    /// A close frame.
    Close,
    /// The stream of messages ended.
    StreamEnd,
    /// The stream of messages failed.
    StreamError,
    /// The terminal printed these bytes.
    Output(Vec<u8>),
    /// The terminal takes no more input.
    InputClosed,
    /// The terminal's output has ended, or the browser takes no more of it.
    OutputClosed,
    /// The herdr client has exited.
    ChildExited,
}

/// What the bridge does next.
#[derive(Debug, PartialEq, Eq)]
pub enum Action {
    /// Nothing.
    Ignore,
    /// Open a terminal of this size and spawn the herdr client in it.
    Spawn(TermSize),
    /// Write these bytes to the terminal.
    Input(Vec<u8>),
    /// Resize the terminal.
    Resize(TermSize),
    /// Send these bytes to the browser, as one binary frame.
    Send(Vec<u8>),
    /// End the session.
    Finish,
    /// End the session and report the failure of the stream.
    Fail,
}

/// Where a session stands.
#[derive(Clone, Copy, Debug, PartialEq, Eq, Structural)]
pub enum Phase {
    /// The terminal's size is not known yet.
    AwaitingSize,
    /// The herdr client runs.
    Running,
    /// The session is over.
    Ended,
}

/// An event by the characters and bytes that it carries.
pub ghost enum EventView {
    Text { raw: Seq<char>, control: Option<ClientMsg> },
    Binary(Seq<u8>),
    KeepAlive,
    Close,
    StreamEnd,
    StreamError,
    Output(Seq<u8>),
    InputClosed,
    OutputClosed,
    ChildExited,
}

/// An action by the bytes that it carries.
pub ghost enum ActionView {
    Ignore,
    Spawn(TermSize),
    Input(Seq<u8>),
    Resize(TermSize),
    Send(Seq<u8>),
    Finish,
    Fail,
}

impl View for Event {
    type V = EventView;

    open spec fn view(&self) -> EventView {
        match *self {
            Event::Text { raw, control } => EventView::Text { raw: raw@, control },
            Event::Binary(bytes) => EventView::Binary(bytes@),
            Event::KeepAlive => EventView::KeepAlive,
            Event::Close => EventView::Close,
            Event::StreamEnd => EventView::StreamEnd,
            Event::StreamError => EventView::StreamError,
            Event::Output(bytes) => EventView::Output(bytes@),
            Event::InputClosed => EventView::InputClosed,
            Event::OutputClosed => EventView::OutputClosed,
            Event::ChildExited => EventView::ChildExited,
        }
    }
}

impl View for Action {
    type V = ActionView;

    open spec fn view(&self) -> ActionView {
        match *self {
            Action::Ignore => ActionView::Ignore,
            Action::Spawn(size) => ActionView::Spawn(size),
            Action::Input(bytes) => ActionView::Input(bytes@),
            Action::Resize(size) => ActionView::Resize(size),
            Action::Send(bytes) => ActionView::Send(bytes@),
            Action::Finish => ActionView::Finish,
            Action::Fail => ActionView::Fail,
        }
    }
}

/// A size that a terminal can have: at least one cell each way.
pub open spec fn usable(cols: u16, rows: u16) -> TermSize {
    TermSize {
        cols: if cols == 0 {
            1
        } else {
            cols
        },
        rows: if rows == 0 {
            1
        } else {
            rows
        },
    }
}

/// What the bridge does on an event.
pub open spec fn action_on(phase: Phase, event: EventView) -> ActionView {
    match phase {
        Phase::AwaitingSize => match event {
            // A resize that overtakes the first message is as good as it.
            EventView::Text { control: Some(ClientMsg::Init { cols, rows }), .. } => {
                ActionView::Spawn(usable(cols, rows))
            },
            EventView::Text { control: Some(ClientMsg::Resize { cols, rows }), .. } => {
                ActionView::Spawn(usable(cols, rows))
            },
            EventView::Close => ActionView::Finish,
            EventView::StreamEnd => ActionView::Finish,
            EventView::StreamError => ActionView::Fail,
            _ => ActionView::Ignore,
        },
        Phase::Running => match event {
            EventView::Text { control: Some(ClientMsg::Resize { cols, rows }), .. } => {
                ActionView::Resize(usable(cols, rows))
            },
            EventView::Text { control: Some(ClientMsg::Init { .. }), .. } => ActionView::Ignore,
            EventView::Text { raw, control: None } => ActionView::Input(
                vstd::utf8::encode_utf8(raw),
            ),
            EventView::Binary(bytes) => ActionView::Input(bytes),
            EventView::KeepAlive => ActionView::Ignore,
            EventView::Output(bytes) => ActionView::Send(bytes),
            _ => ActionView::Finish,
        },
        Phase::Ended => ActionView::Ignore,
    }
}

/// Where the session stands after an action.
pub open spec fn phase_after(phase: Phase, action: ActionView) -> Phase {
    match action {
        ActionView::Spawn(_) => Phase::Running,
        ActionView::Finish => Phase::Ended,
        ActionView::Fail => Phase::Ended,
        _ => phase,
    }
}

/// One WebSocket session.
pub struct Session {
    pub phase: Phase,
}

/// A size that a terminal can have.
fn usable_size(cols: u16, rows: u16) -> (size: TermSize)
    ensures
        size.cols == cols || cols == 0 && size.cols == 1,
        size.rows == rows || rows == 0 && size.rows == 1,
        size == usable(cols, rows),
{
    TermSize {
        cols: if cols == 0 {
            1
        } else {
            cols
        },
        rows: if rows == 0 {
            1
        } else {
            rows
        },
    }
}

impl Session {
    /// A session whose terminal is not open yet.
    pub fn new() -> (session: Session)
        ensures
            session.phase == Phase::AwaitingSize,
    {
        Session { phase: Phase::AwaitingSize }
    }

    /// Takes one event and says what to do about it.
    pub fn step(&mut self, event: Event) -> (action: Action)
        ensures
            action@ == action_on(old(self).phase, event@),
            final(self).phase == phase_after(old(self).phase, action@),
            old(self).phase == Phase::Running ==> match event {
                Event::Binary(bytes) => action == Action::Input(bytes),
                Event::Output(bytes) => action == Action::Send(bytes),
                Event::Text { raw, control: None } => {
                    &&& action matches Action::Input(bytes)
                    &&& bytes@ == vstd::utf8::encode_utf8(raw@)
                },
                _ => !(action is Input) && !(action is Send),
            },
    {
        let action = match self.phase {
            Phase::AwaitingSize => Session::before_spawn(event),
            Phase::Running => Session::after_spawn(event),
            Phase::Ended => Action::Ignore,
        };
        match &action {
            Action::Spawn(_) => {
                self.phase = Phase::Running;
            },
            Action::Finish | Action::Fail => {
                self.phase = Phase::Ended;
            },
            _ => {},
        }
        action
    }

    fn before_spawn(event: Event) -> (action: Action)
        ensures
            action@ == action_on(Phase::AwaitingSize, event@),
    {
        match event {
            Event::Text { control, .. } => match control {
                Some(ClientMsg::Init { cols, rows }) => Action::Spawn(usable_size(cols, rows)),
                Some(ClientMsg::Resize { cols, rows }) => Action::Spawn(usable_size(cols, rows)),
                None => Action::Ignore,
            },
            Event::Binary(_) | Event::KeepAlive | Event::Output(_) => Action::Ignore,
            Event::InputClosed | Event::OutputClosed | Event::ChildExited => Action::Ignore,
            Event::Close | Event::StreamEnd => Action::Finish,
            Event::StreamError => Action::Fail,
        }
    }

    fn after_spawn(event: Event) -> (action: Action)
        ensures
            action@ == action_on(Phase::Running, event@),
            match event {
                Event::Binary(bytes) => action == Action::Input(bytes),
                Event::Output(bytes) => action == Action::Send(bytes),
                Event::Text { raw, control: None } => {
                    &&& action matches Action::Input(bytes)
                    &&& bytes@ == vstd::utf8::encode_utf8(raw@)
                },
                _ => !(action is Input) && !(action is Send),
            },
    {
        match event {
            Event::Text { raw, control } => match control {
                Some(ClientMsg::Resize { cols, rows }) => Action::Resize(usable_size(cols, rows)),
                Some(ClientMsg::Init { .. }) => Action::Ignore,
                None => Action::Input(raw.as_str().as_bytes_vec()),
            },
            Event::Binary(bytes) => Action::Input(bytes),
            Event::KeepAlive => Action::Ignore,
            Event::Output(bytes) => Action::Send(bytes),
            Event::Close | Event::StreamEnd | Event::StreamError => Action::Finish,
            Event::InputClosed | Event::OutputClosed | Event::ChildExited => Action::Finish,
        }
    }
}

/// The variables with which herdr processes talk to each other.
pub open spec fn herdr_variable(name: Seq<char>) -> bool {
    text::starts_with(name, "HERDR_"@)
}

/// The inherited variables that the spawned client does not get: it starts from
/// a clean herdr environment, so that it neither takes itself for a nested
/// launch nor resumes stale state.
pub open spec fn stripped(inherited: Seq<Seq<char>>) -> Seq<Seq<char>> {
    inherited.filter(|name: Seq<char>| herdr_variable(name))
}

/// The variables that the spawned client gets.
pub open spec fn client_variables(size: TermSize) -> Seq<(Seq<char>, Seq<char>)> {
    seq![
        // The server diffs and encodes, so that the client only passes bytes on.
        ("HERDR_RENDER_ENCODING"@, "terminal-ansi"@),
        ("TERM"@, "xterm-256color"@),
        ("COLUMNS"@, text::decimal(size.cols as nat)),
        ("LINES"@, text::decimal(size.rows as nat)),
        // No cell size in pixels: no image is ever reported.
        ("HERDR_CELL_WIDTH_PX"@, "0"@),
    ]
}

/// How a herdr client is spawned in its terminal.
pub struct SpawnPlan {
    /// The binary to spawn.
    pub program: HerdrBin,
    /// The terminal's size.
    pub size: TermSize,
    /// The client's arguments.
    pub args: Vec<String>,
    /// The inherited variables to remove, before any is set.
    pub removed: Vec<String>,
    /// The variables to set, in this order.
    pub variables: Vec<(String, String)>,
}

/// Plans the herdr client of a session: `program` is the binary that the bridge was
/// told to spawn, `args` are those that it was told to pass on, `inherited` are the
/// names in the bridge's own environment.
pub fn plan_spawn(
    program: &HerdrBin,
    size: TermSize,
    args: &[String],
    inherited: &[String],
) -> (plan: SpawnPlan)
    ensures
        plan.program@ == program@,
        plan.size == size,
        plan.args.deep_view() == args.deep_view(),
        plan.removed.deep_view() == stripped(inherited.deep_view()),
        plan.variables.deep_view() == client_variables(size),
{
    let mut removed: Vec<String> = Vec::new();
    let ghost names = inherited.deep_view();
    assert(removed.deep_view() == stripped(names.take(0))) by {
        reveal(Seq::filter);
    }
    for i in 0..inherited.len()
        invariant
            names == inherited.deep_view(),
            removed.deep_view() == stripped(names.take(i as int)),
    {
        let ghost before = removed.deep_view();
        assert(names.take(i + 1).drop_last() == names.take(i as int));
        if text::has_prefix(inherited[i].as_str(), "HERDR_") {
            removed.push(inherited[i].clone());
            assert(removed.deep_view() == before.push(names[i as int]));
        }
        assert(removed.deep_view() == stripped(names.take(i + 1))) by {
            reveal(Seq::filter);
        }
    }
    assert(names.take(names.len() as int) == names);
    let variables = vec![
        ("HERDR_RENDER_ENCODING".to_string(), "terminal-ansi".to_string()),
        ("TERM".to_string(), "xterm-256color".to_string()),
        ("COLUMNS".to_string(), text::decimal_text(size.cols)),
        ("LINES".to_string(), text::decimal_text(size.rows)),
        ("HERDR_CELL_WIDTH_PX".to_string(), "0".to_string()),
    ];
    assert(variables.deep_view() == client_variables(size));
    let program = match program {
        HerdrBin::Path(path) => HerdrBin::Path(path.clone()),
        HerdrBin::ThisBinary => HerdrBin::ThisBinary,
    };
    SpawnPlan { program, size, args: text::copy_all(args), removed, variables }
}

/// What one read from the terminal yields for the browser: the bytes that were
/// read, or nothing more once the terminal is at its end (`Some(0)`) or the read
/// has failed (`None`).
pub open spec fn chunk_of(buffer: Seq<u8>, read: Option<usize>) -> Option<Seq<u8>> {
    match read {
        Some(n) if n > 0 => Some(buffer.take(n as int)),
        _ => None,
    }
}

/// What one read from the terminal yields for the browser.
pub fn output_chunk(buffer: &[u8], read: Option<usize>) -> (chunk: Option<Vec<u8>>)
    requires
        read matches Some(n) ==> n <= buffer@.len(),
    ensures
        (match chunk {
            Some(bytes) => Some(bytes@),
            None => None,
        }) == chunk_of(buffer@, read),
{
    match read {
        Some(n) if n > 0 => {
            let mut bytes: Vec<u8> = Vec::new();
            for i in 0..n
                invariant
                    n <= buffer@.len(),
                    bytes@ == buffer@.take(i as int),
            {
                bytes.push(buffer[i]);
            }
            Some(bytes)
        },
        _ => None,
    }
}

/// The actions of a session on a run of events.
pub open spec fn run(phase: Phase, events: Seq<EventView>) -> Seq<ActionView>
    decreases events.len(),
{
    if events.len() == 0 {
        Seq::empty()
    } else {
        let action = action_on(phase, events[0]);
        seq![action] + run(phase_after(phase, action), events.skip(1))
    }
}

/// The bytes that an event carries for the terminal.
pub open spec fn keystrokes(event: EventView) -> Seq<u8> {
    match event {
        EventView::Text { raw, control: None } => vstd::utf8::encode_utf8(raw),
        EventView::Binary(bytes) => bytes,
        _ => Seq::empty(),
    }
}

/// The bytes that an action writes to the terminal.
pub open spec fn written(action: ActionView) -> Seq<u8> {
    match action {
        ActionView::Input(bytes) => bytes,
        _ => Seq::empty(),
    }
}

/// An event on which a running session ends.
pub open spec fn hang_up(event: EventView) -> bool {
    ||| event is Close
    ||| event is StreamEnd
    ||| event is StreamError
    ||| event is InputClosed
    ||| event is OutputClosed
    ||| event is ChildExited
}

/// The events of a run up to the first on which a running session ends.
pub open spec fn until_hang_up(events: Seq<EventView>) -> Seq<EventView>
    decreases events.len(),
{
    if events.len() == 0 || hang_up(events[0]) {
        Seq::empty()
    } else {
        seq![events[0]] + until_hang_up(events.skip(1))
    }
}

/// They are the first of the run, none of them ends the session, and the one after
/// them, where there is one, does.
pub proof fn lemma_until_hang_up(events: Seq<EventView>)
    ensures
        until_hang_up(events).is_prefix_of(events),
        forall|i: int| 0 <= i < until_hang_up(events).len() ==> !hang_up(#[trigger] events[i]),
        until_hang_up(events).len() < events.len() ==> hang_up(
            events[until_hang_up(events).len() as int],
        ),
    decreases events.len(),
{
    if events.len() > 0 {
        let rest = events.skip(1);
        lemma_until_hang_up(rest);
        if !hang_up(events[0]) {
            let before = until_hang_up(rest);
            assert(before == rest.take(before.len() as int));
            assert(until_hang_up(events) == events.take((before.len() + 1) as int));
            assert forall|i: int| 0 <= i < before.len() + 1 implies !hang_up(
                #[trigger] events[i],
            ) by {
                if i > 0 {
                    assert(events[i] == rest[i - 1]);
                }
            }
        }
    }
}

proof fn lemma_run_len(phase: Phase, events: Seq<EventView>)
    ensures
        run(phase, events).len() == events.len(),
    decreases events.len(),
{
    if events.len() > 0 {
        lemma_run_len(phase_after(phase, action_on(phase, events[0])), events.skip(1));
    }
}

/// A session that is over does nothing any more.
proof fn lemma_ended(events: Seq<EventView>)
    ensures
        forall|i: int|
            0 <= i < events.len() ==> #[trigger] run(Phase::Ended, events)[i] is Ignore,
    decreases events.len(),
{
    if events.len() > 0 {
        let rest = events.skip(1);
        lemma_ended(rest);
        lemma_run_len(Phase::Ended, rest);
        let all = run(Phase::Ended, events);
        assert forall|i: int| 0 <= i < events.len() implies #[trigger] all[i] is Ignore by {
            if i > 0 {
                assert(all[i] == run(Phase::Ended, rest)[i - 1]);
            }
        }
    }
}

/// A running session spawns nothing.
proof fn lemma_running(events: Seq<EventView>)
    ensures
        forall|i: int|
            0 <= i < events.len() ==> !(#[trigger] run(Phase::Running, events)[i] is Spawn),
    decreases events.len(),
{
    if events.len() > 0 {
        let rest = events.skip(1);
        let action = action_on(Phase::Running, events[0]);
        let next = phase_after(Phase::Running, action);
        if next == Phase::Running {
            lemma_running(rest);
        } else {
            lemma_ended(rest);
        }
        lemma_run_len(next, rest);
        let all = run(Phase::Running, events);
        assert forall|i: int| 0 <= i < events.len() implies !(#[trigger] all[i] is Spawn) by {
            if i > 0 {
                assert(all[i] == run(next, rest)[i - 1]);
            }
        }
    }
}

/// A session spawns at most one herdr client, and writes to the terminal, resizes it
/// or passes on what it prints only after that.
pub proof fn lemma_one_spawn_and_first(events: Seq<EventView>)
    ensures
        run(Phase::AwaitingSize, events).len() == events.len(),
        forall|i: int, j: int|
            0 <= i < j < events.len() ==> !(#[trigger] run(Phase::AwaitingSize, events)[i] is Spawn
                && #[trigger] run(Phase::AwaitingSize, events)[j] is Spawn),
        forall|j: int|
            0 <= j < events.len() && (#[trigger] run(Phase::AwaitingSize, events)[j] is Input
                || run(Phase::AwaitingSize, events)[j] is Resize || run(
                Phase::AwaitingSize,
                events,
            )[j] is Send) ==> exists|i: int|
                0 <= i < j && #[trigger] run(Phase::AwaitingSize, events)[i] is Spawn,
    decreases events.len(),
{
    lemma_run_len(Phase::AwaitingSize, events);
    if events.len() > 0 {
        let rest = events.skip(1);
        let action = action_on(Phase::AwaitingSize, events[0]);
        let next = phase_after(Phase::AwaitingSize, action);
        let all = run(Phase::AwaitingSize, events);
        let later = run(next, rest);
        lemma_run_len(next, rest);
        assert(forall|k: int| 0 < k < all.len() ==> all[k] == later[k - 1]);
        if next == Phase::AwaitingSize {
            lemma_one_spawn_and_first(rest);
        } else if next == Phase::Running {
            lemma_running(rest);
        } else {
            lemma_ended(rest);
        }
        assert forall|i: int, j: int| 0 <= i < j < events.len() implies !(#[trigger] all[i] is Spawn
            && #[trigger] all[j] is Spawn) by {
            assert(all[j] == later[j - 1]);
            if i > 0 {
                assert(all[i] == later[i - 1]);
            }
        }
        assert forall|j: int|
            0 <= j < events.len() && (#[trigger] all[j] is Input || all[j] is Resize
                || all[j] is Send) implies exists|i: int|
            0 <= i < j && #[trigger] all[i] is Spawn by {
            assert(j > 0);
            assert(all[j] == later[j - 1]);
            if next == Phase::AwaitingSize {
                let i = choose|i: int| 0 <= i < j - 1 && #[trigger] later[i] is Spawn;
                assert(all[i + 1] is Spawn);
            } else {
                assert(all[0] is Spawn);
            }
        }
    }
}

/// A running session ends when either side hangs up or the herdr client exits, on
/// nothing else, and always without a failure to report.
pub proof fn lemma_hang_up_ends(event: EventView)
    ensures
        action_on(Phase::Running, event) is Finish <==> hang_up(event),
        !(action_on(Phase::Running, event) is Fail),
{
}

/// Once a session has finished or failed, it does nothing any more.
pub proof fn lemma_over_is_over(phase: Phase, events: Seq<EventView>)
    ensures
        forall|i: int, j: int|
            0 <= i < j < events.len() && (#[trigger] run(phase, events)[i] is Finish || run(
                phase,
                events,
            )[i] is Fail) ==> #[trigger] run(phase, events)[j] is Ignore,
    decreases events.len(),
{
    if events.len() > 0 {
        let rest = events.skip(1);
        let next = phase_after(phase, action_on(phase, events[0]));
        let all = run(phase, events);
        let later = run(next, rest);
        lemma_run_len(next, rest);
        lemma_over_is_over(next, rest);
        lemma_ended(rest);
        assert forall|i: int, j: int|
            0 <= i < j < events.len() && (#[trigger] all[i] is Finish
                || all[i] is Fail) implies #[trigger] all[j] is Ignore by {
            assert(all[j] == later[j - 1]);
            if i > 0 {
                assert(all[i] == later[i - 1]);
            }
        }
    }
}

/// Every terminal that a session opens or resizes has at least one cell each way.
pub proof fn lemma_sizes_are_usable(phase: Phase, event: EventView)
    ensures
        action_on(phase, event) matches ActionView::Spawn(size) ==> size.cols >= 1 && size.rows
            >= 1,
        action_on(phase, event) matches ActionView::Resize(size) ==> size.cols >= 1 && size.rows
            >= 1,
{
}

/// A control message is never typed into the terminal.
pub proof fn lemma_control_is_not_typed(phase: Phase, raw: Seq<char>, control: ClientMsg)
    ensures
        !(action_on(phase, EventView::Text { raw, control: Some(control) }) is Input),
{
}

/// The bytes that a run of actions writes to the terminal.
pub open spec fn typed(actions: Seq<ActionView>) -> Seq<u8> {
    actions.map_values(|action: ActionView| written(action)).flatten()
}

/// The bytes that a run of events carries for the terminal.
pub open spec fn keyed(events: Seq<EventView>) -> Seq<u8> {
    events.map_values(|event: EventView| keystrokes(event)).flatten()
}

proof fn lemma_typed_first(actions: Seq<ActionView>)
    requires
        actions.len() > 0,
    ensures
        typed(actions) == written(actions[0]) + typed(actions.skip(1)),
{
    let bytes = |action: ActionView| written(action);
    assert(actions.map_values(bytes).drop_first() == actions.skip(1).map_values(bytes));
}

proof fn lemma_keyed_first(events: Seq<EventView>)
    requires
        events.len() > 0,
    ensures
        keyed(events) == keystrokes(events[0]) + keyed(events.skip(1)),
{
    let bytes = |event: EventView| keystrokes(event);
    assert(events.map_values(bytes).drop_first() == events.skip(1).map_values(bytes));
}

proof fn lemma_ended_types_nothing(events: Seq<EventView>)
    ensures
        typed(run(Phase::Ended, events)).len() == 0,
    decreases events.len(),
{
    if events.len() > 0 {
        let rest = events.skip(1);
        lemma_ended_types_nothing(rest);
        lemma_typed_first(run(Phase::Ended, events));
        assert(run(Phase::Ended, events).skip(1) == run(Phase::Ended, rest));
    }
}

/// A running session types what the browser sends for the terminal, verbatim and in
/// order: nothing is added, altered or left out on the way, all of it until one side
/// hangs up and nothing from then on.
pub proof fn lemma_keystrokes_are_verbatim(events: Seq<EventView>)
    ensures
        typed(run(Phase::Running, events)) == keyed(until_hang_up(events)),
        typed(run(Phase::Running, events)).is_prefix_of(keyed(events)),
    decreases events.len(),
{
    if events.len() > 0 {
        let rest = events.skip(1);
        let action = action_on(Phase::Running, events[0]);
        let next = phase_after(Phase::Running, action);
        let all = run(Phase::Running, events);
        let later = run(next, rest);
        assert(all.skip(1) == later);
        lemma_typed_first(all);
        lemma_keyed_first(events);
        if next == Phase::Running {
            lemma_keystrokes_are_verbatim(rest);
            assert(written(action) == keystrokes(events[0]));
            lemma_keyed_first(until_hang_up(events));
            assert(until_hang_up(events).skip(1) == until_hang_up(rest));
            assert(typed(later) == keyed(rest).take(typed(later).len() as int));
            assert(typed(all) == keyed(events).take(typed(all).len() as int));
        } else {
            lemma_ended_types_nothing(rest);
            assert(hang_up(events[0]));
            assert(written(action).len() == 0);
        }
    }
}

/// The sizes that a run of actions gives the terminal.
pub open spec fn sizes_given(actions: Seq<ActionView>) -> Seq<TermSize>
    decreases actions.len(),
{
    if actions.len() == 0 {
        Seq::empty()
    } else {
        match actions[0] {
            ActionView::Resize(size) => seq![size] + sizes_given(actions.skip(1)),
            _ => sizes_given(actions.skip(1)),
        }
    }
}

/// The sizes that a run of events asks for, each made one that a terminal can have.
pub open spec fn sizes_asked(events: Seq<EventView>) -> Seq<TermSize>
    decreases events.len(),
{
    if events.len() == 0 {
        Seq::empty()
    } else {
        match events[0] {
            EventView::Text { control: Some(ClientMsg::Resize { cols, rows }), .. } => {
                seq![usable(cols, rows)] + sizes_asked(events.skip(1))
            },
            _ => sizes_asked(events.skip(1)),
        }
    }
}

proof fn lemma_ended_resizes_nothing(events: Seq<EventView>)
    ensures
        sizes_given(run(Phase::Ended, events)).len() == 0,
    decreases events.len(),
{
    if events.len() > 0 {
        let rest = events.skip(1);
        lemma_ended_resizes_nothing(rest);
        assert(run(Phase::Ended, events).skip(1) == run(Phase::Ended, rest));
    }
}

/// A running session gives the terminal the sizes that the browser asks for, one by
/// one and in order: all of them until one side hangs up and none from then on.
pub proof fn lemma_resizes_follow_the_browser(events: Seq<EventView>)
    ensures
        sizes_given(run(Phase::Running, events)) == sizes_asked(until_hang_up(events)),
        sizes_given(run(Phase::Running, events)).is_prefix_of(sizes_asked(events)),
        forall|i: int|
            0 <= i < sizes_asked(events).len() ==> (#[trigger] sizes_asked(events)[i]).cols >= 1
                && sizes_asked(events)[i].rows >= 1,
    decreases events.len(),
{
    if events.len() > 0 {
        let rest = events.skip(1);
        let action = action_on(Phase::Running, events[0]);
        let next = phase_after(Phase::Running, action);
        let later = sizes_given(run(next, rest));
        assert(run(Phase::Running, events).skip(1) == run(next, rest));
        lemma_resizes_follow_the_browser(rest);
        if next == Phase::Running {
            assert(later == sizes_asked(rest).take(later.len() as int));
            if let ActionView::Resize(size) = action {
                assert(seq![size] + later == sizes_asked(events).take((later.len() + 1) as int));
            }
            assert(until_hang_up(events).skip(1) == until_hang_up(rest));
        } else {
            lemma_ended_resizes_nothing(rest);
            assert(hang_up(events[0]));
        }
        assert forall|i: int| 0 <= i < sizes_asked(events).len() implies (
        #[trigger] sizes_asked(events)[i]).cols >= 1 && sizes_asked(events)[i].rows >= 1 by {
            if events[0] matches EventView::Text { control: Some(ClientMsg::Resize { .. }), .. } {
                if i > 0 {
                    assert(sizes_asked(events)[i] == sizes_asked(rest)[i - 1]);
                }
            }
        }
    }
}

/// The payloads of the frames that a run of actions sends to the browser.
pub open spec fn frames(actions: Seq<ActionView>) -> Seq<Seq<u8>>
    decreases actions.len(),
{
    if actions.len() == 0 {
        Seq::empty()
    } else {
        match actions[0] {
            ActionView::Send(bytes) => seq![bytes] + frames(actions.skip(1)),
            _ => frames(actions.skip(1)),
        }
    }
}

/// What the terminal printed in a run of events, piece by piece.
pub open spec fn outputs(events: Seq<EventView>) -> Seq<Seq<u8>>
    decreases events.len(),
{
    if events.len() == 0 {
        Seq::empty()
    } else {
        match events[0] {
            EventView::Output(bytes) => seq![bytes] + outputs(events.skip(1)),
            _ => outputs(events.skip(1)),
        }
    }
}

proof fn lemma_ended_sends_nothing(events: Seq<EventView>)
    ensures
        frames(run(Phase::Ended, events)).len() == 0,
    decreases events.len(),
{
    if events.len() > 0 {
        let rest = events.skip(1);
        lemma_ended_sends_nothing(rest);
        assert(run(Phase::Ended, events).skip(1) == run(Phase::Ended, rest));
    }
}

/// A running session sends what the terminal prints, piece by piece and in order:
/// nothing is added, altered or left out on the way, all of it until one side hangs
/// up and nothing from then on.
pub proof fn lemma_output_is_verbatim(events: Seq<EventView>)
    ensures
        frames(run(Phase::Running, events)) == outputs(until_hang_up(events)),
        frames(run(Phase::Running, events)).is_prefix_of(outputs(events)),
    decreases events.len(),
{
    if events.len() > 0 {
        let rest = events.skip(1);
        let action = action_on(Phase::Running, events[0]);
        let next = phase_after(Phase::Running, action);
        let later = frames(run(next, rest));
        assert(run(Phase::Running, events).skip(1) == run(next, rest));
        if next == Phase::Running {
            lemma_output_is_verbatim(rest);
            assert(later == outputs(rest).take(later.len() as int));
            if let EventView::Output(bytes) = events[0] {
                assert(seq![bytes] + later == outputs(events).take((later.len() + 1) as int));
            }
            assert(until_hang_up(events).skip(1) == until_hang_up(rest));
        } else {
            lemma_ended_sends_nothing(rest);
            assert(hang_up(events[0]));
        }
    }
}

/// One read from the terminal: the buffer after it, and how many bytes it put there;
/// `None` where it failed.
pub ghost struct ReadView {
    pub buffer: Seq<u8>,
    pub read: Option<usize>,
}

/// The chunks that a run of reads yields, up to the first that yields none.
pub open spec fn chunks(reads: Seq<ReadView>) -> Seq<Seq<u8>>
    decreases reads.len(),
{
    if reads.len() == 0 {
        Seq::empty()
    } else {
        match chunk_of(reads[0].buffer, reads[0].read) {
            Some(bytes) => seq![bytes] + chunks(reads.skip(1)),
            None => Seq::empty(),
        }
    }
}

/// The terminal is at its end, or can no longer be read.
pub open spec fn at_end(read: ReadView) -> bool {
    read.read is None || read.read == Some(0usize)
}

/// The bytes that the terminal printed, as the first `count` reads got them.
pub open spec fn printed(reads: Seq<ReadView>, count: nat) -> Seq<u8>
    decreases count,
{
    if count == 0 {
        Seq::empty()
    } else {
        let last = reads[count - 1];
        printed(reads, (count - 1) as nat) + last.buffer.take(last.read->0 as int)
    }
}

proof fn lemma_printed_first(reads: Seq<ReadView>, count: nat)
    requires
        0 < count <= reads.len(),
    ensures
        printed(reads, count) == reads[0].buffer.take(reads[0].read->0 as int) + printed(
            reads.skip(1),
            (count - 1) as nat,
        ),
    decreases count,
{
    if count > 1 {
        lemma_printed_first(reads, (count - 1) as nat);
        assert(reads.skip(1)[count - 2] == reads[count - 1]);
    } else {
        assert(printed(reads, 0) == Seq::<u8>::empty());
    }
}

/// The chunks of a run of reads, put together, are the bytes read up to the first
/// end or failure. `count` is the number of reads before it.
pub proof fn lemma_chunks_are_what_was_read(reads: Seq<ReadView>, count: nat)
    requires
        count <= reads.len(),
        forall|i: int| 0 <= i < count ==> !at_end(#[trigger] reads[i]),
        count < reads.len() ==> at_end(reads[count as int]),
    ensures
        chunks(reads).len() == count,
        chunks(reads).flatten() == printed(reads, count),
    decreases reads.len(),
{
    if reads.len() > 0 {
        if count > 0 {
            let rest = reads.skip(1);
            assert(!at_end(reads[0]));
            assert forall|i: int| 0 <= i < count - 1 implies !at_end(#[trigger] rest[i]) by {
                assert(rest[i] == reads[i + 1]);
            }
            lemma_chunks_are_what_was_read(rest, (count - 1) as nat);
            lemma_printed_first(reads, count);
            assert(chunks(reads).drop_first() == chunks(rest));
        }
    }
}

/// The browser gets the terminal's byte stream: whatever else happens in a running
/// session, the frames that it is sent, put together, are a prefix of the bytes read
/// from the terminal up to its end, where the chunks of those reads are handed to the
/// session in order. They are all the bytes of what was handed over until one side
/// hangs up.
pub proof fn lemma_output_is_passed_through(
    events: Seq<EventView>,
    reads: Seq<ReadView>,
    count: nat,
)
    requires
        outputs(events).is_prefix_of(chunks(reads)),
        count <= reads.len(),
        forall|i: int| 0 <= i < count ==> !at_end(#[trigger] reads[i]),
        count < reads.len() ==> at_end(reads[count as int]),
    ensures
        frames(run(Phase::Running, events)).flatten().is_prefix_of(printed(reads, count)),
        (forall|i: int| 0 <= i < events.len() ==> !hang_up(#[trigger] events[i])) && outputs(events)
            == chunks(reads) ==> frames(run(Phase::Running, events)).flatten() == printed(
            reads,
            count,
        ),
{
    lemma_output_is_verbatim(events);
    lemma_until_hang_up(events);
    if forall|i: int| 0 <= i < events.len() ==> !hang_up(#[trigger] events[i]) {
        assert(until_hang_up(events) == events);
    }
    lemma_chunks_are_what_was_read(reads, count);
    let sent = frames(run(Phase::Running, events));
    let all = chunks(reads);
    assert(sent == all.take(sent.len() as int)) by {
        let handed = outputs(events);
        assert(sent == handed.take(sent.len() as int));
        assert(handed == all.take(handed.len() as int));
        assert(all.take(handed.len() as int).take(sent.len() as int) == all.take(
            sent.len() as int,
        ));
    }
    let unsent = all.skip(sent.len() as int);
    assert(all == sent + unsent);
    vstd::seq_lib::lemma_flatten_concat(sent, unsent);
    let whole = printed(reads, count);
    assert(sent.flatten() == whole.take(sent.flatten().len() as int));
}

/// An environment after variables were set in it, in order.
pub open spec fn with_variables(
    environment: Map<Seq<char>, Seq<char>>,
    variables: Seq<(Seq<char>, Seq<char>)>,
) -> Map<Seq<char>, Seq<char>>
    decreases variables.len(),
{
    if variables.len() == 0 {
        environment
    } else {
        let (name, value) = variables.last();
        with_variables(environment, variables.drop_last()).insert(name, value)
    }
}

/// The environment of the spawned client.
pub open spec fn client_environment(
    inherited: Map<Seq<char>, Seq<char>>,
    names: Seq<Seq<char>>,
    size: TermSize,
) -> Map<Seq<char>, Seq<char>> {
    with_variables(inherited.remove_keys(stripped(names).to_set()), client_variables(size))
}

/// The spawned client starts from a clean herdr environment: of the variables
/// with which herdr processes talk to each other it sees the two that the bridge
/// sets, whatever the bridge itself inherited. It sees its terminal's type and
/// size, and everything else as the bridge does.
pub proof fn lemma_clean_environment(
    inherited: Map<Seq<char>, Seq<char>>,
    names: Seq<Seq<char>>,
    size: TermSize,
)
    requires
        forall|name: Seq<char>| #[trigger] inherited.contains_key(name) ==> names.contains(name),
    ensures
        ({
            let client = client_environment(inherited, names, size);
            &&& forall|name: Seq<char>| #[trigger]
                client.contains_key(name) && herdr_variable(name) ==> name
                    == "HERDR_RENDER_ENCODING"@ || name == "HERDR_CELL_WIDTH_PX"@
            &&& client.contains_pair("HERDR_RENDER_ENCODING"@, "terminal-ansi"@)
            &&& client.contains_pair("HERDR_CELL_WIDTH_PX"@, "0"@)
            &&& client.contains_pair("TERM"@, "xterm-256color"@)
            &&& client.contains_pair("COLUMNS"@, text::decimal(size.cols as nat))
            &&& client.contains_pair("LINES"@, text::decimal(size.rows as nat))
            &&& forall|name: Seq<char>|
                !herdr_variable(name) && name != "TERM"@ && name != "COLUMNS"@ && name != "LINES"@
                    ==> {
                    &&& #[trigger] client.contains_key(name) <==> inherited.contains_key(name)
                    &&& client.contains_key(name) ==> client[name] == inherited[name]
                }
        }),
{
    reveal_strlit("HERDR_RENDER_ENCODING");
    reveal_strlit("HERDR_CELL_WIDTH_PX");
    reveal_strlit("TERM");
    reveal_strlit("COLUMNS");
    reveal_strlit("LINES");
    reveal_strlit("HERDR_");
    let pred = |name: Seq<char>| herdr_variable(name);
    let base = inherited.remove_keys(stripped(names).to_set());
    let set = client_variables(size);
    assert forall|name: Seq<char>| #[trigger] base.contains_key(name) implies !herdr_variable(
        name,
    ) by {
        if herdr_variable(name) {
            assert(inherited.contains_key(name));
            let i = choose|i: int| 0 <= i < names.len() && names[i] == name;
            names.lemma_filter_contains(pred, i);
            assert(stripped(names).contains(name));
        }
    }
    assert forall|name: Seq<char>| !herdr_variable(name) implies (#[trigger] base.contains_key(name)
        <==> inherited.contains_key(name)) by {
        if stripped(names).contains(name) {
            let i = choose|i: int| 0 <= i < stripped(names).len() && stripped(names)[i] == name;
            names.lemma_filter_pred(pred, i);
        }
    }
    let client = client_environment(inherited, names, size);
    assert(client == base.insert(set[0].0, set[0].1).insert(set[1].0, set[1].1).insert(
        set[2].0,
        set[2].1,
    ).insert(set[3].0, set[3].1).insert(set[4].0, set[4].1)) by {
        reveal_with_fuel(with_variables, 6);
        let set0 = set.drop_last();
        let set1 = set0.drop_last();
        let set2 = set1.drop_last();
        let set3 = set2.drop_last();
        assert(set3.drop_last().len() == 0);
    }
    assert("HERDR_RENDER_ENCODING"@.len() == 21);
    assert("HERDR_CELL_WIDTH_PX"@.len() == 19);
    assert("TERM"@.len() == 4);
    assert("COLUMNS"@.len() == 7);
    assert("LINES"@.len() == 5);
    assert("COLUMNS"@.take(6)[0] != "HERDR_"@[0]);
    assert("HERDR_RENDER_ENCODING"@.take(6) == "HERDR_"@);
    assert("HERDR_CELL_WIDTH_PX"@.take(6) == "HERDR_"@);
}

/// The terminal gets the size that the browser says, to the cell, from the first message
/// on and with every resize; 1 stands only where the browser said 0.
pub proof fn lemma_size_is_as_the_browser_says(raw: Seq<char>, cols: u16, rows: u16)
    ensures
        ({
            let init = EventView::Text { raw, control: Some(ClientMsg::Init { cols, rows }) };
            let resize = EventView::Text { raw, control: Some(ClientMsg::Resize { cols, rows }) };
            let opened = action_on(Phase::AwaitingSize, init);
            let size = opened->Spawn_0;
            &&& opened is Spawn
            &&& cols >= 1 ==> size.cols == cols
            &&& cols == 0 ==> size.cols == 1
            &&& rows >= 1 ==> size.rows == rows
            &&& rows == 0 ==> size.rows == 1
            &&& action_on(Phase::AwaitingSize, resize) == opened
            &&& action_on(Phase::Running, resize) == ActionView::Resize(size)
            &&& action_on(Phase::Running, init) is Ignore
        }),
{
}

/// Whatever size a session opens or resizes a terminal to, the browser has just said it.
pub proof fn lemma_no_size_is_made_up(phase: Phase, event: EventView)
    ensures
        action_on(phase, event) is Spawn || action_on(phase, event) is Resize ==> {
            let size = match action_on(phase, event) {
                ActionView::Spawn(size) => size,
                action => action->Resize_0,
            };
            exists|cols: u16, rows: u16|
                {
                    &&& #[trigger] said(event, cols, rows)
                    &&& size.cols == cols || cols == 0 && size.cols == 1
                    &&& size.rows == rows || rows == 0 && size.rows == 1
                }
        },
{
    if let EventView::Text { control: Some(msg), .. } = event {
        match msg {
            ClientMsg::Init { cols, rows } => {
                assert(said(event, cols, rows));
            },
            ClientMsg::Resize { cols, rows } => {
                assert(said(event, cols, rows));
            },
        }
    }
}

/// The event is a message in which the browser says this size.
pub open spec fn said(event: EventView, cols: u16, rows: u16) -> bool {
    &&& event is Text
    &&& event->control is Some
    &&& event->control->0 == (ClientMsg::Init { cols, rows }) || event->control->0 == (
    ClientMsg::Resize { cols, rows })
}

/// Before the size is known a session waits for it through whatever else comes, and goes
/// on waiting. It ends quietly where the browser leaves, and with a failure where the
/// stream fails.
pub proof fn lemma_waits_for_the_size(raw: Seq<char>, bytes: Seq<u8>, events: Seq<EventView>)
    ensures
        ({
            let waits = |event: EventView|
                run(Phase::AwaitingSize, seq![event] + events) == seq![ActionView::Ignore] + run(
                    Phase::AwaitingSize,
                    events,
                );
            &&& waits(EventView::Text { raw, control: None })
            &&& waits(EventView::Binary(bytes))
            &&& waits(EventView::KeepAlive)
        }),
        run(Phase::AwaitingSize, seq![EventView::Close] + events) == seq![ActionView::Finish] + run(
            Phase::Ended,
            events,
        ),
        run(Phase::AwaitingSize, seq![EventView::StreamEnd] + events) == seq![ActionView::Finish]
            + run(Phase::Ended, events),
        run(Phase::AwaitingSize, seq![EventView::StreamError] + events) == seq![ActionView::Fail]
            + run(Phase::Ended, events),
{
    lemma_run_first(Phase::AwaitingSize, EventView::Text { raw, control: None }, events);
    lemma_run_first(Phase::AwaitingSize, EventView::Binary(bytes), events);
    lemma_run_first(Phase::AwaitingSize, EventView::KeepAlive, events);
    lemma_run_first(Phase::AwaitingSize, EventView::Close, events);
    lemma_run_first(Phase::AwaitingSize, EventView::StreamEnd, events);
    lemma_run_first(Phase::AwaitingSize, EventView::StreamError, events);
}

proof fn lemma_run_first(phase: Phase, event: EventView, events: Seq<EventView>)
    ensures
        run(phase, seq![event] + events) == seq![action_on(phase, event)] + run(
            phase_after(phase, action_on(phase, event)),
            events,
        ),
{
    let all = seq![event] + events;
    assert(all[0] == event);
    assert(all.skip(1) == events);
}

/// The first size opens the terminal, and the session runs from then on.
pub proof fn lemma_first_size_starts(raw: Seq<char>, msg: ClientMsg, events: Seq<EventView>)
    ensures
        ({
            let all = run(
                Phase::AwaitingSize,
                seq![EventView::Text { raw, control: Some(msg) }] + events,
            );
            &&& all.len() == events.len() + 1
            &&& all[0] is Spawn
            &&& all.skip(1) == run(Phase::Running, events)
        }),
{
    let event = EventView::Text { raw, control: Some(msg) };
    lemma_run_first(Phase::AwaitingSize, event, events);
    lemma_run_len(Phase::Running, events);
    assert((seq![action_on(Phase::AwaitingSize, event)] + run(Phase::Running, events)).skip(1)
        == run(Phase::Running, events));
}

/// A running session types what the browser sends, byte for byte: text as its UTF-8,
/// which reads as that text again, and bytes as they are. It sends what the terminal
/// prints, byte for byte. None of that, and no ping, ends it.
pub proof fn lemma_bytes_pass_unchanged(raw: Seq<char>, bytes: Seq<u8>, events: Seq<EventView>)
    ensures
        action_on(Phase::Running, EventView::Text { raw, control: None }) matches ActionView::Input(
            typed,
        ) && vstd::utf8::valid_utf8(typed) && vstd::utf8::decode_utf8(typed) == raw,
        run(Phase::Running, seq![EventView::Text { raw, control: None }] + events).skip(1) == run(
            Phase::Running,
            events,
        ),
        run(Phase::Running, seq![EventView::Binary(bytes)] + events) == seq![
            ActionView::Input(bytes),
        ] + run(Phase::Running, events),
        run(Phase::Running, seq![EventView::Output(bytes)] + events) == seq![ActionView::Send(bytes)]
            + run(Phase::Running, events),
        run(Phase::Running, seq![EventView::KeepAlive] + events) == seq![ActionView::Ignore] + run(
            Phase::Running,
            events,
        ),
{
    vstd::utf8::encode_utf8_valid_utf8(raw);
    vstd::utf8::encode_utf8_decode_utf8(raw);
    let event = EventView::Text { raw, control: None };
    lemma_run_first(Phase::Running, event, events);
    assert((seq![action_on(Phase::Running, event)] + run(Phase::Running, events)).skip(1) == run(
        Phase::Running,
        events,
    ));
    lemma_run_first(Phase::Running, EventView::Binary(bytes), events);
    lemma_run_first(Phase::Running, EventView::Output(bytes), events);
    lemma_run_first(Phase::Running, EventView::KeepAlive, events);
}

/// Either side ends a running session: the browser by a close frame, by leaving or by
/// failing, the terminal by taking no more input, by printing no more or by the exit of
/// its client. From then on nothing happens, whatever comes.
pub proof fn lemma_either_side_ends(events: Seq<EventView>)
    ensures
        ({
            let over = seq![ActionView::Finish] + Seq::new(
                events.len(),
                |i: int| ActionView::Ignore,
            );
            &&& run(Phase::Running, seq![EventView::Close] + events) == over
            &&& run(Phase::Running, seq![EventView::StreamEnd] + events) == over
            &&& run(Phase::Running, seq![EventView::StreamError] + events) == over
            &&& run(Phase::Running, seq![EventView::InputClosed] + events) == over
            &&& run(Phase::Running, seq![EventView::OutputClosed] + events) == over
            &&& run(Phase::Running, seq![EventView::ChildExited] + events) == over
        }),
{
    lemma_run_first(Phase::Running, EventView::Close, events);
    lemma_run_first(Phase::Running, EventView::StreamEnd, events);
    lemma_run_first(Phase::Running, EventView::StreamError, events);
    lemma_run_first(Phase::Running, EventView::InputClosed, events);
    lemma_run_first(Phase::Running, EventView::OutputClosed, events);
    lemma_run_first(Phase::Running, EventView::ChildExited, events);
    lemma_ended(events);
    lemma_run_len(Phase::Ended, events);
    assert(run(Phase::Ended, events) == Seq::new(events.len(), |i: int| ActionView::Ignore));
}

/// A read yields the bytes that it put at the front of the buffer, all of them and no
/// others; a read of none, and one that failed, yield nothing.
pub proof fn lemma_chunk(buffer: Seq<u8>, n: usize)
    requires
        n <= buffer.len(),
    ensures
        n > 0 ==> {
            &&& chunk_of(buffer, Some(n)) is Some
            &&& chunk_of(buffer, Some(n))->0.len() == n
            &&& forall|i: int|
                0 <= i < n ==> #[trigger] chunk_of(buffer, Some(n))->0[i] == buffer[i]
        },
        chunk_of(buffer, Some(0usize)) is None,
        chunk_of(buffer, None) is None,
{
}

/// An inherited variable is removed exactly where its name starts with `HERDR_`.
pub proof fn lemma_stripped(inherited: Seq<Seq<char>>, name: Seq<char>)
    ensures
        stripped(inherited).contains(name) <==> inherited.contains(name) && exists|rest: Seq<char>|
            name == #[trigger] ("HERDR_"@ + rest),
{
    let pred = |name: Seq<char>| herdr_variable(name);
    text::lemma_starts_with(name, "HERDR_"@);
    if stripped(inherited).contains(name) {
        inherited.lemma_filter_contains_rev(pred, name);
        let i = choose|i: int| 0 <= i < stripped(inherited).len() && stripped(inherited)[i] == name;
        inherited.lemma_filter_pred(pred, i);
    }
    if inherited.contains(name) && herdr_variable(name) {
        let i = choose|i: int| 0 <= i < inherited.len() && inherited[i] == name;
        inherited.lemma_filter_contains(pred, i);
    }
}

/// The spawned client is told the size of the terminal that it runs in, in decimal digits;
/// what it sees beside that does not depend on the size.
pub proof fn lemma_client_is_told_its_size(
    inherited: Map<Seq<char>, Seq<char>>,
    names: Seq<Seq<char>>,
    size: TermSize,
    other: TermSize,
)
    requires
        forall|name: Seq<char>| #[trigger] inherited.contains_key(name) ==> names.contains(name),
    ensures
        ({
            let client = client_environment(inherited, names, size);
            &&& client.contains_key("COLUMNS"@)
            &&& client.contains_key("LINES"@)
            &&& text::number(client["COLUMNS"@]) == size.cols
            &&& text::number(client["LINES"@]) == size.rows
            &&& forall|i: int|
                0 <= i < client["COLUMNS"@].len() ==> '0' <= #[trigger] client["COLUMNS"@][i] <= '9'
            &&& forall|i: int|
                0 <= i < client["LINES"@].len() ==> '0' <= #[trigger] client["LINES"@][i] <= '9'
            &&& client_environment(inherited, names, other) == client.insert(
                "COLUMNS"@,
                client_environment(inherited, names, other)["COLUMNS"@],
            ).insert("LINES"@, client_environment(inherited, names, other)["LINES"@])
        }),
{
    let client = client_environment(inherited, names, size);
    let elsewhere = client_environment(inherited, names, other);
    lemma_clean_environment(inherited, names, size);
    lemma_clean_environment(inherited, names, other);
    text::lemma_decimal(size.cols as nat);
    text::lemma_decimal(size.rows as nat);
    let changed = client.insert("COLUMNS"@, elsewhere["COLUMNS"@]).insert(
        "LINES"@,
        elsewhere["LINES"@],
    );
    assert forall|name: Seq<char>| #[trigger] elsewhere.contains_key(name) <==> changed.contains_key(
        name,
    ) by {
        if herdr_variable(name) {
        } else if name != "TERM"@ && name != "COLUMNS"@ && name != "LINES"@ {
            assert(client.contains_key(name) <==> inherited.contains_key(name));
        }
    }
    assert forall|name: Seq<char>| #[trigger]
        elsewhere.contains_key(name) implies elsewhere[name] == changed[name] by {
        if herdr_variable(name) {
        } else if name != "TERM"@ && name != "COLUMNS"@ && name != "LINES"@ {
            assert(client.contains_key(name) <==> inherited.contains_key(name));
        }
    }
    assert(elsewhere == changed);
}

} // verus!
