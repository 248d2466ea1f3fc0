//! How `herdr web` starts, or refuses to.
//!
//! The bridge is a full interactive shell. It listens on loopback only and is
//! meant to be fronted by `tailscale serve`, so it refuses to start on a routable
//! address or while `tailscale funnel` publishes the node, unless it is told
//! otherwise.

use vstd::prelude::*;
use crate::web::args::{
    parse_args, web_help, ArgsView, BinView, EnvView, HerdrBin, ParseResult, ParseView, WebArgs,
    WebEnv,
};
use crate::web::args;
use crate::web::funnel::FunnelCheck;

verus! {

/// An IP address: the octets of version 4, or the segments of version 6.
#[derive(Clone, Copy, Debug, PartialEq, Eq)]
pub enum IpAddress {
    V4([u8; 4]),
    V6([u16; 8]),
}

/// A socket address to listen on.
#[derive(Debug, PartialEq, Eq)]
pub struct BindAddr {
    pub ip: IpAddress,
    pub port: u16,
    /// The address as it is displayed.
    pub display: String,
}

/// Parsed `herdr web` configuration.
#[derive(Debug, PartialEq, Eq)]
pub struct WebConfig {
    pub bind: BindAddr,
    pub herdr_bin: HerdrBin,
    pub herdr_args: Vec<String>,
    pub allow_non_loopback: bool,
    pub allow_funnel: bool,
    pub allowed_origins: Vec<String>,
    pub allow_any_origin: bool,
}

/// What `herdr web` does next.
#[derive(Debug, PartialEq, Eq)]
pub enum Step {
    /// Write these lines and exit with this code.
    Exit { code: i32, stdout: Vec<String>, stderr: Vec<String> },
    /// Resolve the bind address, and go on with `bind_resolved`.
    ResolveBind(WebArgs),
    /// Ask tailscale about the funnel, and go on with `funnel_checked`.
    CheckFunnel(WebConfig),
    /// Write these warnings to the standard error, and serve.
    Serve { config: WebConfig, warnings: Vec<String> },
}

/// `IpAddress` by its octets or segments.
pub ghost enum IpView {
    V4(Seq<u8>),
    V6(Seq<u16>),
}

/// `BindAddr` by its characters.
pub ghost struct BindView {
    pub ip: IpView,
    pub port: u16,
    pub display: Seq<char>,
}

/// `WebConfig` by its characters.
pub ghost struct ConfigView {
    pub bind: BindView,
    pub herdr_bin: BinView,
    pub herdr_args: Seq<Seq<char>>,
    pub allow_non_loopback: bool,
    pub allow_funnel: bool,
    pub allowed_origins: Seq<Seq<char>>,
    pub allow_any_origin: bool,
}

/// `Step` by its characters.
pub ghost enum StepView {
    Exit { code: i32, stdout: Seq<Seq<char>>, stderr: Seq<Seq<char>> },
    ResolveBind(ArgsView),
    CheckFunnel(ConfigView),
    Serve { config: ConfigView, warnings: Seq<Seq<char>> },
}

impl View for IpAddress {
    type V = IpView;

    open spec fn view(&self) -> IpView {
        match *self {
            IpAddress::V4(octets) => IpView::V4(octets@),
            IpAddress::V6(segments) => IpView::V6(segments@),
        }
    }
}

impl View for BindAddr {
    type V = BindView;

    open spec fn view(&self) -> BindView {
        BindView { ip: self.ip@, port: self.port, display: self.display@ }
    }
}

impl View for WebConfig {
    type V = ConfigView;

    open spec fn view(&self) -> ConfigView {
        ConfigView {
            bind: self.bind@,
            herdr_bin: self.herdr_bin@,
            herdr_args: self.herdr_args.deep_view(),
            allow_non_loopback: self.allow_non_loopback,
            allow_funnel: self.allow_funnel,
            allowed_origins: self.allowed_origins.deep_view(),
            allow_any_origin: self.allow_any_origin,
        }
    }
}

impl View for Step {
    type V = StepView;

    open spec fn view(&self) -> StepView {
        match *self {
            Step::Exit { code, stdout, stderr } => StepView::Exit {
                code,
                stdout: stdout.deep_view(),
                stderr: stderr.deep_view(),
            },
            Step::ResolveBind(args) => StepView::ResolveBind(args@),
            Step::CheckFunnel(config) => StepView::CheckFunnel(config@),
            Step::Serve { config, warnings } => StepView::Serve {
                config: config@,
                warnings: warnings.deep_view(),
            },
        }
    }
}

/// The address is reachable from this machine only: `127.0.0.0/8`, or `::1`.
pub open spec fn loopback(ip: IpView) -> bool {
    match ip {
        IpView::V4(octets) => octets[0] == 127,
        IpView::V6(segments) => segments == seq![0u16, 0, 0, 0, 0, 0, 0, 1],
    }
}

/// A refusal to start, with what is written to the standard error.
pub open spec fn refused(stderr: Seq<Seq<char>>) -> StepView {
    StepView::Exit { code: 2, stdout: Seq::empty(), stderr }
}

/// The first step: the command line and the environment are read.
pub open spec fn first_step(args: Seq<Seq<char>>, env: EnvView) -> StepView {
    match args::parsed(args, args::defaults(env)) {
        ParseView::Run(args) => StepView::ResolveBind(args),
        ParseView::Help => StepView::Exit {
            code: 0,
            stdout: args::help_text(),
            stderr: Seq::empty(),
        },
        ParseView::Refuse(refusal) => StepView::Exit {
            code: refusal.code,
            stdout: Seq::empty(),
            stderr: refusal.lines,
        },
    }
}

/// What the arguments and the address that they name ask for.
pub open spec fn configured(args: ArgsView, bind: BindView) -> ConfigView {
    ConfigView {
        bind,
        herdr_bin: args.herdr_bin,
        herdr_args: args.herdr_args,
        allow_non_loopback: args.allow_non_loopback,
        allow_funnel: args.allow_funnel,
        allowed_origins: args.allowed_origins,
        allow_any_origin: args.allow_any_origin,
    }
}

/// The step after the bind address was resolved, or turned out to be none.
pub open spec fn bind_step(args: ArgsView, bind: Option<BindView>) -> StepView {
    match bind {
        None => refused(seq!["herdr web: invalid bind address: "@ + args.bind]),
        Some(bind) => {
            let config = configured(args, bind);
            if !loopback(bind.ip) && !args.allow_non_loopback {
                refused(
                    seq![
                        "herdr web: refusing to bind non-loopback address "@ + bind.display,
                        "  the web bridge is a full shell; front it with `tailscale serve` on loopback."@,
                        "  pass --allow-non-loopback only if you have another auth layer in front."@,
                    ],
                )
            } else if !args.allow_funnel {
                StepView::CheckFunnel(config)
            } else {
                StepView::Serve { config, warnings: Seq::empty() }
            }
        },
    }
}

/// The step after tailscale was asked about the funnel. A funnel that is known to
/// be active is a reason to refuse; one that nothing is known of is not, as not
/// every host is fronted by tailscale.
pub open spec fn funnel_step(config: ConfigView, check: FunnelCheck) -> StepView {
    match check {
        FunnelCheck::Active => refused(
            seq![
                "herdr web: refusing to start — `tailscale funnel` is active on this node."@,
                "  funnel publishes to the PUBLIC internet; this bridge is a full shell."@,
                "  use `tailscale serve` (tailnet-only), or pass --allow-funnel to override."@,
            ],
        ),
        FunnelCheck::Inactive => StepView::Serve { config, warnings: Seq::empty() },
        FunnelCheck::Unknown => StepView::Serve {
            config,
            warnings: seq![
                "herdr web: could not verify tailscale funnel state; ensure you front this with `tailscale serve` (tailnet-only), NOT `tailscale funnel`."@,
            ],
        },
    }
}

/// Whether an address is reachable from this machine only.
pub fn is_loopback(ip: &IpAddress) -> (yes: bool)
    ensures
        yes == loopback(ip@),
{
    match ip {
        IpAddress::V4(octets) => octets[0] == 127,
        IpAddress::V6(segments) => {
            let yes = segments[0] == 0 && segments[1] == 0 && segments[2] == 0 && segments[3] == 0
                && segments[4] == 0 && segments[5] == 0 && segments[6] == 0 && segments[7] == 1;
            assert(yes ==> segments@ == seq![0u16, 0, 0, 0, 0, 0, 0, 1]);
            yes
        },
    }
}

/// No lines at all.
fn no_lines() -> (lines: Vec<String>)
    ensures
        lines.deep_view() == Seq::<Seq<char>>::empty(),
{
    let lines: Vec<String> = Vec::new();
    assert(lines.deep_view() == Seq::<Seq<char>>::empty());
    lines
}

/// Runs `herdr web` up to its first look at the outside world. `args` is what
/// follows `herdr web`.
pub fn run_web_command(args: &[String], env: &WebEnv) -> (step: Step)
    ensures
        step@ == first_step(args.deep_view(), env@),
{
    match parse_args(args, env) {
        ParseResult::Run(args) => Step::ResolveBind(args),
        ParseResult::Help => Step::Exit { code: 0, stdout: web_help(), stderr: no_lines() },
        ParseResult::Refuse(refusal) => Step::Exit {
            code: refusal.code,
            stdout: no_lines(),
            stderr: refusal.lines,
        },
    }
}

/// Goes on once the bind address was resolved: `bind` is the socket address that
/// `args.bind` denotes, if it denotes one.
pub fn bind_resolved(args: WebArgs, bind: Option<BindAddr>) -> (step: Step)
    ensures
        step@ == bind_step(
            args@,
            match bind {
                Some(bind) => Some(bind@),
                None => None,
            },
        ),
        step matches Step::CheckFunnel(config) ==> {
            &&& bind == Some(config.bind)
            &&& config.herdr_bin == args.herdr_bin
            &&& config.herdr_args == args.herdr_args
            &&& config.allowed_origins == args.allowed_origins
        },
        step matches Step::Serve { config, .. } ==> {
            &&& bind == Some(config.bind)
            &&& config.herdr_bin == args.herdr_bin
            &&& config.herdr_args == args.herdr_args
            &&& config.allowed_origins == args.allowed_origins
        },
{
    let bind = match bind {
        Some(bind) => bind,
        None => {
            let line = "herdr web: invalid bind address: ".to_string().concat(args.bind.as_str());
            let stderr = vec![line];
            assert(stderr.deep_view() == seq!["herdr web: invalid bind address: "@ + args.bind@]);
            return Step::Exit { code: 2, stdout: no_lines(), stderr };
        },
    };
    if !is_loopback(&bind.ip) && !args.allow_non_loopback {
        let line = "herdr web: refusing to bind non-loopback address ".to_string().concat(
            bind.display.as_str(),
        );
        let stderr = vec![
            line,
            "  the web bridge is a full shell; front it with `tailscale serve` on loopback.".to_string(),
            "  pass --allow-non-loopback only if you have another auth layer in front.".to_string(),
        ];
        assert(stderr.deep_view() == seq![
            "herdr web: refusing to bind non-loopback address "@ + bind.display@,
            "  the web bridge is a full shell; front it with `tailscale serve` on loopback."@,
            "  pass --allow-non-loopback only if you have another auth layer in front."@,
        ]);
        return Step::Exit { code: 2, stdout: no_lines(), stderr };
    }
    let config = WebConfig {
        bind,
        herdr_bin: args.herdr_bin,
        herdr_args: args.herdr_args,
        allow_non_loopback: args.allow_non_loopback,
        allow_funnel: args.allow_funnel,
        allowed_origins: args.allowed_origins,
        allow_any_origin: args.allow_any_origin,
    };
    if !config.allow_funnel {
        Step::CheckFunnel(config)
    } else {
        Step::Serve { config, warnings: no_lines() }
    }
}

/// Goes on once tailscale was asked about the funnel.
pub fn funnel_checked(config: WebConfig, check: FunnelCheck) -> (step: Step)
    ensures
        step@ == funnel_step(config@, check),
        step matches Step::Serve { config: served, .. } ==> served == config,
{
    match check {
        FunnelCheck::Active => {
            let stderr = vec![
                "herdr web: refusing to start — `tailscale funnel` is active on this node.".to_string(),
                "  funnel publishes to the PUBLIC internet; this bridge is a full shell.".to_string(),
                "  use `tailscale serve` (tailnet-only), or pass --allow-funnel to override.".to_string(),
            ];
            assert(stderr.deep_view() == seq![
                "herdr web: refusing to start — `tailscale funnel` is active on this node."@,
                "  funnel publishes to the PUBLIC internet; this bridge is a full shell."@,
                "  use `tailscale serve` (tailnet-only), or pass --allow-funnel to override."@,
            ]);
            Step::Exit { code: 2, stdout: no_lines(), stderr }
        },
        FunnelCheck::Inactive => Step::Serve { config, warnings: no_lines() },
        FunnelCheck::Unknown => {
            let warnings = vec![
                "herdr web: could not verify tailscale funnel state; ensure you front this with `tailscale serve` (tailnet-only), NOT `tailscale funnel`.".to_string(),
            ];
            assert(warnings.deep_view() == seq![
                "herdr web: could not verify tailscale funnel state; ensure you front this with `tailscale serve` (tailnet-only), NOT `tailscale funnel`."@,
            ]);
            Step::Serve { config, warnings }
        },
    }
}

/// Where a whole start ends: `bind` is what the bind address resolves to, `check`
/// is what tailscale says, if it comes to that.
pub open spec fn startup(
    args: Seq<Seq<char>>,
    env: EnvView,
    bind: Option<BindView>,
    check: FunnelCheck,
) -> StepView {
    match first_step(args, env) {
        StepView::ResolveBind(args) => match bind_step(args, bind) {
            StepView::CheckFunnel(config) => funnel_step(config, check),
            step => step,
        },
        step => step,
    }
}

/// With a command line that is in order, the bridge serves exactly where the bind
/// address resolves, that address is a loopback one, and the funnel is not known to
/// be active, unless an option lifts the one guard or the other by name.
pub proof fn lemma_served_exactly_behind_the_guards(
    args: Seq<Seq<char>>,
    env: EnvView,
    bind: Option<BindView>,
    check: FunnelCheck,
)
    requires
        args::parsed(args, args::defaults(env)) is Run,
    ensures
        startup(args, env, bind, check) is Serve <==> {
            &&& bind is Some
            &&& loopback(bind->0.ip) || args::options(args).contains("--allow-non-loopback"@)
            &&& check != FunnelCheck::Active || args::options(args).contains("--allow-funnel"@)
        },
        startup(args, env, bind, check) matches StepView::Serve { config, .. } ==> {
            &&& bind == Some(config.bind)
            &&& config.allow_any_origin <==> args::options(args).contains("--allow-any-origin"@)
        },
{
    args::lemma_guards_are_on_unless_switched_off(args, args::defaults(env));
}

/// Where the command line is not in order, or asks for help, nothing is served.
pub proof fn lemma_not_served_without_a_command(
    args: Seq<Seq<char>>,
    env: EnvView,
    bind: Option<BindView>,
    check: FunnelCheck,
)
    requires
        !(args::parsed(args, args::defaults(env)) is Run),
    ensures
        startup(args, env, bind, check) is Exit,
{
}

/// A start ends in an exit or in serving. It exits with code 0 for the help text
/// alone, and with code 2, and at least one line of explanation, otherwise.
pub proof fn lemma_start_ends(
    args: Seq<Seq<char>>,
    env: EnvView,
    bind: Option<BindView>,
    check: FunnelCheck,
)
    ensures
        match startup(args, env, bind, check) {
            StepView::Exit { code, stdout, stderr } => {
                ||| code == 0 && stdout == args::help_text() && stderr.len() == 0
                ||| code == 2 && stdout.len() == 0 && stderr.len() > 0
            },
            StepView::Serve { .. } => true,
            _ => false,
        },
{
    lemma_refusals(args, args::defaults(env));
}

proof fn lemma_refusals(args: Seq<Seq<char>>, sofar: ArgsView)
    ensures
        args::parsed(args, sofar) matches ParseView::Refuse(refusal) ==> refusal.code == 2
            && refusal.lines.len() == 1,
    decreases args.len(),
{
    if args.len() > 0 {
        let one = args.skip(1);
        lemma_refusals(one, ArgsView { allow_non_loopback: true, ..sofar });
        lemma_refusals(one, ArgsView { allow_funnel: true, ..sofar });
        lemma_refusals(one, ArgsView { allow_any_origin: true, ..sofar });
        if args.len() > 1 {
            let two = args.skip(2);
            lemma_refusals(two, ArgsView { bind: args[1], ..sofar });
            lemma_refusals(two, ArgsView { herdr_bin: BinView::Path(args[1]), ..sofar });
            lemma_refusals(
                two,
                ArgsView { allowed_origins: sofar.allowed_origins.push(args[1]), ..sofar },
            );
        }
    }
}

/// Of version 4 exactly the addresses that start with 127 are loopback ones; of version
/// 6 there is one, whose segments are zero up to the last, which is 1.
pub proof fn lemma_loopback(octets: Seq<u8>, segments: Seq<u16>)
    requires
        octets.len() == 4,
        segments.len() == 8,
    ensures
        loopback(IpView::V4(octets)) <==> octets[0] == 127,
        loopback(IpView::V6(segments)) <==> segments[7] == 1 && forall|i: int|
            0 <= i < 7 ==> #[trigger] segments[i] == 0,
{
    let only = seq![0u16, 0, 0, 0, 0, 0, 0, 1];
    if segments[7] == 1 && forall|i: int| 0 <= i < 7 ==> #[trigger] segments[i] == 0 {
        assert(segments == only);
    }
}

/// What was asked for is what is configured, item by item, whether tailscale has still to
/// be asked or not; and asking it changes nothing.
pub proof fn lemma_configured_as_asked(asked: ArgsView, bind: BindView, check: FunnelCheck)
    ensures
        ({
            let step = bind_step(asked, Some(bind));
            let config = match step {
                StepView::CheckFunnel(config) => config,
                step => step->config,
            };
            step is CheckFunnel || step is Serve ==> {
                &&& config.bind == bind
                &&& config.herdr_bin == asked.herdr_bin
                &&& config.herdr_args == asked.herdr_args
                &&& config.allow_non_loopback == asked.allow_non_loopback
                &&& config.allow_funnel == asked.allow_funnel
                &&& config.allowed_origins == asked.allowed_origins
                &&& config.allow_any_origin == asked.allow_any_origin
                &&& funnel_step(config, check) is Serve ==> funnel_step(config, check)->config
                    == config
            }
        }),
        bind_step(asked, Some(bind)) is CheckFunnel <==> (loopback(bind.ip)
            || asked.allow_non_loopback) && !asked.allow_funnel,
        bind_step(asked, Some(bind)) is Serve <==> (loopback(bind.ip) || asked.allow_non_loopback)
            && asked.allow_funnel,
{
}

/// The bridge serves what the command line asked for, read on top of the environment:
/// the binary that it spawns, the arguments that it hands to it, and whom it trusts.
pub proof fn lemma_serves_what_was_asked_for(
    args: Seq<Seq<char>>,
    env: EnvView,
    bind: Option<BindView>,
    check: FunnelCheck,
)
    requires
        args::parsed(args, args::defaults(env)) is Run,
    ensures
        ({
            let asked = args::parsed(args, args::defaults(env))->Run_0;
            &&& first_step(args, env) == StepView::ResolveBind(asked)
            &&& startup(args, env, bind, check) matches StepView::Serve { config, .. } ==> {
                &&& bind == Some(config.bind)
                &&& config.herdr_bin == asked.herdr_bin
                &&& config.herdr_args == asked.herdr_args
                &&& config.allowed_origins == asked.allowed_origins
                &&& config.allow_any_origin == asked.allow_any_origin
                &&& config.allow_non_loopback == asked.allow_non_loopback
                &&& config.allow_funnel == asked.allow_funnel
            }
        }),
{
    if bind is Some {
        lemma_configured_as_asked(
            args::parsed(args, args::defaults(env))->Run_0,
            bind->0,
            check,
        );
    }
}

/// What follows `--` reaches the spawned herdr, verbatim and in order, and decides nothing
/// about the start itself.
pub proof fn lemma_herdr_gets_what_is_passed_on(
    args: Seq<Seq<char>>,
    passed: Seq<Seq<char>>,
    env: EnvView,
    bind: Option<BindView>,
    check: FunnelCheck,
)
    requires
        !args::has_separator(args),
        args::parsed(args, args::defaults(env)) is Run,
    ensures
        ({
            let alone = startup(args, env, bind, check);
            let step = startup(args + seq!["--"@] + passed, env, bind, check);
            &&& step is Serve <==> alone is Serve
            &&& step matches StepView::Serve { config, warnings } ==> {
                &&& config.herdr_args == passed
                &&& config.herdr_bin == alone->config.herdr_bin
                &&& config.allowed_origins == alone->config.allowed_origins
                &&& config.allow_any_origin == alone->config.allow_any_origin
                &&& warnings == alone->warnings
            }
            &&& step is Exit ==> step == alone
        }),
{
    let all = args + seq!["--"@] + passed;
    args::lemma_passed_on(args, passed, args::defaults(env));
    args::lemma_defaults(env);
    assert(args::defaults(env).herdr_args + passed == passed);
    lemma_serves_what_was_asked_for(args, env, bind, check);
    lemma_serves_what_was_asked_for(all, env, bind, check);
}

/// A start that exits says why, and how to go on: an address that is none, or that is
/// routable, is named, and so is the option that lifts the guard in the way. Help goes to
/// the standard output, everything else to the standard error.
pub proof fn lemma_exits_are_explained(
    args: Seq<Seq<char>>,
    env: EnvView,
    asked: ArgsView,
    bind: BindView,
    config: ConfigView,
)
    ensures
        args::parsed(args, args::defaults(env)) is Help ==> first_step(args, env) == (
        StepView::Exit { code: 0, stdout: args::help_text(), stderr: Seq::empty() }),
        args::parsed(args, args::defaults(env)) matches ParseView::Refuse(refusal) ==> first_step(
            args,
            env,
        ) == (StepView::Exit { code: refusal.code, stdout: Seq::empty(), stderr: refusal.lines }),
        bind_step(asked, None) == (StepView::Exit {
            code: 2,
            stdout: Seq::empty(),
            stderr: seq!["herdr web: invalid bind address: "@ + asked.bind],
        }),
        !loopback(bind.ip) && !asked.allow_non_loopback ==> bind_step(asked, Some(bind)) == (
        StepView::Exit {
            code: 2,
            stdout: Seq::empty(),
            stderr: seq![
                "herdr web: refusing to bind non-loopback address "@ + bind.display,
                "  the web bridge is a full shell; front it with `tailscale serve` on loopback."@,
                "  pass --allow-non-loopback only if you have another auth layer in front."@,
            ],
        }),
        funnel_step(config, FunnelCheck::Active) == (StepView::Exit {
            code: 2,
            stdout: Seq::empty(),
            stderr: seq![
                "herdr web: refusing to start — `tailscale funnel` is active on this node."@,
                "  funnel publishes to the PUBLIC internet; this bridge is a full shell."@,
                "  use `tailscale serve` (tailnet-only), or pass --allow-funnel to override."@,
            ],
        }),
{
}

/// The bridge warns exactly where it serves without knowing about the funnel, and it was
/// not told that the funnel is fine.
pub proof fn lemma_warns_of_the_unknown(
    args: Seq<Seq<char>>,
    env: EnvView,
    bind: Option<BindView>,
    check: FunnelCheck,
)
    ensures
        startup(args, env, bind, check) matches StepView::Serve { config, warnings } ==> {
            if check == FunnelCheck::Unknown && !config.allow_funnel {
                warnings
                    == seq![
                    "herdr web: could not verify tailscale funnel state; ensure you front this with `tailscale serve` (tailnet-only), NOT `tailscale funnel`."@,
                ]
            } else {
                warnings.len() == 0
            }
        },
{
}

} // verus!
