//! The `herdr web` command line: options, environment defaults and help text.

use vstd::prelude::*;
use crate::text;

verus! {

/// The address that the bridge listens on unless it is told otherwise.
pub const DEFAULT_BIND: &'static str = "127.0.0.1:7681";

/// The binary that is spawned where this process cannot tell its own path.
pub const FALLBACK_HERDR_BIN: &'static str = "herdr";

/// The values of the environment variables that `herdr web` reads. `None` stands
/// for one that is not set, or does not hold Unicode.
pub struct WebEnv {
    /// `HERDR_WEB_BIND`
    pub bind: Option<String>,
    /// `HERDR_WEB_HERDR_BIN`
    pub herdr_bin: Option<String>,
    /// `HERDR_WEB_ALLOWED_ORIGINS`, comma-separated
    pub allowed_origins: Option<String>,
}

/// The herdr binary to spawn per connection.
#[derive(Debug, PartialEq, Eq)]
pub enum HerdrBin {
    /// The binary at this path.
    Path(String),
    /// The binary of this process, or `FALLBACK_HERDR_BIN` where its path is not
    /// known.
    ThisBinary,
}

/// What the command line asks for, with the bind address still as it was given.
#[derive(Debug, PartialEq, Eq)]
pub struct WebArgs {
    pub bind: String,
    pub herdr_bin: HerdrBin,
    pub herdr_args: Vec<String>,
    pub allow_non_loopback: bool,
    pub allow_funnel: bool,
    pub allowed_origins: Vec<String>,
    pub allow_any_origin: bool,
}

/// A reason not to start: the exit code and what is written to the standard
/// error, line by line.
#[derive(Debug, PartialEq, Eq)]
pub struct Refusal {
    pub code: i32,
    pub lines: Vec<String>,
}

/// The outcome of reading the command line.
#[derive(Debug, PartialEq, Eq)]
pub enum ParseResult {
    Run(WebArgs),
    Help,
    Refuse(Refusal),
}

/// `WebEnv` by its characters.
pub ghost struct EnvView {
    pub bind: Option<Seq<char>>,
    pub herdr_bin: Option<Seq<char>>,
    pub allowed_origins: Option<Seq<char>>,
}

/// `HerdrBin` by its characters.
pub ghost enum BinView {
    Path(Seq<char>),
    ThisBinary,
}

/// `WebArgs` by its characters.
pub ghost struct ArgsView {
    pub bind: Seq<char>,
    pub herdr_bin: BinView,
    pub herdr_args: Seq<Seq<char>>,
    pub allow_non_loopback: bool,
    pub allow_funnel: bool,
    pub allowed_origins: Seq<Seq<char>>,
    pub allow_any_origin: bool,
}

/// `Refusal` by its characters.
pub ghost struct RefusalView {
    pub code: i32,
    pub lines: Seq<Seq<char>>,
}

/// `ParseResult` by its characters.
pub ghost enum ParseView {
    Run(ArgsView),
    Help,
    Refuse(RefusalView),
}

impl View for WebEnv {
    type V = EnvView;

    open spec fn view(&self) -> EnvView {
        EnvView {
            bind: self.bind.deep_view(),
            herdr_bin: self.herdr_bin.deep_view(),
            allowed_origins: self.allowed_origins.deep_view(),
        }
    }
}

impl View for HerdrBin {
    type V = BinView;

    open spec fn view(&self) -> BinView {
        match *self {
            HerdrBin::Path(path) => BinView::Path(path@),
            HerdrBin::ThisBinary => BinView::ThisBinary,
        }
    }
}

impl View for WebArgs {
    type V = ArgsView;

    open spec fn view(&self) -> ArgsView {
        ArgsView {
            bind: self.bind@,
            herdr_bin: self.herdr_bin@,
            herdr_args: self.herdr_args.deep_view(),
            allow_non_loopback: self.allow_non_loopback,
            allow_funnel: self.allow_funnel,
            allowed_origins: self.allowed_origins.deep_view(),
            allow_any_origin: self.allow_any_origin,
        }
    }
}

impl View for Refusal {
    type V = RefusalView;

    open spec fn view(&self) -> RefusalView {
        RefusalView { code: self.code, lines: self.lines.deep_view() }
    }
}

impl View for ParseResult {
    type V = ParseView;

    open spec fn view(&self) -> ParseView {
        match *self {
            ParseResult::Run(args) => ParseView::Run(args@),
            ParseResult::Help => ParseView::Help,
            ParseResult::Refuse(refusal) => ParseView::Refuse(refusal@),
        }
    }
}

/// The origins in a comma-separated list: trimmed, empty ones left out.
pub open spec fn origin_list(list: Seq<char>) -> Seq<Seq<char>> {
    text::pieces(list, ',').map_values(|piece: Seq<char>| text::trimmed(piece)).filter(
        |origin: Seq<char>| origin.len() > 0,
    )
}

/// The binary to spawn unless the command line names one: an empty variable
/// counts as one that is not set.
pub open spec fn default_bin(variable: Option<Seq<char>>) -> BinView {
    match variable {
        Some(path) if path.len() > 0 => BinView::Path(path),
        _ => BinView::ThisBinary,
    }
}

/// What `herdr web` without arguments asks for.
pub open spec fn defaults(env: EnvView) -> ArgsView {
    ArgsView {
        bind: match env.bind {
            Some(bind) if bind.len() > 0 => bind,
            _ => DEFAULT_BIND@,
        },
        herdr_bin: default_bin(env.herdr_bin),
        herdr_args: Seq::empty(),
        allow_non_loopback: false,
        allow_funnel: false,
        allowed_origins: match env.allowed_origins {
            Some(list) => origin_list(list),
            None => Seq::empty(),
        },
        allow_any_origin: false,
    }
}

/// A refusal with one line.
pub open spec fn refusal(line: Seq<char>) -> RefusalView {
    RefusalView { code: 2, lines: seq![line] }
}

/// The refusal of an option that lacks its value.
pub open spec fn missing_value(option: Seq<char>) -> ParseView {
    ParseView::Refuse(refusal("herdr web: missing value for "@ + option))
}

/// The refusal of an option that there is not.
pub open spec fn unknown_option(option: Seq<char>) -> ParseView {
    ParseView::Refuse(refusal("herdr web: unknown option: "@ + option))
}

/// A request for the help text.
pub open spec fn help_flag(arg: Seq<char>) -> bool {
    arg == "help"@ || arg == "--help"@ || arg == "-h"@
}

/// What the arguments make of the options read so far. They are read from left
/// to right, and the first that asks for help, is unknown or lacks its value
/// decides. An option that takes a value takes the next argument, whatever it
/// is. All that follows `--` is for the spawned herdr.
pub open spec fn parsed(args: Seq<Seq<char>>, sofar: ArgsView) -> ParseView
    decreases args.len(),
{
    if args.len() == 0 {
        ParseView::Run(sofar)
    } else if help_flag(args[0]) {
        ParseView::Help
    } else if args[0] == "--bind"@ {
        if args.len() == 1 {
            missing_value("--bind"@)
        } else {
            parsed(args.skip(2), ArgsView { bind: args[1], ..sofar })
        }
    } else if args[0] == "--herdr-bin"@ {
        if args.len() == 1 {
            missing_value("--herdr-bin"@)
        } else {
            parsed(args.skip(2), ArgsView { herdr_bin: BinView::Path(args[1]), ..sofar })
        }
    } else if args[0] == "--allowed-origin"@ {
        if args.len() == 1 {
            missing_value("--allowed-origin"@)
        } else {
            parsed(
                args.skip(2),
                ArgsView { allowed_origins: sofar.allowed_origins.push(args[1]), ..sofar },
            )
        }
    } else if args[0] == "--allow-non-loopback"@ {
        parsed(args.skip(1), ArgsView { allow_non_loopback: true, ..sofar })
    } else if args[0] == "--allow-funnel"@ {
        parsed(args.skip(1), ArgsView { allow_funnel: true, ..sofar })
    } else if args[0] == "--allow-any-origin"@ {
        parsed(args.skip(1), ArgsView { allow_any_origin: true, ..sofar })
    } else if args[0] == "--"@ {
        ParseView::Run(ArgsView { herdr_args: sofar.herdr_args + args.skip(1), ..sofar })
    } else {
        unknown_option(args[0])
    }
}

/// The origins in a comma-separated list.
fn split_origins(list: &str) -> (origins: Vec<String>)
    ensures
        origins.deep_view() == origin_list(list@),
{
    let parts = text::split(list, ',');
    let mut origins: Vec<String> = Vec::new();
    let ghost inner = parts.deep_view().map_values(|piece: Seq<char>| text::trimmed(piece));
    let ghost some = |origin: Seq<char>| origin.len() > 0;
    assert(origins.deep_view() == inner.take(0).filter(some)) by {
        reveal(Seq::filter);
    }
    for i in 0..parts.len()
        invariant
            inner == parts.deep_view().map_values(|piece: Seq<char>| text::trimmed(piece)),
            some == (|origin: Seq<char>| origin.len() > 0),
            origins.deep_view() == inner.take(i as int).filter(some),
    {
        let ghost before = origins.deep_view();
        let origin = text::trim(parts[i].as_str());
        assert(origin@ == inner[i as int]);
        assert(inner.take(i + 1).drop_last() == inner.take(i as int));
        if !origin.as_str().is_empty() {
            origins.push(origin);
            assert(origins.deep_view() == before.push(inner[i as int]));
        }
        assert(origins.deep_view() == inner.take(i + 1).filter(some)) by {
            reveal(Seq::filter);
        }
    }
    assert(inner.take(inner.len() as int) == inner);
    origins
}

/// The binary to spawn unless the command line names one.
pub fn default_herdr_bin(variable: &Option<String>) -> (bin: HerdrBin)
    ensures
        bin@ == default_bin(variable.deep_view()),
{
    match variable {
        Some(path) if !path.as_str().is_empty() => HerdrBin::Path(path.clone()),
        _ => HerdrBin::ThisBinary,
    }
}

/// A refusal with one line, made of a message and the option that it is about.
fn refuse(message: &str, option: &str) -> (result: ParseResult)
    ensures
        result@ == ParseView::Refuse(refusal(message@ + option@)),
{
    let line = message.to_string().concat(option);
    let lines = vec![line];
    assert(lines.deep_view() == seq![message@ + option@]);
    ParseResult::Refuse(Refusal { code: 2, lines })
}

/// Reads the command line. `args` is what follows `herdr web`.
pub fn parse_args(args: &[String], env: &WebEnv) -> (result: ParseResult)
    ensures
        result@ == parsed(args.deep_view(), defaults(env@)),
{
    let bind = match &env.bind {
        Some(bind) if !bind.as_str().is_empty() => bind.clone(),
        _ => DEFAULT_BIND.to_string(),
    };
    let allowed_origins = match &env.allowed_origins {
        Some(list) => split_origins(list.as_str()),
        None => Vec::new(),
    };
    let mut config = WebArgs {
        bind,
        herdr_bin: default_herdr_bin(&env.herdr_bin),
        herdr_args: Vec::new(),
        allow_non_loopback: false,
        allow_funnel: false,
        allowed_origins,
        allow_any_origin: false,
    };
    let ghost all = args.deep_view();
    assert(config.herdr_args.deep_view() == Seq::<Seq<char>>::empty());
    assert(env.allowed_origins is None ==> config.allowed_origins.deep_view() == Seq::<
        Seq<char>,
    >::empty());
    assert(config@ == defaults(env@));
    assert(all.skip(0) == all);
    let mut i: usize = 0;
    while i < args.len()
        invariant
            i <= args@.len(),
            all == args.deep_view(),
            parsed(all, defaults(env@)) == parsed(all.skip(i as int), config@),
        decreases args@.len() - i,
    {
        let arg = args[i].as_str();
        let ghost rest = all.skip(i as int);
        assert(rest[0] == arg@);
        assert(rest.skip(1) == all.skip(i + 1));
        let last = i + 1 == args.len();
        if !last {
            assert(rest[1] == args@[i + 1]@);
            assert(rest.skip(2) == all.skip(i + 2));
        }
        if text::same_text(arg, "help") || text::same_text(arg, "--help") || text::same_text(
            arg,
            "-h",
        ) {
            return ParseResult::Help;
        } else if text::same_text(arg, "--bind") {
            if last {
                return refuse("herdr web: missing value for ", "--bind");
            }
            config.bind = args[i + 1].clone();
            i = i + 2;
        } else if text::same_text(arg, "--herdr-bin") {
            if last {
                return refuse("herdr web: missing value for ", "--herdr-bin");
            }
            config.herdr_bin = HerdrBin::Path(args[i + 1].clone());
            i = i + 2;
        } else if text::same_text(arg, "--allowed-origin") {
            if last {
                return refuse("herdr web: missing value for ", "--allowed-origin");
            }
            let ghost before = config.allowed_origins.deep_view();
            config.allowed_origins.push(args[i + 1].clone());
            assert(config.allowed_origins.deep_view() == before.push(rest[1]));
            i = i + 2;
        } else if text::same_text(arg, "--allow-non-loopback") {
            config.allow_non_loopback = true;
            i = i + 1;
        } else if text::same_text(arg, "--allow-funnel") {
            config.allow_funnel = true;
            i = i + 1;
        } else if text::same_text(arg, "--allow-any-origin") {
            config.allow_any_origin = true;
            i = i + 1;
        } else if text::same_text(arg, "--") {
            let ghost before = config@;
            let mut k = i + 1;
            while k < args.len()
                invariant
                    i < k <= args@.len(),
                    all == args.deep_view(),
                    config@ == (ArgsView {
                        herdr_args: before.herdr_args + all.subrange(i + 1, k as int),
                        ..before
                    }),
                decreases args@.len() - k,
            {
                let ghost passed = config.herdr_args.deep_view();
                config.herdr_args.push(args[k].clone());
                assert(config.herdr_args.deep_view() == passed.push(all[k as int]));
                assert(all.subrange(i + 1, k + 1) == all.subrange(i + 1, k as int).push(
                    all[k as int],
                ));
                k = k + 1;
            }
            assert(all.subrange(i + 1, k as int) == rest.skip(1));
            return ParseResult::Run(config);
        } else {
            return refuse("herdr web: unknown option: ", arg);
        }
    }
    ParseResult::Run(config)
}

/// The help text, line by line.
pub open spec fn help_text() -> Seq<Seq<char>> {
    seq![
        "herdr web — serve a phone-friendly xterm.js terminal over a WebSocket"@,
        ""@,
        "Usage: herdr web [options] [-- <herdr args>]"@,
        ""@,
        "Front this with `tailscale serve` (tailnet-only). It is a full shell."@,
        ""@,
        "Options:"@,
        "  --bind <addr>            loopback addr to listen on (default "@ + DEFAULT_BIND@ + ")"@,
        "                           env: HERDR_WEB_BIND"@,
        "  --herdr-bin <path>       herdr binary to spawn per connection"@,
        "                           (default: this binary; env HERDR_WEB_HERDR_BIN)"@,
        "  --allowed-origin <o>     extra allowed WS Origin (repeatable)"@,
        "                           env: HERDR_WEB_ALLOWED_ORIGINS (comma-separated)"@,
        "  --allow-non-loopback     permit a routable --bind (you provide auth)"@,
        "  --allow-funnel           start even if `tailscale funnel` is active"@,
        "  --allow-any-origin       disable the same-origin WS check (unsafe)"@,
        "  -- <herdr args>          args passed to the spawned herdr (e.g. --session)"@,
    ]
}

/// The help text of `herdr web`, line by line.
pub fn web_help() -> (lines: Vec<String>)
    ensures
        lines.deep_view() == help_text(),
{
    let lines = vec![
        "herdr web — serve a phone-friendly xterm.js terminal over a WebSocket".to_string(),
        "".to_string(),
        "Usage: herdr web [options] [-- <herdr args>]".to_string(),
        "".to_string(),
        "Front this with `tailscale serve` (tailnet-only). It is a full shell.".to_string(),
        "".to_string(),
        "Options:".to_string(),
        "  --bind <addr>            loopback addr to listen on (default ".to_string().concat(
            DEFAULT_BIND,
        ).concat(")"),
        "                           env: HERDR_WEB_BIND".to_string(),
        "  --herdr-bin <path>       herdr binary to spawn per connection".to_string(),
        "                           (default: this binary; env HERDR_WEB_HERDR_BIN)".to_string(),
        "  --allowed-origin <o>     extra allowed WS Origin (repeatable)".to_string(),
        "                           env: HERDR_WEB_ALLOWED_ORIGINS (comma-separated)".to_string(),
        "  --allow-non-loopback     permit a routable --bind (you provide auth)".to_string(),
        "  --allow-funnel           start even if `tailscale funnel` is active".to_string(),
        "  --allow-any-origin       disable the same-origin WS check (unsafe)".to_string(),
        "  -- <herdr args>          args passed to the spawned herdr (e.g. --session)".to_string(),
    ];
    assert(lines.deep_view() == help_text());
    lines
}

/// An option that takes the next argument as its value.
pub open spec fn takes_value(arg: Seq<char>) -> bool {
    arg == "--bind"@ || arg == "--herdr-bin"@ || arg == "--allowed-origin"@
}

/// The arguments that stand as options: those before `--` that are not the value of
/// another.
pub open spec fn options(args: Seq<Seq<char>>) -> Seq<Seq<char>>
    decreases args.len(),
{
    if args.len() == 0 || args[0] == "--"@ {
        Seq::empty()
    } else if takes_value(args[0]) && args.len() > 1 {
        seq![args[0]] + options(args.skip(2))
    } else {
        seq![args[0]] + options(args.skip(1))
    }
}

proof fn lemma_options_contain(first: Seq<char>, rest: Seq<Seq<char>>, flag: Seq<char>)
    ensures
        (seq![first] + rest).contains(flag) <==> first == flag || rest.contains(flag),
{
    let all = seq![first] + rest;
    assert(all[0] == first);
    if rest.contains(flag) {
        let i = choose|i: int| 0 <= i < rest.len() && rest[i] == flag;
        assert(all[i + 1] == flag);
    }
    if all.contains(flag) && first != flag {
        let i = choose|i: int| 0 <= i < all.len() && all[i] == flag;
        assert(rest[i - 1] == flag);
    }
}

/// A guard is off exactly where the command line switches it off by name, as an
/// option: neither the value of another option nor what is passed on counts.
pub proof fn lemma_guards_are_on_unless_switched_off(args: Seq<Seq<char>>, sofar: ArgsView)
    ensures
        parsed(args, sofar) matches ParseView::Run(config) ==> {
            &&& config.allow_non_loopback <==> sofar.allow_non_loopback || options(args).contains(
                "--allow-non-loopback"@,
            )
            &&& config.allow_funnel <==> sofar.allow_funnel || options(args).contains(
                "--allow-funnel"@,
            )
            &&& config.allow_any_origin <==> sofar.allow_any_origin || options(args).contains(
                "--allow-any-origin"@,
            )
        },
    decreases args.len(),
{
    reveal_strlit("--");
    reveal_strlit("--bind");
    reveal_strlit("--herdr-bin");
    reveal_strlit("--allowed-origin");
    reveal_strlit("--allow-non-loopback");
    reveal_strlit("--allow-funnel");
    reveal_strlit("--allow-any-origin");
    assert("--allowed-origin"@.len() == 16 && "--allow-any-origin"@.len() == 18);
    assert("--bind"@.len() == 6 && "--herdr-bin"@.len() == 11 && "--"@.len() == 2);
    assert("--allow-non-loopback"@.len() == 20 && "--allow-funnel"@.len() == 14);
    if args.len() > 0 {
        let rest = if takes_value(args[0]) && args.len() > 1 {
            options(args.skip(2))
        } else {
            options(args.skip(1))
        };
        lemma_options_contain(args[0], rest, "--allow-non-loopback"@);
        lemma_options_contain(args[0], rest, "--allow-funnel"@);
        lemma_options_contain(args[0], rest, "--allow-any-origin"@);
        let one = args.skip(1);
        lemma_guards_are_on_unless_switched_off(
            one,
            ArgsView { allow_non_loopback: true, ..sofar },
        );
        lemma_guards_are_on_unless_switched_off(one, ArgsView { allow_funnel: true, ..sofar });
        lemma_guards_are_on_unless_switched_off(one, ArgsView { allow_any_origin: true, ..sofar });
        if args.len() > 1 {
            let two = args.skip(2);
            lemma_guards_are_on_unless_switched_off(two, ArgsView { bind: args[1], ..sofar });
            lemma_guards_are_on_unless_switched_off(
                two,
                ArgsView { herdr_bin: BinView::Path(args[1]), ..sofar },
            );
            lemma_guards_are_on_unless_switched_off(
                two,
                ArgsView { allowed_origins: sofar.allowed_origins.push(args[1]), ..sofar },
            );
        }
    }
}

/// `--` stands as an option among the arguments, and not as the value of another.
pub open spec fn has_separator(args: Seq<Seq<char>>) -> bool
    decreases args.len(),
{
    if args.len() == 0 {
        false
    } else if takes_value(args[0]) && args.len() > 1 {
        has_separator(args.skip(2))
    } else {
        args[0] == "--"@ || has_separator(args.skip(1))
    }
}

/// All that follows the first `--` that is not an option's value is passed on,
/// verbatim and in order, options included. What comes before it counts as it would
/// alone.
pub proof fn lemma_passed_on(args: Seq<Seq<char>>, passed: Seq<Seq<char>>, sofar: ArgsView)
    requires
        !has_separator(args),
        parsed(args, sofar) is Run,
    ensures
        parsed(args + seq!["--"@] + passed, sofar) == ParseView::Run(
            ArgsView {
                herdr_args: sofar.herdr_args + passed,
                ..parsed(args, sofar)->Run_0
            },
        ),
    decreases args.len(),
{
    let all = args + seq!["--"@] + passed;
    if args.len() == 0 {
        assert(all == seq!["--"@] + passed);
        lemma_passed_on_at_once(passed, sofar);
    } else {
        let one = args.skip(1);
        assert(all[0] == args[0]);
        assert(all.skip(1) == one + seq!["--"@] + passed);
        if takes_value(args[0]) {
            // An option without its value would have been refused.
            assert(args.len() > 1);
            let two = args.skip(2);
            assert(all[1] == args[1]);
            assert(all.skip(2) == two + seq!["--"@] + passed);
            if args[0] == "--bind"@ {
                lemma_passed_on(two, passed, ArgsView { bind: args[1], ..sofar });
            } else if args[0] == "--herdr-bin"@ {
                lemma_passed_on(
                    two,
                    passed,
                    ArgsView { herdr_bin: BinView::Path(args[1]), ..sofar },
                );
            } else {
                lemma_passed_on(
                    two,
                    passed,
                    ArgsView { allowed_origins: sofar.allowed_origins.push(args[1]), ..sofar },
                );
            }
        } else if args[0] == "--allow-non-loopback"@ {
            lemma_passed_on(one, passed, ArgsView { allow_non_loopback: true, ..sofar });
        } else if args[0] == "--allow-funnel"@ {
            lemma_passed_on(one, passed, ArgsView { allow_funnel: true, ..sofar });
        } else {
            lemma_passed_on(one, passed, ArgsView { allow_any_origin: true, ..sofar });
        }
    }
}

proof fn lemma_passed_on_at_once(passed: Seq<Seq<char>>, sofar: ArgsView)
    ensures
        parsed(seq!["--"@] + passed, sofar) == ParseView::Run(
            ArgsView { herdr_args: sofar.herdr_args + passed, ..sofar },
        ),
{
    reveal_strlit("--");
    reveal_strlit("help");
    reveal_strlit("--help");
    reveal_strlit("-h");
    reveal_strlit("--bind");
    reveal_strlit("--herdr-bin");
    reveal_strlit("--allowed-origin");
    reveal_strlit("--allow-non-loopback");
    reveal_strlit("--allow-funnel");
    reveal_strlit("--allow-any-origin");
    let args = seq!["--"@] + passed;
    assert(args[0] == "--"@);
    assert("--"@[1] != "-h"@[1]);
    assert(args.skip(1) == passed);
}

/// Options only add to the allow-list: the origins that were on it stay, in front.
pub proof fn lemma_origins_accumulate(args: Seq<Seq<char>>, sofar: ArgsView)
    ensures
        parsed(args, sofar) matches ParseView::Run(config)
            ==> sofar.allowed_origins.is_prefix_of(config.allowed_origins),
    decreases args.len(),
{
    if args.len() > 0 {
        let one = args.skip(1);
        lemma_origins_accumulate(one, ArgsView { allow_non_loopback: true, ..sofar });
        lemma_origins_accumulate(one, ArgsView { allow_funnel: true, ..sofar });
        lemma_origins_accumulate(one, ArgsView { allow_any_origin: true, ..sofar });
        if args.len() > 1 {
            let two = args.skip(2);
            let more = sofar.allowed_origins.push(args[1]);
            lemma_origins_accumulate(two, ArgsView { bind: args[1], ..sofar });
            lemma_origins_accumulate(two, ArgsView { herdr_bin: BinView::Path(args[1]), ..sofar });
            lemma_origins_accumulate(two, ArgsView { allowed_origins: more, ..sofar });
            assert(more.take(sofar.allowed_origins.len() as int) == sofar.allowed_origins);
            assert forall|all: Seq<Seq<char>>| #[trigger] more.is_prefix_of(
                all,
            ) implies sofar.allowed_origins.is_prefix_of(all) by {
                assert(all.take(more.len() as int).take(sofar.allowed_origins.len() as int)
                    == all.take(sofar.allowed_origins.len() as int));
            }
        }
    }
}

/// `--allowed-origin` may be repeated: each origin that it names is on the
/// allow-list, whatever options follow.
pub proof fn lemma_allowed_origin_is_repeatable(
    origin: Seq<char>,
    rest: Seq<Seq<char>>,
    sofar: ArgsView,
)
    ensures
        parsed(seq!["--allowed-origin"@, origin] + rest, sofar) == parsed(
            rest,
            ArgsView { allowed_origins: sofar.allowed_origins.push(origin), ..sofar },
        ),
        parsed(seq!["--allowed-origin"@, origin] + rest, sofar) matches ParseView::Run(config)
            ==> config.allowed_origins.contains(origin),
{
    reveal_strlit("--allowed-origin");
    reveal_strlit("help");
    reveal_strlit("--help");
    reveal_strlit("-h");
    reveal_strlit("--bind");
    reveal_strlit("--herdr-bin");
    let args = seq!["--allowed-origin"@, origin] + rest;
    let more = sofar.allowed_origins.push(origin);
    assert(args.skip(2) == rest);
    lemma_origins_accumulate(rest, ArgsView { allowed_origins: more, ..sofar });
    if let ParseView::Run(config) = parsed(args, sofar) {
        assert(config.allowed_origins[more.len() - 1] == more.last());
    }
}

/// Every origin in a comma-separated list is non-empty, holds no comma, and has
/// no white space at either end.
pub proof fn lemma_origin_list(list: Seq<char>)
    ensures
        forall|i: int|
            0 <= i < origin_list(list).len() ==> {
                let origin = #[trigger] origin_list(list)[i];
                &&& origin.len() > 0
                &&& !origin.contains(',')
                &&& !text::white_space(origin[0])
                &&& !text::white_space(origin.last())
            },
{
    let parts = text::pieces(list, ',');
    let inner = parts.map_values(|piece: Seq<char>| text::trimmed(piece));
    let some = |origin: Seq<char>| origin.len() > 0;
    text::lemma_pieces(list, ',');
    assert forall|i: int| 0 <= i < origin_list(list).len() implies {
        let origin = #[trigger] origin_list(list)[i];
        &&& origin.len() > 0
        &&& !origin.contains(',')
        &&& !text::white_space(origin[0])
        &&& !text::white_space(origin.last())
    } by {
        let origin = origin_list(list)[i];
        inner.lemma_filter_pred(some, i);
        inner.lemma_filter_contains_rev(some, origin);
        let k = choose|k: int| 0 <= k < inner.len() && inner[k] == origin;
        let bounds = text::lemma_trimmed(parts[k]);
        assert(!parts[k].contains(','));
        assert forall|j: int| 0 <= j < origin.len() implies origin[j] != ',' by {
            assert(origin[j] == parts[k][bounds.0 + j]);
        }
    }
}

/// The lists on either side of a comma add up.
pub proof fn lemma_origin_lists_add(before: Seq<char>, after: Seq<char>)
    ensures
        origin_list(before + seq![','] + after) == origin_list(before) + origin_list(after),
{
    let trim = |piece: Seq<char>| text::trimmed(piece);
    let some = |origin: Seq<char>| origin.len() > 0;
    let (first, second) = (text::pieces(before, ','), text::pieces(after, ','));
    text::lemma_pieces_add(before, after, ',');
    assert((first + second).map_values(trim) == first.map_values(trim) + second.map_values(trim));
    Seq::filter_distributes_over_add(first.map_values(trim), second.map_values(trim), some);
}

/// An origin with white space around it is on the list by itself, verbatim. White space
/// alone is no origin.
pub proof fn lemma_origin_list_of_one(left: Seq<char>, origin: Seq<char>, right: Seq<char>)
    requires
        forall|i: int| 0 <= i < left.len() ==> text::white_space(#[trigger] left[i]),
        forall|i: int| 0 <= i < right.len() ==> text::white_space(#[trigger] right[i]),
        !origin.contains(','),
        origin.len() > 0 ==> !text::white_space(origin[0]) && !text::white_space(origin.last()),
    ensures
        origin.len() > 0 ==> origin_list(left + origin + right) == seq![origin],
        origin.len() == 0 ==> origin_list(left + origin + right) == Seq::<Seq<char>>::empty(),
{
    let list = left + origin + right;
    let some = |origin: Seq<char>| origin.len() > 0;
    assert forall|i: int| 0 <= i < list.len() implies list[i] != ',' by {
        if i < left.len() {
            assert(list[i] == left[i]);
        } else if i < left.len() + origin.len() {
            assert(list[i] == origin[i - left.len()]);
            assert(origin.contains(origin[i - left.len()]));
        } else {
            assert(list[i] == right[i - left.len() - origin.len()]);
        }
    }
    text::lemma_one_piece(list, ',');
    text::lemma_trim(left, origin, right);
    let inner = text::pieces(list, ',').map_values(|piece: Seq<char>| text::trimmed(piece));
    assert(inner == seq![origin]);
    assert(inner.drop_last() == Seq::<Seq<char>>::empty());
    reveal(Seq::filter);
    assert(inner.drop_last().filter(some) == Seq::<Seq<char>>::empty());
    if origin.len() > 0 {
        assert(inner.filter(some) == Seq::<Seq<char>>::empty().push(origin));
        assert(seq![origin] == Seq::<Seq<char>>::empty().push(origin));
    }
}

/// Without arguments the bridge listens on loopback, spawns this binary, passes nothing
/// on, trusts nobody and keeps every guard. A variable that is set, and not empty,
/// replaces what it is about and nothing else.
pub proof fn lemma_defaults(env: EnvView)
    ensures
        ({
            let config = defaults(env);
            &&& env.bind is None || env.bind->0.len() == 0 ==> config.bind == "127.0.0.1:7681"@
            &&& env.bind is Some && env.bind->0.len() > 0 ==> config.bind == env.bind->0
            &&& env.herdr_bin is None || env.herdr_bin->0.len() == 0 ==> config.herdr_bin
                == BinView::ThisBinary
            &&& env.herdr_bin is Some && env.herdr_bin->0.len() > 0 ==> config.herdr_bin
                == BinView::Path(env.herdr_bin->0)
            &&& env.allowed_origins is None ==> config.allowed_origins.len() == 0
            &&& env.allowed_origins is Some ==> config.allowed_origins == origin_list(
                env.allowed_origins->0,
            )
            &&& config.herdr_args.len() == 0
            &&& !config.allow_non_loopback
            &&& !config.allow_funnel
            &&& !config.allow_any_origin
        }),
{
}

/// Each option does what its name says, wherever it stands among the options: it changes
/// one thing, to its value where it takes one, and the rest of the command line is read
/// as it would be without it.
pub proof fn lemma_each_option(value: Seq<char>, rest: Seq<Seq<char>>, sofar: ArgsView)
    ensures
        parsed(seq!["--bind"@, value] + rest, sofar) == parsed(
            rest,
            ArgsView { bind: value, ..sofar },
        ),
        parsed(seq!["--herdr-bin"@, value] + rest, sofar) == parsed(
            rest,
            ArgsView { herdr_bin: BinView::Path(value), ..sofar },
        ),
        parsed(seq!["--allowed-origin"@, value] + rest, sofar) == parsed(
            rest,
            ArgsView { allowed_origins: sofar.allowed_origins.push(value), ..sofar },
        ),
        parsed(seq!["--allow-non-loopback"@] + rest, sofar) == parsed(
            rest,
            ArgsView { allow_non_loopback: true, ..sofar },
        ),
        parsed(seq!["--allow-funnel"@] + rest, sofar) == parsed(
            rest,
            ArgsView { allow_funnel: true, ..sofar },
        ),
        parsed(seq!["--allow-any-origin"@] + rest, sofar) == parsed(
            rest,
            ArgsView { allow_any_origin: true, ..sofar },
        ),
        parsed(seq!["--"@] + rest, sofar) == ParseView::Run(
            ArgsView { herdr_args: sofar.herdr_args + rest, ..sofar },
        ),
        parsed(Seq::empty(), sofar) == ParseView::Run(sofar),
{
    lemma_names_differ();
    lemma_passed_on_at_once(rest, sofar);
    assert((seq!["--bind"@, value] + rest).skip(2) == rest);
    assert((seq!["--herdr-bin"@, value] + rest).skip(2) == rest);
    assert((seq!["--allowed-origin"@, value] + rest).skip(2) == rest);
    assert((seq!["--allow-non-loopback"@] + rest).skip(1) == rest);
    assert((seq!["--allow-funnel"@] + rest).skip(1) == rest);
    assert((seq!["--allow-any-origin"@] + rest).skip(1) == rest);
}

/// No two options have one name, and none is named like a request for help.
proof fn lemma_names_differ()
    ensures
        "--bind"@.len() == 6 && "--bind"@[2] == 'b',
        "--help"@.len() == 6 && "--help"@[2] == 'h',
        "help"@.len() == 4,
        "-h"@.len() == 2 && "-h"@[1] == 'h',
        "--"@.len() == 2 && "--"@[1] == '-',
        "--herdr-bin"@.len() == 11,
        "--allowed-origin"@.len() == 16,
        "--allow-non-loopback"@.len() == 20,
        "--allow-funnel"@.len() == 14,
        "--allow-any-origin"@.len() == 18,
{
    reveal_strlit("--");
    reveal_strlit("help");
    reveal_strlit("--help");
    reveal_strlit("-h");
    reveal_strlit("--bind");
    reveal_strlit("--herdr-bin");
    reveal_strlit("--allowed-origin");
    reveal_strlit("--allow-non-loopback");
    reveal_strlit("--allow-funnel");
    reveal_strlit("--allow-any-origin");
}

/// A request for help is answered before anything that follows it is read. An option
/// without its value, and a name that is no option's, are refused with code 2 and one
/// line that says which it is.
pub proof fn lemma_first_decides(first: Seq<char>, rest: Seq<Seq<char>>, sofar: ArgsView)
    ensures
        first == "help"@ || first == "--help"@ || first == "-h"@ ==> parsed(
            seq![first] + rest,
            sofar,
        ) == ParseView::Help,
        first == "--bind"@ || first == "--herdr-bin"@ || first == "--allowed-origin"@ ==> parsed(
            seq![first],
            sofar,
        ) == ParseView::Refuse(
            RefusalView { code: 2, lines: seq!["herdr web: missing value for "@ + first] },
        ),
        first != "help"@ && first != "--help"@ && first != "-h"@ && first != "--bind"@ && first
            != "--herdr-bin"@ && first != "--allowed-origin"@ && first != "--allow-non-loopback"@
            && first != "--allow-funnel"@ && first != "--allow-any-origin"@ && first != "--"@
            ==> parsed(seq![first] + rest, sofar) == ParseView::Refuse(
            RefusalView { code: 2, lines: seq!["herdr web: unknown option: "@ + first] },
        ),
{
    lemma_names_differ();
    assert((seq![first] + rest)[0] == first);
}

/// A command line that is in order is read piece by piece: what follows it is read on top
/// of what it asked for. So a later option overrides an earlier one of its name, or adds
/// to it.
pub proof fn lemma_options_add(args: Seq<Seq<char>>, more: Seq<Seq<char>>, sofar: ArgsView)
    requires
        !has_separator(args),
        parsed(args, sofar) is Run,
    ensures
        parsed(args + more, sofar) == parsed(more, parsed(args, sofar)->Run_0),
    decreases args.len(),
{
    let all = args + more;
    if args.len() == 0 {
        assert(all == more);
    } else {
        let one = args.skip(1);
        assert(all[0] == args[0]);
        assert(all.skip(1) == one + more);
        if takes_value(args[0]) {
            assert(args.len() > 1);
            let two = args.skip(2);
            assert(all[1] == args[1]);
            assert(all.skip(2) == two + more);
            if args[0] == "--bind"@ {
                lemma_options_add(two, more, ArgsView { bind: args[1], ..sofar });
            } else if args[0] == "--herdr-bin"@ {
                lemma_options_add(
                    two,
                    more,
                    ArgsView { herdr_bin: BinView::Path(args[1]), ..sofar },
                );
            } else {
                lemma_options_add(
                    two,
                    more,
                    ArgsView { allowed_origins: sofar.allowed_origins.push(args[1]), ..sofar },
                );
            }
        } else if args[0] == "--allow-non-loopback"@ {
            lemma_options_add(one, more, ArgsView { allow_non_loopback: true, ..sofar });
        } else if args[0] == "--allow-funnel"@ {
            lemma_options_add(one, more, ArgsView { allow_funnel: true, ..sofar });
        } else {
            lemma_options_add(one, more, ArgsView { allow_any_origin: true, ..sofar });
        }
    }
}

/// Some line of the help text holds this.
pub open spec fn help_says(what: Seq<char>) -> bool {
    exists|line: int, i: int|
        0 <= line < help_text().len() && #[trigger] text::occurs_at(help_text()[line], what, i)
}

proof fn lemma_help_says(line: int, what: Seq<char>, i: int)
    requires
        0 <= line < help_text().len(),
        text::occurs_at(help_text()[line], what, i),
    ensures
        help_says(what),
{
}

/// The help text names every option that there is, every variable that is read, and the
/// address that is listened on by default.
pub proof fn lemma_help_is_complete()
    ensures
        help_says("--bind"@),
        help_says("--herdr-bin"@),
        help_says("--allowed-origin"@),
        help_says("--allow-non-loopback"@),
        help_says("--allow-funnel"@),
        help_says("--allow-any-origin"@),
        help_says("-- <herdr args>"@),
        help_says("HERDR_WEB_BIND"@),
        help_says("HERDR_WEB_HERDR_BIN"@),
        help_says("HERDR_WEB_ALLOWED_ORIGINS"@),
        help_says("127.0.0.1:7681"@),
{
    let lines = help_text();
    reveal_strlit("--bind");
    reveal_strlit("127.0.0.1:7681");
    reveal_strlit("  --bind <addr>            loopback addr to listen on (default ");
    reveal_strlit(")");
    assert(lines[7].subrange(2, 8) == "--bind"@);
    lemma_help_says(7, "--bind"@, 2);
    let end = "  --bind <addr>            loopback addr to listen on (default "@.len() as int;
    assert(lines[7].subrange(end, end + 14) == "127.0.0.1:7681"@);
    lemma_help_says(7, "127.0.0.1:7681"@, end);
    reveal_strlit("HERDR_WEB_BIND");
    reveal_strlit("                           env: HERDR_WEB_BIND");
    assert(lines[8].subrange(32, 46) == "HERDR_WEB_BIND"@);
    lemma_help_says(8, "HERDR_WEB_BIND"@, 32);
    reveal_strlit("--herdr-bin");
    reveal_strlit("  --herdr-bin <path>       herdr binary to spawn per connection");
    assert(lines[9].subrange(2, 13) == "--herdr-bin"@);
    lemma_help_says(9, "--herdr-bin"@, 2);
    reveal_strlit("HERDR_WEB_HERDR_BIN");
    reveal_strlit("                           (default: this binary; env HERDR_WEB_HERDR_BIN)");
    assert(lines[10].subrange(54, 73) == "HERDR_WEB_HERDR_BIN"@);
    lemma_help_says(10, "HERDR_WEB_HERDR_BIN"@, 54);
    reveal_strlit("--allowed-origin");
    reveal_strlit("  --allowed-origin <o>     extra allowed WS Origin (repeatable)");
    assert(lines[11].subrange(2, 18) == "--allowed-origin"@);
    lemma_help_says(11, "--allowed-origin"@, 2);
    reveal_strlit("HERDR_WEB_ALLOWED_ORIGINS");
    reveal_strlit("                           env: HERDR_WEB_ALLOWED_ORIGINS (comma-separated)");
    assert(lines[12].subrange(32, 57) == "HERDR_WEB_ALLOWED_ORIGINS"@);
    lemma_help_says(12, "HERDR_WEB_ALLOWED_ORIGINS"@, 32);
    reveal_strlit("--allow-non-loopback");
    reveal_strlit("  --allow-non-loopback     permit a routable --bind (you provide auth)");
    assert(lines[13].subrange(2, 22) == "--allow-non-loopback"@);
    lemma_help_says(13, "--allow-non-loopback"@, 2);
    reveal_strlit("--allow-funnel");
    reveal_strlit("  --allow-funnel           start even if `tailscale funnel` is active");
    assert(lines[14].subrange(2, 16) == "--allow-funnel"@);
    lemma_help_says(14, "--allow-funnel"@, 2);
    reveal_strlit("--allow-any-origin");
    reveal_strlit("  --allow-any-origin       disable the same-origin WS check (unsafe)");
    assert(lines[15].subrange(2, 20) == "--allow-any-origin"@);
    lemma_help_says(15, "--allow-any-origin"@, 2);
    reveal_strlit("-- <herdr args>");
    reveal_strlit("  -- <herdr args>          args passed to the spawned herdr (e.g. --session)");
    assert(lines[16].subrange(2, 17) == "-- <herdr args>"@);
    lemma_help_says(16, "-- <herdr args>"@, 2);
}

/// The help text says what the command is and how it is called, and explains each option
/// beside its name.
pub proof fn lemma_help_explains_the_options()
    ensures
        help_text().len() == 17,
        help_text()[0] == "herdr web — serve a phone-friendly xterm.js terminal over a WebSocket"@,
        help_text()[2] == "Usage: herdr web [options] [-- <herdr args>]"@,
        help_text()[4] == "Front this with `tailscale serve` (tailnet-only). It is a full shell."@,
        help_text()[9] == "  --herdr-bin <path>       herdr binary to spawn per connection"@,
        help_text()[10] == "                           (default: this binary; env HERDR_WEB_HERDR_BIN)"@,
        help_text()[11] == "  --allowed-origin <o>     extra allowed WS Origin (repeatable)"@,
        help_text()[12] == "                           env: HERDR_WEB_ALLOWED_ORIGINS (comma-separated)"@,
        help_text()[13] == "  --allow-non-loopback     permit a routable --bind (you provide auth)"@,
        help_text()[14] == "  --allow-funnel           start even if `tailscale funnel` is active"@,
        help_text()[15] == "  --allow-any-origin       disable the same-origin WS check (unsafe)"@,
        help_text()[16] == "  -- <herdr args>          args passed to the spawned herdr (e.g. --session)"@,
        help_text()[7] == "  --bind <addr>            loopback addr to listen on (default "@
            + "127.0.0.1:7681"@ + ")"@,
        help_text()[8] == "                           env: HERDR_WEB_BIND"@,
{
}

} // verus!
