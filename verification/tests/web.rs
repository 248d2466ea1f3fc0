use herdr::command::CommandOutput;
use herdr::web::args::{
    default_herdr_bin, parse_args, web_help, HerdrBin, ParseResult, Refusal, WebArgs, WebEnv,
    DEFAULT_BIND, FALLBACK_HERDR_BIN,
};
use herdr::web::asset::{content_type_for, serve_asset, static_handler, Reply};
use herdr::web::funnel::{
    funnel_active, funnel_check, tailscale_funnel_status, FunnelCheck, ServeStatus, StatusMember,
};
use herdr::web::origin::{header_str, origin_allowed, ws_handler};
use herdr::web::session::{
    output_chunk, plan_spawn, Action, ClientMsg, Event, Phase, Session, TermSize,
};
use herdr::web::startup::{
    bind_resolved, funnel_checked, is_loopback, run_web_command, BindAddr, IpAddress, Step,
    WebConfig,
};

fn strings(texts: &[&str]) -> Vec<String> {
    texts.iter().map(|t| t.to_string()).collect()
}

fn no_env() -> WebEnv {
    WebEnv { bind: None, herdr_bin: None, allowed_origins: None }
}

fn plain_args() -> WebArgs {
    WebArgs {
        bind: "127.0.0.1:7681".to_string(),
        herdr_bin: HerdrBin::ThisBinary,
        herdr_args: Vec::new(),
        allow_non_loopback: false,
        allow_funnel: false,
        allowed_origins: Vec::new(),
        allow_any_origin: false,
    }
}

fn run(args: &[&str]) -> WebArgs {
    match parse_args(&strings(args), &no_env()) {
        ParseResult::Run(args) => args,
        other => panic!("not run: {:?}", other),
    }
}

fn refusal(args: &[&str]) -> Refusal {
    match parse_args(&strings(args), &no_env()) {
        ParseResult::Refuse(refusal) => refusal,
        other => panic!("not refused: {:?}", other),
    }
}

fn addr(ip: IpAddress, display: &str) -> BindAddr {
    BindAddr { ip, port: 7681, display: display.to_string() }
}

fn local() -> BindAddr {
    addr(IpAddress::V4([127, 0, 0, 1]), "127.0.0.1:7681")
}

fn text(raw: &str, control: Option<ClientMsg>) -> Event {
    Event::Text { raw: raw.to_string(), control }
}

// ---- Origin check ----------------------------------------------------------

#[test]
fn origin_absent_is_allowed() {
    assert!(origin_allowed(None, Some("127.0.0.1:7681"), &[], false));
}

#[test]
fn same_origin_is_allowed() {
    assert!(origin_allowed(
        Some("https://sage.tailnet.ts.net"),
        Some("sage.tailnet.ts.net"),
        &[],
        false
    ));
}

#[test]
fn cross_origin_is_rejected() {
    assert!(!origin_allowed(
        Some("https://evil.example.com"),
        Some("sage.tailnet.ts.net"),
        &[],
        false
    ));
}

#[test]
fn allow_listed_origin_is_allowed() {
    let allowed = vec!["https://phone.example".to_string()];
    assert!(origin_allowed(
        Some("https://phone.example"),
        Some("127.0.0.1:7681"),
        &allowed,
        false
    ));
}

#[test]
fn allow_any_bypasses_check() {
    assert!(origin_allowed(
        Some("https://evil.example.com"),
        Some("sage.tailnet.ts.net"),
        &[],
        true
    ));
}

#[test]
fn allow_listed_authority_is_allowed() {
    let allowed = strings(&["other.example", "phone.example:8443"]);
    assert!(origin_allowed(Some("https://phone.example:8443"), None, &allowed, false));
    assert!(!origin_allowed(Some("https://phone.example"), None, &allowed, false));
}

#[test]
fn authority_follows_the_first_scheme_separator() {
    assert!(origin_allowed(Some("a://b://c"), Some("b://c"), &[], false));
    assert!(!origin_allowed(Some("a://b://c"), Some("c"), &[], false));
    assert!(origin_allowed(Some("null"), Some("null"), &[], false));
    assert!(!origin_allowed(Some("null"), None, &[], false));
}

#[test]
fn header_values_are_read_as_visible_ascii() {
    assert_eq!(header_str(None), None);
    assert_eq!(header_str(Some(b"https://sage:1\t~ ")), Some("https://sage:1\t~ ".to_string()));
    assert_eq!(header_str(Some(b"")), Some(String::new()));
    assert_eq!(header_str(Some(b"a\x7f")), None);
    assert_eq!(header_str(Some(b"a\nb")), None);
    assert_eq!(header_str(Some("\u{e9}".as_bytes())), None);
}

#[test]
fn cross_origin_upgrade_gets_forbidden() {
    let refused = ws_handler(Some(b"https://evil.example.com"), Some(b"sage"), &[], false);
    assert_eq!(
        refused,
        Some(Reply::Plain {
            status: 403,
            message: "cross-origin websocket rejected".to_string()
        })
    );
    assert_eq!(ws_handler(Some(b"https://sage"), Some(b"sage"), &[], false), None);
    assert_eq!(ws_handler(None, Some(b"sage"), &[], false), None);
}

#[test]
fn unreadable_origin_is_not_an_absent_one() {
    let forbidden = || {
        Some(Reply::Plain {
            status: 403,
            message: "cross-origin websocket rejected".to_string(),
        })
    };
    let allowed = strings(&["https://", "evil", "https://evil", ""]);
    assert_eq!(ws_handler(Some(b"\xff"), Some(b"sage"), &[], false), forbidden());
    assert_eq!(ws_handler(Some(b"https://\xffevil"), Some(b"sage"), &allowed, false), forbidden());
    assert_eq!(ws_handler(Some(b"https://\xff"), Some(b"\xff"), &[], false), forbidden());
    assert_eq!(ws_handler(Some(b"https://\xffevil"), Some(b"sage"), &[], true), None);
    // A host that cannot be read is no one's own, but the allow-list still counts.
    assert_eq!(ws_handler(Some(b"https://evil"), Some(b"\xff"), &[], false), forbidden());
    assert_eq!(ws_handler(Some(b"https://evil"), Some(b"\xff"), &allowed, false), None);
}

// ---- Funnel ----------------------------------------------------------------

fn status(json: &str) -> FunnelCheck {
    tailscale_funnel_status(&Some(CommandOutput {
        success: true,
        stdout: json.as_bytes().to_vec(),
    }))
}

fn member(name: &str, flags: Option<Vec<Option<bool>>>) -> StatusMember {
    StatusMember { name: name.to_string(), flags }
}

#[test]
fn funnel_active_detects_true_value() {
    let v = ServeStatus { members: Some(vec![member("AllowFunnel", Some(vec![Some(true)]))]) };
    assert!(funnel_active(&v));
    assert_eq!(
        status("{ \"AllowFunnel\": { \"sage.tailnet.ts.net:443\": true } }"),
        FunnelCheck::Active
    );
}

#[test]
fn funnel_inactive_when_all_false_or_absent() {
    let all_false =
        ServeStatus { members: Some(vec![member("AllowFunnel", Some(vec![Some(false)]))]) };
    assert!(!funnel_active(&all_false));
    assert_eq!(status("{ \"AllowFunnel\": { \"host:443\": false } }"), FunnelCheck::Inactive);
    let absent = ServeStatus { members: Some(vec![member("Web", Some(vec![]))]) };
    assert!(!funnel_active(&absent));
    assert_eq!(status("{ \"Web\": {} }"), FunnelCheck::Inactive);
    let null = ServeStatus { members: None };
    assert!(!funnel_active(&null));
    assert_eq!(status("null"), FunnelCheck::Inactive);
}

#[test]
fn funnel_needs_a_true_value_under_its_own_member() {
    assert_eq!(status("{ \"Web\": { \"host:443\": true } }"), FunnelCheck::Inactive);
    assert_eq!(status("{ \"AllowFunnel\": true }"), FunnelCheck::Inactive);
    assert_eq!(status("{ \"AllowFunnel\": { \"host:443\": \"true\" } }"), FunnelCheck::Inactive);
    assert_eq!(status("{ \"AllowFunnel\": { \"h\": { \"p\": true } } }"), FunnelCheck::Inactive);
    assert_eq!(status("[ { \"AllowFunnel\": { \"h\": true } } ]"), FunnelCheck::Inactive);
    assert_eq!(
        status("{ \"A\": 1, \"AllowFunnel\": { \"a\": false, \"b\": null, \"c\": true } }"),
        FunnelCheck::Active
    );
}

#[test]
fn unreadable_funnel_state_is_unknown() {
    assert_eq!(status("not json"), FunnelCheck::Unknown);
    assert_eq!(status(""), FunnelCheck::Unknown);
    assert_eq!(tailscale_funnel_status(&None), FunnelCheck::Unknown);
    let failed = CommandOutput {
        success: false,
        stdout: b"{ \"AllowFunnel\": { \"h\": true } }".to_vec(),
    };
    assert_eq!(tailscale_funnel_status(&Some(failed)), FunnelCheck::Unknown);
    assert_eq!(funnel_check(&None), FunnelCheck::Unknown);
}

// ---- Static files ----------------------------------------------------------

#[test]
fn content_types_by_extension() {
    assert_eq!(content_type_for("index.html"), "text/html; charset=utf-8");
    assert_eq!(
        content_type_for("vendor/xterm.min.js"),
        "application/javascript; charset=utf-8"
    );
    assert_eq!(
        content_type_for("vendor/xterm.min.css"),
        "text/css; charset=utf-8"
    );
    assert_eq!(content_type_for("x.bin"), "application/octet-stream");
}

#[test]
fn content_type_goes_by_the_very_end() {
    assert_eq!(content_type_for(".js"), "application/javascript; charset=utf-8");
    assert_eq!(content_type_for("index.html.gz"), "application/octet-stream");
    assert_eq!(content_type_for("INDEX.HTML"), "application/octet-stream");
    assert_eq!(content_type_for("html"), "application/octet-stream");
    assert_eq!(content_type_for(""), "application/octet-stream");
}

#[test]
fn request_paths_name_assets() {
    assert_eq!(static_handler("/"), "index.html");
    assert_eq!(static_handler(""), "index.html");
    assert_eq!(static_handler("///"), "index.html");
    assert_eq!(static_handler("/vendor/xterm.min.js"), "vendor/xterm.min.js");
    assert_eq!(static_handler("//a//b/"), "a//b/");
}

#[test]
fn assets_are_served_or_not_found() {
    assert_eq!(
        serve_asset("index.html", Some(b"<p>".to_vec())),
        Reply::File { content_type: "text/html; charset=utf-8", data: b"<p>".to_vec() }
    );
    assert_eq!(
        serve_asset("nope.html", None),
        Reply::Plain { status: 404, message: "not found".to_string() }
    );
}

// ---- Command line ----------------------------------------------------------

#[test]
fn no_arguments_give_the_defaults() {
    assert_eq!(DEFAULT_BIND, "127.0.0.1:7681");
    assert_eq!(FALLBACK_HERDR_BIN, "herdr");
    assert_eq!(run(&[]), plain_args());
}

#[test]
fn environment_gives_the_defaults() {
    let env = WebEnv {
        bind: Some("127.0.0.1:9".to_string()),
        herdr_bin: Some("/bin/herdr".to_string()),
        allowed_origins: Some(" https://a , ,b\u{3000},,\tc d ".to_string()),
    };
    let expected = WebArgs {
        bind: "127.0.0.1:9".to_string(),
        herdr_bin: HerdrBin::Path("/bin/herdr".to_string()),
        allowed_origins: strings(&["https://a", "b", "c d"]),
        ..plain_args()
    };
    assert_eq!(parse_args(&[], &env), ParseResult::Run(expected));
}

#[test]
fn empty_environment_variables_count_as_unset() {
    let env = WebEnv {
        bind: Some(String::new()),
        herdr_bin: Some(String::new()),
        allowed_origins: Some(String::new()),
    };
    assert_eq!(parse_args(&[], &env), ParseResult::Run(plain_args()));
    assert_eq!(default_herdr_bin(&Some(String::new())), HerdrBin::ThisBinary);
    assert_eq!(default_herdr_bin(&None), HerdrBin::ThisBinary);
    assert_eq!(default_herdr_bin(&Some("x".to_string())), HerdrBin::Path("x".to_string()));
}

#[test]
fn every_option_is_read() {
    let args = run(&[
        "--bind",
        "0.0.0.0:80",
        "--herdr-bin",
        "/opt/herdr",
        "--allowed-origin",
        "https://a",
        "--allow-non-loopback",
        "--allowed-origin",
        "b",
        "--allow-funnel",
        "--allow-any-origin",
        "--",
        "--session",
        "--help",
        "--",
    ]);
    let expected = WebArgs {
        bind: "0.0.0.0:80".to_string(),
        herdr_bin: HerdrBin::Path("/opt/herdr".to_string()),
        herdr_args: strings(&["--session", "--help", "--"]),
        allow_non_loopback: true,
        allow_funnel: true,
        allowed_origins: strings(&["https://a", "b"]),
        allow_any_origin: true,
    };
    assert_eq!(args, expected);
}

#[test]
fn an_option_takes_the_next_argument_whatever_it_is() {
    let args = run(&["--bind", "--allow-funnel"]);
    assert_eq!(args.bind, "--allow-funnel");
    assert!(!args.allow_funnel);
    assert_eq!(run(&["--bind", ""]).bind, "");
}

#[test]
fn origins_of_the_command_line_follow_those_of_the_environment() {
    let env = WebEnv { bind: None, herdr_bin: None, allowed_origins: Some("a,b".to_string()) };
    let args = strings(&["--allowed-origin", " c "]);
    match parse_args(&args, &env) {
        ParseResult::Run(args) => assert_eq!(args.allowed_origins, strings(&["a", "b", " c "])),
        other => panic!("not run: {:?}", other),
    }
}

#[test]
fn help_is_asked_for_in_three_ways() {
    for flag in ["help", "--help", "-h"] {
        assert_eq!(parse_args(&strings(&[flag]), &no_env()), ParseResult::Help);
        let args = strings(&["--allow-funnel", flag, "--nonsense"]);
        assert_eq!(parse_args(&args, &no_env()), ParseResult::Help);
    }
}

#[test]
fn missing_values_are_refused() {
    for option in ["--bind", "--herdr-bin", "--allowed-origin"] {
        let refused = refusal(&["--allow-funnel", option]);
        assert_eq!(refused.code, 2);
        assert_eq!(refused.lines, vec![format!("herdr web: missing value for {option}")]);
    }
}

#[test]
fn unknown_options_are_refused() {
    let refused = refusal(&["--nope", "--help"]);
    assert_eq!(refused.code, 2);
    assert_eq!(refused.lines, strings(&["herdr web: unknown option: --nope"]));
    assert_eq!(refusal(&[""]).lines, strings(&["herdr web: unknown option: "]));
}

#[test]
fn help_names_the_default_address() {
    let lines = web_help();
    assert_eq!(lines.len(), 17);
    assert_eq!(
        lines[0],
        "herdr web \u{2014} serve a phone-friendly xterm.js terminal over a WebSocket"
    );
    assert_eq!(
        lines[7],
        "  --bind <addr>            loopback addr to listen on (default 127.0.0.1:7681)"
    );
}

// ---- Start -----------------------------------------------------------------

fn config(args: WebArgs, bind: BindAddr) -> WebConfig {
    WebConfig {
        bind,
        herdr_bin: args.herdr_bin,
        herdr_args: args.herdr_args,
        allow_non_loopback: args.allow_non_loopback,
        allow_funnel: args.allow_funnel,
        allowed_origins: args.allowed_origins,
        allow_any_origin: args.allow_any_origin,
    }
}

#[test]
fn loopback_addresses() {
    assert!(is_loopback(&IpAddress::V4([127, 0, 0, 1])));
    assert!(is_loopback(&IpAddress::V4([127, 255, 0, 9])));
    assert!(!is_loopback(&IpAddress::V4([0, 0, 0, 0])));
    assert!(!is_loopback(&IpAddress::V4([192, 168, 0, 127])));
    assert!(is_loopback(&IpAddress::V6([0, 0, 0, 0, 0, 0, 0, 1])));
    assert!(!is_loopback(&IpAddress::V6([0, 0, 0, 0, 0, 0, 0, 0])));
    // An IPv4-mapped loopback address is none of version 6.
    assert!(!is_loopback(&IpAddress::V6([0, 0, 0, 0, 0, 0xffff, 0x7f00, 1])));
}

#[test]
fn first_step_of_the_command() {
    let args = strings(&["--allow-funnel"]);
    assert_eq!(
        run_web_command(&args, &no_env()),
        Step::ResolveBind(WebArgs { allow_funnel: true, ..plain_args() })
    );
    assert_eq!(
        run_web_command(&strings(&["-h"]), &no_env()),
        Step::Exit { code: 0, stdout: web_help(), stderr: Vec::new() }
    );
    assert_eq!(
        run_web_command(&strings(&["x"]), &no_env()),
        Step::Exit {
            code: 2,
            stdout: Vec::new(),
            stderr: strings(&["herdr web: unknown option: x"])
        }
    );
}

#[test]
fn invalid_bind_address_is_refused() {
    let args = WebArgs { bind: "localhost".to_string(), ..plain_args() };
    assert_eq!(
        bind_resolved(args, None),
        Step::Exit {
            code: 2,
            stdout: Vec::new(),
            stderr: strings(&["herdr web: invalid bind address: localhost"])
        }
    );
}

#[test]
fn non_loopback_bind_is_refused_unless_allowed() {
    let routable = || addr(IpAddress::V4([0, 0, 0, 0]), "0.0.0.0:7681");
    let step = bind_resolved(plain_args(), Some(routable()));
    assert_eq!(
        step,
        Step::Exit {
            code: 2,
            stdout: Vec::new(),
            stderr: strings(&[
                "herdr web: refusing to bind non-loopback address 0.0.0.0:7681",
                "  the web bridge is a full shell; front it with `tailscale serve` on loopback.",
                "  pass --allow-non-loopback only if you have another auth layer in front.",
            ])
        }
    );
    let allowed = || WebArgs { allow_non_loopback: true, ..plain_args() };
    assert_eq!(
        bind_resolved(allowed(), Some(routable())),
        Step::CheckFunnel(config(allowed(), routable()))
    );
}

#[test]
fn funnel_is_asked_about_unless_allowed() {
    assert_eq!(
        bind_resolved(plain_args(), Some(local())),
        Step::CheckFunnel(config(plain_args(), local()))
    );
    let allowed = || WebArgs { allow_funnel: true, ..plain_args() };
    assert_eq!(
        bind_resolved(allowed(), Some(local())),
        Step::Serve { config: config(allowed(), local()), warnings: Vec::new() }
    );
}

#[test]
fn active_funnel_is_refused_and_unknown_one_warned_of() {
    let cfg = || config(plain_args(), local());
    match funnel_checked(cfg(), FunnelCheck::Active) {
        Step::Exit { code, stdout, stderr } => {
            assert_eq!(code, 2);
            assert!(stdout.is_empty());
            assert_eq!(
                stderr,
                strings(&[
                    "herdr web: refusing to start \u{2014} `tailscale funnel` is active on this node.",
                    "  funnel publishes to the PUBLIC internet; this bridge is a full shell.",
                    "  use `tailscale serve` (tailnet-only), or pass --allow-funnel to override.",
                ])
            );
        }
        other => panic!("not refused: {:?}", other),
    }
    assert_eq!(
        funnel_checked(cfg(), FunnelCheck::Inactive),
        Step::Serve { config: cfg(), warnings: Vec::new() }
    );
    assert_eq!(
        funnel_checked(cfg(), FunnelCheck::Unknown),
        Step::Serve {
            config: cfg(),
            warnings: strings(&["herdr web: could not verify tailscale funnel state; ensure you \
                front this with `tailscale serve` (tailnet-only), NOT `tailscale funnel`."])
        }
    );
}

// ---- Sessions --------------------------------------------------------------

#[test]
fn session_waits_for_the_size() {
    let mut session = Session::new();
    assert_eq!(session.step(text("ls\n", None)), Action::Ignore);
    assert_eq!(session.step(Event::Binary(b"x".to_vec())), Action::Ignore);
    assert_eq!(session.step(Event::KeepAlive), Action::Ignore);
    assert_eq!(session.step(Event::Output(b"x".to_vec())), Action::Ignore);
    assert_eq!(session.phase, Phase::AwaitingSize);
    let init = ClientMsg::Init { cols: 80, rows: 24 };
    assert_eq!(
        session.step(text("{}", Some(init))),
        Action::Spawn(TermSize { cols: 80, rows: 24 })
    );
    assert_eq!(session.phase, Phase::Running);
}

#[test]
fn resize_before_init_spawns() {
    let mut session = Session::new();
    let resize = ClientMsg::Resize { cols: 0, rows: 7 };
    assert_eq!(
        session.step(text("{}", Some(resize))),
        Action::Spawn(TermSize { cols: 1, rows: 7 })
    );
}

#[test]
fn session_can_end_before_it_starts() {
    assert_eq!(Session::new().step(Event::Close), Action::Finish);
    assert_eq!(Session::new().step(Event::StreamEnd), Action::Finish);
    assert_eq!(Session::new().step(Event::StreamError), Action::Fail);
}

#[test]
fn running_session_passes_keystrokes_on() {
    let mut session = Session { phase: Phase::Running };
    assert_eq!(session.step(text("h\u{e9}", None)), Action::Input(vec![0x68, 0xc3, 0xa9]));
    assert_eq!(session.step(Event::Binary(vec![0, 255])), Action::Input(vec![0, 255]));
    assert_eq!(session.step(Event::KeepAlive), Action::Ignore);
    let init = ClientMsg::Init { cols: 9, rows: 9 };
    assert_eq!(session.step(text("{}", Some(init))), Action::Ignore);
    let resize = ClientMsg::Resize { cols: 9, rows: 0 };
    assert_eq!(
        session.step(text("{}", Some(resize))),
        Action::Resize(TermSize { cols: 9, rows: 1 })
    );
    assert_eq!(session.phase, Phase::Running);
}

#[test]
fn running_session_ends_on_any_hang_up() {
    for end in [
        Event::Close,
        Event::StreamEnd,
        Event::StreamError,
        Event::InputClosed,
        Event::OutputClosed,
        Event::ChildExited,
    ] {
        let mut session = Session { phase: Phase::Running };
        assert_eq!(session.step(end), Action::Finish);
        assert_eq!(session.phase, Phase::Ended);
        assert_eq!(session.step(text("late", None)), Action::Ignore);
        assert_eq!(session.step(Event::Output(b"late".to_vec())), Action::Ignore);
        let init = ClientMsg::Init { cols: 80, rows: 24 };
        assert_eq!(session.step(text("{}", Some(init))), Action::Ignore);
    }
}

#[test]
fn spawned_client_gets_a_clean_environment() {
    let size = TermSize { cols: 120, rows: 8 };
    let inherited = strings(&["PATH", "HERDR_SESSION", "XHERDR_", "HERDR", "HERDR_"]);
    let program = HerdrBin::Path("/opt/herdr".to_string());
    let plan = plan_spawn(&program, size, &strings(&["--session", "x"]), &inherited);
    assert_eq!(plan.program, program);
    assert_eq!(plan.size, size);
    assert_eq!(plan.args, strings(&["--session", "x"]));
    assert_eq!(plan.removed, strings(&["HERDR_SESSION", "HERDR_"]));
    let pairs = [
        ("HERDR_RENDER_ENCODING", "terminal-ansi"),
        ("TERM", "xterm-256color"),
        ("COLUMNS", "120"),
        ("LINES", "8"),
        ("HERDR_CELL_WIDTH_PX", "0"),
    ];
    let variables: Vec<(String, String)> =
        pairs.iter().map(|(k, v)| (k.to_string(), v.to_string())).collect();
    assert_eq!(plan.variables, variables);
}

#[test]
fn largest_terminal_is_written_in_decimal() {
    let size = TermSize { cols: 65535, rows: 10 };
    let plan = plan_spawn(&HerdrBin::ThisBinary, size, &[], &[]);
    assert_eq!(plan.program, HerdrBin::ThisBinary);
    assert_eq!(plan.variables[2].1, "65535");
    assert_eq!(plan.variables[3].1, "10");
}

#[test]
fn reads_become_chunks() {
    assert_eq!(output_chunk(b"abcdef", Some(3)), Some(b"abc".to_vec()));
    assert_eq!(output_chunk(b"abc", Some(3)), Some(b"abc".to_vec()));
    assert_eq!(output_chunk(b"abc", Some(0)), None);
    assert_eq!(output_chunk(b"abc", None), None);
}

#[test]
fn output_is_passed_through() {
    let mut session = Session { phase: Phase::Running };
    let reads: [(&[u8], Option<usize>); 5] =
        [(b"ab__", Some(2)), (b"\xff___", Some(1)), (b"cdef", Some(4)), (b"____", None), (b"gh", Some(2))];
    let mut sent: Vec<u8> = Vec::new();
    for (buffer, read) in reads {
        let Some(chunk) = output_chunk(buffer, read) else { break };
        assert_eq!(session.step(Event::KeepAlive), Action::Ignore);
        match session.step(Event::Output(chunk)) {
            Action::Send(bytes) => sent.extend(bytes),
            other => panic!("not sent: {:?}", other),
        }
    }
    assert_eq!(sent, b"ab\xffcdef".to_vec());
}

#[test]
fn flags_count_only_as_options() {
    assert!(run(&["--herdr-bin", "x", "--allow-funnel"]).allow_funnel);
    assert!(!run(&["--herdr-bin", "--allow-funnel"]).allow_funnel);
    assert!(!run(&["--", "--allow-funnel", "--allow-non-loopback"]).allow_funnel);
    assert!(!run(&["--allowed-origin", "--allow-any-origin"]).allow_any_origin);
}

#[test]
fn keystrokes_and_sizes_follow_the_browser_until_a_hang_up() {
    let mut session = Session { phase: Phase::Running };
    let resize = |cols: u16, rows: u16| text("{}", Some(ClientMsg::Resize { cols, rows }));
    let events = vec![
        text("a", None),
        resize(0, 5),
        Event::Output(b"out".to_vec()),
        Event::Binary(b"bc".to_vec()),
        resize(7, 8),
        Event::Close,
        text("late", None),
        resize(9, 9),
    ];
    let mut typed: Vec<u8> = Vec::new();
    let mut sizes: Vec<TermSize> = Vec::new();
    for event in events {
        match session.step(event) {
            Action::Input(bytes) => typed.extend(bytes),
            Action::Resize(size) => sizes.push(size),
            _ => {}
        }
    }
    assert_eq!(typed, b"abc".to_vec());
    assert_eq!(sizes, vec![TermSize { cols: 1, rows: 5 }, TermSize { cols: 7, rows: 8 }]);
}

#[test]
fn options_before_the_separator_count_as_they_would_alone() {
    let args = run(&["--bind", "--", "--allow-funnel", "--", "--bind", "--"]);
    assert_eq!(args.bind, "--");
    assert!(args.allow_funnel);
    assert_eq!(args.herdr_args, strings(&["--bind", "--"]));
}
