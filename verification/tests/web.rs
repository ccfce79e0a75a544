use zellij_remote::auth::{require_token, tokens_match, Admission};
use zellij_remote::json::{Json, Number};
use zellij_remote::percent::urlencoding_encode;
use zellij_remote::terminal_wait::{
    page_state, wait_budget_ms, PageReport, PageState, TerminalWait, WaitAction,
};
use zellij_remote::web_capture::{
    capture_session, capture_with, finish_capture, frame, session_url, CapturePhase, CaptureStep,
    Framing, WebCaptureConfig,
};
use zellij_remote::web_login::{
    login, login_script, LoginReply, LOGIN_AFTER_TOKEN, LOGIN_BEFORE_TOKEN,
};
use zellij_remote::web_server::{
    ensure_web_server, host_and_port, probed, program_ended, ProbePhase, RunOutcome, ServerStep,
};

fn config(token: Option<&str>) -> WebCaptureConfig {
    WebCaptureConfig::new(
        "http://127.0.0.1:8082/".to_string(),
        token.map(|token| token.to_string()),
        600,
        "zellij-remote".to_string(),
        (1600, 1000),
    )
}

fn text(s: &str) -> Json {
    Json::Text(s.to_string())
}

fn object(members: Vec<(&str, Json)>) -> Json {
    Json::Object(
        members
            .into_iter()
            .map(|(name, value)| (name.to_string(), value))
            .collect(),
    )
}

#[test]
fn leaves_an_ordinary_session_name_alone() {
    assert_eq!(urlencoding_encode("home-dan-dev-todo_list"), "home-dan-dev-todo_list");
}

#[test]
fn encodes_characters_that_would_change_which_url_is_requested() {
    assert_eq!(urlencoding_encode("my session"), "my%20session");
    assert_eq!(urlencoding_encode("a/b"), "a%2Fb");
}

#[test]
fn encodes_every_byte_of_a_character() {
    assert_eq!(urlencoding_encode("\u{e9}\u{1f600}"), "%C3%A9%F0%9F%98%80");
    assert_eq!(urlencoding_encode("AZaz09-_.~"), "AZaz09-_.~");
    assert_eq!(urlencoding_encode("%?#@[`{\u{7f}\u{0}"), "%25%3F%23%40%5B%60%7B%7F%00");
    assert_eq!(urlencoding_encode(""), "");
}

#[test]
fn a_session_has_its_own_page() {
    assert_eq!(session_url("http://h//", "my session"), "http://h/my%20session");
    assert_eq!(session_url("http://h:1", "a/b"), "http://h:1/a%2Fb");
    assert_ne!(session_url("http://h", "a b"), session_url("http://h", "a%20b"));
}

#[test]
fn addresses_are_read_from_base_urls() {
    let address = |host: &str, port: u16| Some((host.to_string(), port));
    assert_eq!(host_and_port("http://127.0.0.1:8082"), address("127.0.0.1", 8082));
    assert_eq!(host_and_port("http://127.0.0.1:8082///"), address("127.0.0.1", 8082));
    assert_eq!(host_and_port("http://example.org/path/x"), address("example.org", 80));
    assert_eq!(host_and_port("https://example.org"), address("example.org", 443));
    assert_eq!(host_and_port("example.org:81/x"), address("example.org", 81));
    assert_eq!(host_and_port("http://[::1]:9"), address("[::1]", 9));
    assert_eq!(host_and_port("http://h:+80"), address("h", 80));
    assert_eq!(host_and_port("http://h:65535"), address("h", 65535));
    assert_eq!(host_and_port("http://h:00080"), address("h", 80));
    assert_eq!(host_and_port("http://h:65536"), None);
    assert_eq!(host_and_port("http://h:"), None);
    assert_eq!(host_and_port("http://h:8o"), None);
    assert_eq!(host_and_port("http://h:-1"), None);
    assert_eq!(host_and_port("://h"), address("h", 80));
    assert_eq!(host_and_port(""), address("", 80));
    assert_eq!(host_and_port("/"), address("", 80));
    assert_eq!(host_and_port("http://"), None);
}

#[test]
fn a_listening_server_is_left_alone() {
    assert!(matches!(
        ensure_web_server(),
        ServerStep::Probe { delay_ms: 0, phase: ProbePhase::First }
    ));
    assert!(matches!(
        probed("http://h", "zellij-remote", ProbePhase::First, true),
        ServerStep::Ready
    ));
}

#[test]
fn an_absent_server_is_started_and_polled() {
    match probed("http://h", "zellij-remote", ProbePhase::First, false) {
        ServerStep::Run { program, args } => {
            assert_eq!(program, "zellij-remote");
            assert_eq!(args, vec!["web", "--start", "-d"]);
        },
        other => panic!("{:?}", other),
    }
    let mut phase = match program_ended("zellij-remote", RunOutcome::Succeeded) {
        ServerStep::Probe { delay_ms: 0, phase } => phase,
        other => panic!("{:?}", other),
    };
    for _ in 0..19 {
        phase = match probed("http://h", "zellij-remote", phase, false) {
            ServerStep::Probe { delay_ms: 250, phase } => phase,
            other => panic!("{:?}", other),
        };
    }
    assert!(matches!(
        probed("http://h", "zellij-remote", phase, true),
        ServerStep::Ready
    ));
    match probed("http://h", "zellij-remote", phase, false) {
        ServerStep::Fail { delay_ms, message } => {
            assert_eq!(delay_ms, 250);
            assert_eq!(message, "started `zellij-remote web` but nothing came up at http://h");
        },
        other => panic!("{:?}", other),
    }
}

#[test]
fn a_server_that_cannot_be_started_is_an_error() {
    let failed = |outcome: RunOutcome| match program_ended("z", outcome) {
        ServerStep::Fail { delay_ms: 0, message } => message,
        other => panic!("{:?}", other),
    };
    assert_eq!(
        failed(RunOutcome::NotRun("no such file".to_string())),
        "could not run `z web --start` to bring the web UI up: no such file"
    );
    assert_eq!(
        failed(RunOutcome::Failed(" \nport taken\u{2003}\n".to_string())),
        "`z web --start` failed: port taken"
    );
    assert_eq!(failed(RunOutcome::Failed(" \t".to_string())), "`z web --start` failed: ");
}

#[test]
fn the_grid_fills_the_viewport() {
    let grid = |width: u32, height: u32| {
        WebCaptureConfig::new(String::new(), None, 0, String::new(), (width, height)).capture_grid()
    };
    assert_eq!(grid(1600, 1000), (50, 160));
    assert_eq!(grid(200, 228), (10, 20));
    assert_eq!(grid(209, 246), (10, 20));
    assert_eq!(grid(210, 247), (11, 21));
    assert_eq!(grid(100, 100), (3, 10));
    assert_eq!(grid(199, 57), (1, 19));
    assert_eq!(grid(10, 56), (0, 1));
    assert_eq!(grid(9, 38), (0, 0));
    assert_eq!(grid(0, 0), (0, 0));
    assert_eq!(grid(u32::MAX, u32::MAX), (226050908, 429496729));
}

#[test]
fn a_configuration_keeps_what_it_is_given() {
    let c = config(Some("secret")).clone();
    assert_eq!(c.base_url, "http://127.0.0.1:8082/");
    assert_eq!(c.auth_token, Some("secret".to_string()));
    assert_eq!(c.settle_ms, 600);
    assert_eq!(c.binary, "zellij-remote");
    assert_eq!(c.viewport, (1600, 1000));
}

#[test]
fn the_token_is_a_string_literal_in_the_script() {
    let script = login_script("a\"b\\c\n\u{1}\u{1f}\u{8}\u{c}\r\t/\u{7f}\u{e9}");
    let literal = "\"a\\\"b\\\\c\\n\\u0001\\u001f\\b\\f\\r\\t/\u{7f}\u{e9}\"";
    assert_eq!(script, format!("{}{}{}", LOGIN_BEFORE_TOKEN, literal, LOGIN_AFTER_TOKEN));
    assert!(script.starts_with("(async () => {\n"));
    assert!(script.contains("body: JSON.stringify({ auth_token: \"a"));
    assert!(script.ends_with("})()"));
}

#[test]
fn a_login_is_granted_or_refused_by_the_server() {
    let answer = |ok: Json, body: Json| login(LoginReply::Answer(object(vec![("ok", ok), ("body", body)])));
    let refused = |reason: &str| Err(format!("Zellij web login was refused: {}", reason));
    assert_eq!(answer(Json::Bool(true), object(vec![])), Ok(()));
    assert_eq!(answer(Json::Bool(true), object(vec![("success", Json::Bool(true))])), Ok(()));
    assert_eq!(answer(Json::Bool(true), object(vec![("success", text("no"))])), Ok(()));
    assert_eq!(
        answer(
            Json::Bool(true),
            object(vec![("success", Json::Bool(false)), ("message", text("expired"))])
        ),
        refused("expired")
    );
    assert_eq!(
        answer(Json::Bool(false), object(vec![("success", Json::Bool(true))])),
        refused("no reason given")
    );
    assert_eq!(
        answer(Json::Null, object(vec![("message", Json::Number(Number::Unsigned(1)))])),
        refused("no reason given")
    );
    assert_eq!(login(LoginReply::Answer(Json::Null)), refused("no reason given"));
    assert_eq!(
        login(LoginReply::Unreachable("gone".to_string())),
        Err("could not reach the Zellij web server to log in: gone".to_string())
    );
    assert_eq!(
        login(LoginReply::Unreadable("null".to_string())),
        Err("Zellij web login returned something unreadable: null".to_string())
    );
    assert_eq!(
        login(LoginReply::Malformed("at line 1".to_string())),
        Err("Zellij web login returned malformed JSON: at line 1".to_string())
    );
}

#[test]
fn a_capture_takes_its_steps_in_order() {
    let c = config(Some("secret"));
    let mut step = capture_session();
    let mut seen = Vec::new();
    while let Some(phase) = step.phase() {
        seen.push(phase);
        step = capture_with(&c, "my session", phase, Ok(()));
        match &step {
            CaptureStep::Configure { width, height } => assert_eq!((*width, *height), (1600, 1000)),
            CaptureStep::Open { url } => assert_eq!(url, "http://127.0.0.1:8082/"),
            CaptureStep::LogIn { script } => assert_eq!(script, &login_script("secret")),
            CaptureStep::Navigate { url } => {
                assert_eq!(url, "http://127.0.0.1:8082/my%20session")
            },
            _ => {},
        }
    }
    assert!(matches!(step, CaptureStep::Screenshot { framing: Framing::Terminal }));
    assert_eq!(
        seen,
        vec![
            CapturePhase::EnsuringServer,
            CapturePhase::Configuring,
            CapturePhase::Launching,
            CapturePhase::Opening,
            CapturePhase::LoggingIn,
            CapturePhase::Navigating,
            CapturePhase::Waiting,
            CapturePhase::Scrolling,
            CapturePhase::Measuring,
        ]
    );
    assert!(matches!(
        capture_with(&config(None), "s", CapturePhase::Opening, Ok(())),
        CaptureStep::Navigate { .. }
    ));
}

#[test]
fn a_step_that_fails_ends_the_capture() {
    let failed = |phase: CapturePhase| {
        match capture_with(&config(None), "work", phase, Err("broken".to_string())) {
            CaptureStep::Fail(message) => message,
            other => panic!("{:?}", other),
        }
    };
    assert_eq!(failed(CapturePhase::EnsuringServer), "broken");
    assert_eq!(failed(CapturePhase::Configuring), "broken");
    assert_eq!(
        failed(CapturePhase::Launching),
        "could not start a headless browser to capture the session: broken"
    );
    assert_eq!(
        failed(CapturePhase::Opening),
        "could not open the Zellij web server at http://127.0.0.1:8082/ \u{2014} is `zellij web` running? (broken)"
    );
    assert_eq!(failed(CapturePhase::LoggingIn), "broken");
    assert_eq!(
        failed(CapturePhase::Navigating),
        "could not open session work in the web UI: broken"
    );
    assert_eq!(failed(CapturePhase::Waiting), "broken");
}

#[test]
fn a_picture_is_taken_whatever_comes_of_scrolling_and_measuring() {
    let c = config(None);
    let after = |phase: CapturePhase, outcome: Result<(), String>| {
        capture_with(&c, "work", phase, outcome)
    };
    let broken = || Err("broken".to_string());
    assert!(matches!(after(CapturePhase::Waiting, Ok(())), CaptureStep::Scroll));
    assert!(matches!(
        after(CapturePhase::Scrolling, Ok(())),
        CaptureStep::Measure { pause_ms: 200 }
    ));
    assert!(matches!(
        after(CapturePhase::Scrolling, broken()),
        CaptureStep::Measure { pause_ms: 0 }
    ));
    assert!(matches!(
        after(CapturePhase::Measuring, Ok(())),
        CaptureStep::Screenshot { framing: Framing::Terminal }
    ));
    assert!(matches!(
        after(CapturePhase::Measuring, broken()),
        CaptureStep::Screenshot { framing: Framing::WholePage }
    ));
    assert_eq!(frame(true), Framing::Terminal);
    assert_eq!(frame(false), Framing::WholePage);
}

#[test]
fn a_picture_is_encoded_as_base64() {
    assert_eq!(finish_capture(Ok(vec![0x89, b'P', b'N', b'G'])), Ok("iVBORw==".to_string()));
    assert_eq!(finish_capture(Ok(vec![0xfb, 0xff, 0xfe])), Ok("+//+".to_string()));
    assert_eq!(finish_capture(Ok(Vec::new())), Ok(String::new()));
    assert_eq!(
        finish_capture(Err("page crashed".to_string())),
        Err("could not capture the session's screen: page crashed".to_string())
    );
}

#[test]
fn a_page_says_what_it_shows() {
    let named = |word: &str| page_state(PageReport::Answer(word.to_string()));
    assert_eq!(named("terminal"), Ok(PageState::Terminal));
    assert_eq!(named("auth"), Ok(PageState::NeedsAuth));
    assert_eq!(named("disconnected"), Ok(PageState::Disconnected));
    assert_eq!(named("blank"), Ok(PageState::Blank));
    assert_eq!(named("Terminal"), Ok(PageState::Blank));
    assert_eq!(
        page_state(PageReport::Unreachable("gone".to_string())),
        Err("could not inspect the web UI's state: gone".to_string())
    );
    assert_eq!(
        page_state(PageReport::Unreadable("null".to_string())),
        Err("the web UI's state was unreadable: null".to_string())
    );
}

#[test]
fn a_terminal_is_waited_for() {
    let c = config(Some("secret"));
    let mut wait = TerminalWait::new();
    assert!(matches!(wait.see(PageState::Blank, &c), WaitAction::Pause { pause_ms: 200 }));
    for _ in 0..3 {
        assert!(matches!(
            wait.see(PageState::Disconnected, &c),
            WaitAction::Reload { pause_ms: 500 }
        ));
    }
    assert!(matches!(
        wait.see(PageState::Disconnected, &c),
        WaitAction::Pause { pause_ms: 500 }
    ));
    assert_eq!(wait, TerminalWait { last: PageState::Disconnected, reloads: 3 });
    match wait.see(PageState::NeedsAuth, &c) {
        WaitAction::LogIn { script, pause_ms } => {
            assert_eq!(script, login_script("secret"));
            assert_eq!(pause_ms, 300);
        },
        other => panic!("{:?}", other),
    }
    assert!(matches!(wait.see(PageState::Terminal, &c), WaitAction::Ready { pause_ms: 250 }));
}

#[test]
fn a_login_without_a_token_ends_the_wait() {
    match TerminalWait::new().see(PageState::NeedsAuth, &config(None)) {
        WaitAction::Fail(message) => assert_eq!(
            message,
            "the Zellij web server requires a login token but none is configured \u{2014} create one with `zellij-remote web --create-token` and pass it as ZELLIJ_WEB_TOKEN"
        ),
        other => panic!("{:?}", other),
    }
}

#[test]
fn a_wait_that_is_over_tells_what_was_seen() {
    let c = config(Some("secret"));
    let mut wait = TerminalWait::new();
    assert_eq!(wait.look(true, "work", &c), Ok(()));
    assert_eq!(
        wait.look(false, "work", &c),
        Err("session work's terminal never painted anything to capture".to_string())
    );
    let _ = wait.see(PageState::NeedsAuth, &c);
    assert_eq!(
        wait.look(false, "work", &c),
        Err("the Zellij web server rejected the configured login token".to_string())
    );
    let _ = wait.see(PageState::Disconnected, &c);
    assert_eq!(wait.look(true, "work", &c), Ok(()));
    assert_eq!(
        wait.look(false, "work", &c),
        Err("the web UI could not attach to session work: its terminal connection kept dropping. The session exists and the web server is reachable, so this is the web server failing to attach to it \u{2014} check that `zellij-remote` is serving the same Zellij build that owns the session.".to_string())
    );
}

#[test]
fn a_wait_lasts_at_least_fifteen_seconds() {
    let mut c = config(None);
    assert_eq!(wait_budget_ms(&c), 15000);
    c.settle_ms = 15001;
    assert_eq!(wait_budget_ms(&c), 15001);
}

#[test]
fn tokens_are_compared_in_full() {
    assert!(tokens_match("secret", "secret"));
    assert!(tokens_match("", ""));
    assert!(!tokens_match("secret", "secreT"));
    assert!(!tokens_match("secret", "Secret"));
    assert!(!tokens_match("secret", "secrets"));
    assert!(!tokens_match("secret", ""));
}

#[test]
fn one_token_opens_the_server() {
    let token = Some("secret".to_string());
    let refused = Admission::Refuse {
        status: 401,
        body: "invalid or missing bearer token".to_string(),
    };
    assert_eq!(require_token(&None, None), Admission::Forward);
    assert_eq!(require_token(&None, Some(b"nonsense\xff")), Admission::Forward);
    assert_eq!(require_token(&token, Some(b"Bearer secret")), Admission::Forward);
    assert_eq!(require_token(&token, None), refused);
    assert_eq!(require_token(&token, Some(b"Bearer secret ")), refused);
    assert_eq!(require_token(&token, Some(b"bearer secret")), refused);
    assert_eq!(require_token(&token, Some(b"Bearer  secret")), refused);
    assert_eq!(require_token(&token, Some(b"secret")), refused);
    assert_eq!(require_token(&token, Some(b"Bearer ")), refused);
    assert_eq!(require_token(&token, Some(b"")), refused);
    assert_eq!(require_token(&token, Some(b"Bearer \xff")), refused);
    assert_eq!(require_token(&token, Some(b"Bearer secret\x00")), refused);
    let accented = Some("s\u{e9}".to_string());
    assert_eq!(require_token(&accented, Some("Bearer s\u{e9}".as_bytes())), refused);
    let tabbed = Some("a\tb".to_string());
    assert_eq!(require_token(&tabbed, Some(b"Bearer a\tb")), Admission::Forward);
}
