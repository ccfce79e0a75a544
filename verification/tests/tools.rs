use zellij_remote::attach::AttachSession;
use zellij_remote::json::{Json, Number};
use zellij_remote::params::{
    CreatePaneParams, CreateSessionParams, CreateTabParams, PaneIdParams, ReadImageParams,
    ReadScreenParams, RenamePaneParams, RenameSessionParams, RenameTabParams, ResizePaneParams,
    ScreenHistoryParams, SendKeysParams, SendMouseParams, SendTextParams, SessionNameParams,
    SessionParams, TabIdParams,
};
use zellij_remote::read_image::{ImagePhase, ImageRequest, ImageStep};
use zellij_remote::read_screen::ReadScreen;
use zellij_remote::screen::collapse_blank_lines;
use zellij_remote::tools::{
    err_result, ok_json, session_resize_command, tab_id_schema, Progress, ToolReply, ZellijTools,
};
use zellij_remote::web_capture::WebCaptureConfig;

fn text(s: &str) -> Json {
    Json::Text(s.to_string())
}

fn number(n: u64) -> Json {
    Json::Number(Number::Unsigned(n))
}

fn object(members: Vec<(&str, Json)>) -> Json {
    Json::Object(
        members
            .into_iter()
            .map(|(name, value)| (name.to_string(), value))
            .collect(),
    )
}

fn texts(lines: &[&str]) -> Json {
    Json::Array(lines.iter().map(|line| text(line)).collect())
}

fn lines_of(lines: &[&str]) -> Json {
    object(vec![("lines", texts(lines))])
}

fn some(s: &str) -> Option<String> {
    Some(s.to_string())
}

fn tools() -> ZellijTools {
    ZellijTools::new(WebCaptureConfig::new(
        "http://127.0.0.1:8082".to_string(),
        None,
        600,
        "zellij-remote".to_string(),
        (1600, 1000),
    ))
}

fn work() -> String {
    "work".to_string()
}

#[test]
fn every_simple_tool_sends_its_command() {
    let t = tools();
    assert_eq!(t.list_sessions(), object(vec![("cmd", text("session.list"))]));
    assert_eq!(
        t.create_session(&CreateSessionParams {
            name: some("work"),
            layout: None,
            cwd: some("/tmp"),
            rows: Some(24),
            cols: None,
        }),
        object(vec![
            ("cmd", text("session.create")),
            ("name", text("work")),
            ("layout", Json::Null),
            ("cwd", text("/tmp")),
            ("rows", number(24)),
            ("cols", Json::Null),
        ])
    );
    assert_eq!(
        t.kill_session(&SessionNameParams { session: work() }),
        object(vec![("cmd", text("session.kill")), ("name", text("work"))])
    );
    assert_eq!(
        t.rename_session(&RenameSessionParams { session: work(), new_name: "play".to_string() }),
        object(vec![
            ("cmd", text("session.rename")),
            ("name", text("work")),
            ("new_name", text("play")),
        ])
    );
    assert_eq!(
        t.list_tabs(&SessionParams { session: work() }),
        object(vec![("cmd", text("tab.list")), ("session", text("work"))])
    );
    assert_eq!(
        t.create_tab(&CreateTabParams { session: work(), name: None, cwd: some("/") }),
        object(vec![
            ("cmd", text("tab.create")),
            ("session", text("work")),
            ("name", Json::Null),
            ("cwd", text("/")),
        ])
    );
    assert_eq!(
        t.close_tab(&TabIdParams { session: work(), tab_id: 3 }),
        object(vec![
            ("cmd", text("tab.close")),
            ("session", text("work")),
            ("tab_id", number(3)),
        ])
    );
    assert_eq!(
        t.focus_tab(&TabIdParams { session: work(), tab_id: 3 }),
        object(vec![
            ("cmd", text("tab.focus")),
            ("session", text("work")),
            ("tab_id", number(3)),
        ])
    );
    assert_eq!(
        t.rename_tab(&RenameTabParams { session: work(), tab_id: 3, name: "logs".to_string() }),
        object(vec![
            ("cmd", text("tab.rename")),
            ("session", text("work")),
            ("tab_id", number(3)),
            ("name", text("logs")),
        ])
    );
    assert_eq!(
        t.list_panes(&SessionParams { session: work() }),
        object(vec![("cmd", text("pane.list")), ("session", text("work"))])
    );
    assert_eq!(
        t.create_pane(&CreatePaneParams {
            session: work(),
            command: some("htop"),
            plugin: None,
            args: vec!["-d".to_string(), "5".to_string()],
            cwd: None,
            floating: true,
            direction: some("right"),
            name: None,
            tab_id: Some(2),
        }),
        object(vec![
            ("cmd", text("pane.create")),
            ("session", text("work")),
            ("command", text("htop")),
            ("plugin", Json::Null),
            ("args", texts(&["-d", "5"])),
            ("cwd", Json::Null),
            ("floating", Json::Bool(true)),
            ("direction", text("right")),
            ("name", Json::Null),
            ("tab_id", number(2)),
        ])
    );
    assert_eq!(
        t.close_pane(&PaneIdParams { session: work(), pane_id: "terminal_1".to_string() }),
        object(vec![
            ("cmd", text("pane.close")),
            ("session", text("work")),
            ("pane_id", text("terminal_1")),
        ])
    );
    assert_eq!(
        t.focus_pane(&PaneIdParams { session: work(), pane_id: "terminal_1".to_string() }),
        object(vec![
            ("cmd", text("pane.focus")),
            ("session", text("work")),
            ("pane_id", text("terminal_1")),
        ])
    );
    assert_eq!(
        t.rename_pane(&RenamePaneParams {
            session: work(),
            pane_id: "terminal_1".to_string(),
            name: "editor".to_string(),
        }),
        object(vec![
            ("cmd", text("pane.rename")),
            ("session", text("work")),
            ("pane_id", text("terminal_1")),
            ("name", text("editor")),
        ])
    );
    assert_eq!(
        t.resize_pane(&ResizePaneParams {
            session: work(),
            pane_id: "terminal_1".to_string(),
            resize: "increase".to_string(),
            direction: some("left"),
        }),
        object(vec![
            ("cmd", text("pane.resize")),
            ("session", text("work")),
            ("pane_id", text("terminal_1")),
            ("resize", text("increase")),
            ("direction", text("left")),
        ])
    );
    assert_eq!(
        t.screen_history(&ScreenHistoryParams {
            session: work(),
            pane_id: None,
            since: Some(12),
            limit: Some(5),
        }),
        object(vec![
            ("cmd", text("screen.history")),
            ("session", text("work")),
            ("pane_id", Json::Null),
            ("since", number(12)),
            ("limit", number(5)),
        ])
    );
}

#[test]
fn input_only_writes() {
    let t = tools();
    let sent = [
        t.send_text(&SendTextParams {
            session: work(),
            pane_id: some("terminal_4"),
            text: "ls\n".to_string(),
        }),
        t.send_keys(&SendKeysParams {
            session: work(),
            pane_id: None,
            keys: vec!["ctrl-c".to_string()],
        }),
        t.send_mouse(&SendMouseParams {
            session: work(),
            kind: "press".to_string(),
            x: 65535,
            y: 0,
            button: None,
        }),
    ];
    for command in &sent {
        let name = command.get("cmd").expect("every command has a name");
        assert_ne!(name, &text("tab.focus"));
        assert_ne!(name, &text("pane.focus"));
    }
    assert_eq!(
        sent[0],
        object(vec![
            ("cmd", text("input.text")),
            ("session", text("work")),
            ("pane_id", text("terminal_4")),
            ("text", text("ls\n")),
        ])
    );
    assert_eq!(
        sent[1],
        object(vec![
            ("cmd", text("input.keys")),
            ("session", text("work")),
            ("pane_id", Json::Null),
            ("keys", texts(&["ctrl-c"])),
        ])
    );
    assert_eq!(
        sent[2],
        object(vec![
            ("cmd", text("input.mouse")),
            ("session", text("work")),
            ("kind", text("press")),
            ("x", number(65535)),
            ("y", number(0)),
            ("button", Json::Null),
        ])
    );
}

#[test]
fn a_failed_command_is_shown_to_the_caller() {
    let t = tools();
    assert_eq!(t.run(Ok(Json::Bool(true))), ToolReply::Json(Json::Bool(true)));
    assert_eq!(
        t.run(Err("no such session".to_string())),
        ToolReply::Error("no such session".to_string())
    );
    assert_eq!(ok_json(Json::Null), ToolReply::Json(Json::Null));
    assert_eq!(err_result("gone".to_string()), ToolReply::Error("gone".to_string()));
}

#[test]
fn counts_have_a_schema_without_a_format() {
    assert_eq!(
        tab_id_schema(),
        object(vec![("type", text("integer")), ("minimum", number(0))])
    );
}

#[test]
fn a_later_member_of_the_same_name_counts() {
    let value = object(vec![("a", number(1)), ("a", number(2))]);
    assert_eq!(value.get("a"), Some(&number(2)));
    assert_eq!(value.get("b"), None);
    assert_eq!(value.into_member("a"), number(2));
    assert_eq!(text("x").into_member("a"), Json::Null);
}

#[test]
fn long_runs_of_blank_lines_are_collapsed() {
    assert_eq!(
        collapse_blank_lines(lines_of(&["$ ls", "", "  ", "\t", "", "done"])),
        lines_of(&["$ ls", "... 4 blank lines ...", "done"])
    );
    let mut tall = vec!["$"];
    tall.resize(1000, "");
    assert_eq!(
        collapse_blank_lines(lines_of(&tall)),
        lines_of(&["$", "... 999 blank lines ..."])
    );
}

#[test]
fn short_runs_of_blank_lines_are_left_alone() {
    let short = ["", " ", "", "a", " \u{3000}", "b", "", "", ""];
    assert_eq!(collapse_blank_lines(lines_of(&short)), lines_of(&short));
    assert_eq!(collapse_blank_lines(lines_of(&[])), lines_of(&[]));
}

#[test]
fn collapsing_twice_changes_nothing_more() {
    let once = collapse_blank_lines(lines_of(&["", "", "", "", "a", "", "", "", "", ""]));
    assert_eq!(once, lines_of(&["... 4 blank lines ...", "a", "... 5 blank lines ..."]));
    let again = collapse_blank_lines(lines_of(&[
        "... 4 blank lines ...",
        "a",
        "... 5 blank lines ...",
    ]));
    assert_eq!(once, again);
}

#[test]
fn only_text_lines_are_blank() {
    let lines = vec![Json::Null, text(""), Json::Null, Json::Null, Json::Null];
    let kept = vec![Json::Null, text(""), Json::Null, Json::Null, Json::Null];
    assert_eq!(
        collapse_blank_lines(object(vec![("lines", Json::Array(lines))])),
        object(vec![("lines", Json::Array(kept))])
    );
}

#[test]
fn a_value_without_lines_is_not_touched() {
    assert_eq!(collapse_blank_lines(number(4)), number(4));
    assert_eq!(
        collapse_blank_lines(object(vec![("rows", number(4))])),
        object(vec![("rows", number(4))])
    );
    assert_eq!(
        collapse_blank_lines(object(vec![("lines", text("x"))])),
        object(vec![("lines", text("x"))])
    );
}

fn read_call(progress: Progress<ReadScreen>) -> (u64, Json, ReadScreen) {
    match progress {
        Progress::Call { delay_ms, command, state } => (delay_ms, command, state),
        Progress::Finish(reply) => panic!("{:?}", reply),
    }
}

fn read_reply(progress: Progress<ReadScreen>) -> ToolReply {
    match progress {
        Progress::Finish(reply) => reply,
        Progress::Call { command, .. } => panic!("{:?}", command),
    }
}

fn read_work() -> ReadScreenParams {
    ReadScreenParams { session: work(), pane_id: some("terminal_2") }
}

#[test]
fn a_screen_is_read_after_a_fresh_subscription() {
    let (delay_ms, command, state) = read_call(tools().read_screen(read_work()));
    assert_eq!(delay_ms, 0);
    assert_eq!(
        command,
        object(vec![
            ("cmd", text("screen.subscribe")),
            ("session", text("work")),
            ("pane_ids", texts(&["terminal_2"])),
        ])
    );
    let (delay_ms, command, state) = read_call(state.next(Ok(Json::Null)));
    assert_eq!(delay_ms, 0);
    assert_eq!(
        command,
        object(vec![
            ("cmd", text("screen.snapshot")),
            ("session", text("work")),
            ("pane_id", text("terminal_2")),
        ])
    );
    let (delay_ms, _, state) = read_call(state.next(Err("not yet".to_string())));
    assert_eq!(delay_ms, 100);
    assert_eq!(
        read_reply(state.next(Ok(lines_of(&["a", "", "", "", ""])))),
        ToolReply::Json(lines_of(&["a", "... 4 blank lines ..."]))
    );
}

#[test]
fn the_focused_pane_is_read_without_naming_it() {
    let p = ReadScreenParams { session: work(), pane_id: None };
    let (_, command, state) = read_call(tools().read_screen(p));
    assert_eq!(
        command,
        object(vec![("cmd", text("screen.subscribe")), ("session", text("work"))])
    );
    let (_, command, _) = read_call(state.next(Ok(Json::Null)));
    assert_eq!(command.get("pane_id"), Some(&Json::Null));
}

#[test]
fn a_failed_subscription_is_reported() {
    let (_, _, state) = read_call(tools().read_screen(read_work()));
    assert_eq!(
        read_reply(state.next(Err("no such pane".to_string()))),
        ToolReply::Error("no such pane".to_string())
    );
}

#[test]
fn a_snapshot_is_asked_for_eight_times() {
    let (_, _, state) = read_call(tools().read_screen(read_work()));
    let (_, _, mut state) = read_call(state.next(Ok(Json::Null)));
    for attempt in 1..8 {
        let (delay_ms, _, next) = read_call(state.next(Err(format!("failure {}", attempt))));
        assert_eq!(delay_ms, 100);
        state = next;
    }
    assert_eq!(
        read_reply(state.next(Err("failure 8".to_string()))),
        ToolReply::Error("failure 8".to_string())
    );
}

fn attach_call(progress: Progress<AttachSession>) -> (u64, Json, AttachSession) {
    match progress {
        Progress::Call { delay_ms, command, state } => (delay_ms, command, state),
        Progress::Finish(reply) => panic!("{:?}", reply),
    }
}

fn attach_reply(progress: Progress<AttachSession>) -> ToolReply {
    match progress {
        Progress::Finish(reply) => reply,
        Progress::Call { command, .. } => panic!("{:?}", command),
    }
}

fn some_panes() -> Json {
    Json::Array(vec![
        object(vec![("id", number(1)), ("is_plugin", Json::Bool(false))]),
        object(vec![("id", number(2)), ("is_plugin", Json::Bool(true))]),
        object(vec![("id", number(3)), ("is_suppressed", Json::Bool(true))]),
        object(vec![("id", Json::Number(Number::Negative(-4)))]),
        object(vec![("id", number(5)), ("is_plugin", text("yes"))]),
    ])
}

#[test]
fn attaching_reports_every_terminal_pane() {
    let (delay_ms, command, state) =
        attach_call(tools().attach_session(SessionParams { session: work() }));
    assert_eq!(delay_ms, 0);
    assert_eq!(command.get("cmd"), Some(&text("tab.list")));
    let tabs = object(vec![("tabs", texts(&["first"]))]);
    let (_, command, state) = attach_call(state.next(Ok(tabs)));
    assert_eq!(command.get("cmd"), Some(&text("pane.list")));
    let panes = object(vec![("panes", some_panes())]);
    let (_, command, state) = attach_call(state.next(Ok(panes)));
    assert_eq!(
        command,
        object(vec![("cmd", text("screen.subscribe")), ("session", text("work"))])
    );
    let (delay_ms, command, state) = attach_call(state.next(Err("ignored".to_string())));
    assert_eq!(delay_ms, 0);
    assert_eq!(command.get("cmd"), Some(&text("screen.snapshot")));
    assert_eq!(command.get("pane_id"), Some(&text("terminal_1")));
    let (_, command, state) = attach_call(state.next(Ok(lines_of(&["", "", "", "", "$"]))));
    assert_eq!(command.get("pane_id"), Some(&text("terminal_3")));
    let (_, command, mut state) = attach_call(state.next(Ok(lines_of(&["hidden"]))));
    assert_eq!(command.get("pane_id"), Some(&text("terminal_5")));
    for _ in 0..8 {
        let outcome = Err("no baseline".to_string());
        assert_eq!(state.warning(&outcome), None);
        let (delay_ms, command, next) = attach_call(state.next(outcome));
        assert_eq!(delay_ms, 100);
        assert_eq!(command.get("pane_id"), Some(&text("terminal_5")));
        state = next;
    }
    let outcome = Err("still none".to_string());
    assert_eq!(
        state.warning(&outcome),
        Some("attach_session: could not snapshot terminal_5: still none".to_string())
    );
    assert_eq!(state.warning(&Ok(Json::Null)), None);
    assert_eq!(
        attach_reply(state.next(outcome)),
        ToolReply::Json(object(vec![
            ("session", text("work")),
            ("tabs", texts(&["first"])),
            ("panes", some_panes()),
            (
                "screens",
                Json::Array(vec![
                    lines_of(&["... 4 blank lines ...", "$"]),
                    lines_of(&["hidden"]),
                    object(vec![
                        ("pane_id", text("terminal_5")),
                        ("error", text("still none")),
                    ]),
                ])
            ),
        ]))
    );
}

#[test]
fn every_pane_is_shown_what_its_own_commands_brought() {
    let (_, _, state) = attach_call(tools().attach_session(SessionParams { session: work() }));
    let (_, _, state) = attach_call(state.next(Ok(Json::Null)));
    let panes = object(vec![(
        "panes",
        Json::Array(vec![object(vec![("id", number(8))]), object(vec![("id", number(9))])]),
    )]);
    let (_, _, state) = attach_call(state.next(Ok(panes)));
    let (_, command, state) = attach_call(state.next(Ok(Json::Null)));
    assert_eq!(command.get("pane_id"), Some(&text("terminal_8")));
    let (_, command, state) = attach_call(state.next(Err("early".to_string())));
    assert_eq!(command.get("pane_id"), Some(&text("terminal_8")));
    let (_, command, state) = attach_call(state.next(Ok(lines_of(&["eight"]))));
    assert_eq!(command.get("pane_id"), Some(&text("terminal_9")));
    match attach_reply(state.next(Ok(lines_of(&["nine"])))) {
        ToolReply::Json(report) => assert_eq!(
            report.get("screens"),
            Some(&Json::Array(vec![lines_of(&["eight"]), lines_of(&["nine"])]))
        ),
        other => panic!("{:?}", other),
    }
}

#[test]
fn a_suppressed_terminal_pane_is_shown_too() {
    let p = SessionParams { session: "s".to_string() };
    let (_, _, state) = attach_call(tools().attach_session(p));
    let no_tabs = object(vec![("tabs", Json::Array(Vec::new()))]);
    let (_, _, state) = attach_call(state.next(Ok(no_tabs)));
    let panes = object(vec![(
        "panes",
        Json::Array(vec![object(vec![
            ("id", number(7)),
            ("is_plugin", Json::Bool(false)),
            ("is_suppressed", Json::Bool(true)),
        ])]),
    )]);
    let (_, _, state) = attach_call(state.next(Ok(panes)));
    let (_, command, state) = attach_call(state.next(Ok(Json::Null)));
    assert_eq!(command.get("pane_id"), Some(&text("terminal_7")));
    match attach_reply(state.next(Ok(lines_of(&["x"])))) {
        ToolReply::Json(report) => assert_eq!(
            report.get("screens"),
            Some(&Json::Array(vec![lines_of(&["x"])]))
        ),
        other => panic!("{:?}", other),
    }
}

#[test]
fn attaching_to_a_session_without_panes_ends_at_once() {
    let (_, _, state) = attach_call(tools().attach_session(SessionParams { session: work() }));
    let (_, _, state) = attach_call(state.next(Ok(Json::Null)));
    let (_, _, state) = attach_call(state.next(Ok(Json::Null)));
    assert_eq!(
        attach_reply(state.next(Ok(Json::Null))),
        ToolReply::Json(object(vec![
            ("session", text("work")),
            ("tabs", Json::Null),
            ("panes", Json::Null),
            ("screens", Json::Array(Vec::new())),
        ]))
    );
}

#[test]
fn a_listing_that_fails_ends_an_attach() {
    let (_, _, state) = attach_call(tools().attach_session(SessionParams { session: work() }));
    assert_eq!(
        attach_reply(state.next(Err("no session".to_string()))),
        ToolReply::Error("no session".to_string())
    );
    let (_, _, state) = attach_call(tools().attach_session(SessionParams { session: work() }));
    let (_, _, state) = attach_call(state.next(Ok(Json::Null)));
    assert_eq!(
        attach_reply(state.next(Err("no panes".to_string()))),
        ToolReply::Error("no panes".to_string())
    );
}

fn photograph() -> ReadImageParams {
    ReadImageParams { session: work(), tab_id: 2, pane_id: "terminal_7".to_string() }
}

fn image_call(step: ImageStep) -> (Json, ImageRequest, ImagePhase) {
    match step {
        ImageStep::Call { command, request, phase } => (command, request, phase),
        other => panic!("{:?}", other),
    }
}

fn image_capture(step: ImageStep) -> ImageRequest {
    match step {
        ImageStep::Capture { request } => request,
        other => panic!("{:?}", other),
    }
}

fn image_reply(step: ImageStep) -> ToolReply {
    match step {
        ImageStep::Finish(reply) => reply,
        other => panic!("{:?}", other),
    }
}

fn image_at_capture() -> ImageRequest {
    let (command, request, phase) = image_call(tools().read_image(photograph()));
    assert_eq!(command.get("cmd"), Some(&text("tab.focus")));
    assert_eq!(command.get("tab_id"), Some(&number(2)));
    let (command, request, phase) = image_call(request.next(phase, Ok(Json::Null)));
    assert_eq!(command.get("cmd"), Some(&text("pane.focus")));
    assert_eq!(command.get("pane_id"), Some(&text("terminal_7")));
    let (command, request, phase) = image_call(request.next(phase, Ok(Json::Null)));
    assert_eq!(command, session_resize_command("work", Some(50), Some(160)));
    let request = image_capture(request.next(phase, Ok(Json::Null)));
    assert_eq!(request.session(), "work");
    request
}

#[test]
fn a_picture_is_taken_between_two_resizes() {
    let request = image_at_capture();
    let (command, request, phase) = image_call(request.captured(Ok("UE5H".to_string())));
    assert_eq!(
        command,
        object(vec![
            ("cmd", text("session.resize")),
            ("session", text("work")),
            ("rows", Json::Null),
            ("cols", Json::Null),
        ])
    );
    assert_eq!(
        image_reply(request.next(phase, Ok(Json::Null))),
        ToolReply::Image { data: "UE5H".to_string(), mime_type: "image/png".to_string() }
    );
}

#[test]
fn a_failed_capture_still_restores_the_size() {
    let request = image_at_capture();
    let (command, request, phase) = image_call(request.captured(Err("no browser".to_string())));
    assert_eq!(command, session_resize_command("work", None, None));
    assert_eq!(
        image_reply(request.next(phase, Err("gone".to_string()))),
        ToolReply::Error("no browser".to_string())
    );
}

#[test]
fn a_picture_of_a_session_left_resized_is_an_error() {
    let request = image_at_capture();
    let (_, request, phase) = image_call(request.captured(Ok("UE5H".to_string())));
    assert_eq!(
        image_reply(request.next(phase, Err("gone".to_string()))),
        ToolReply::Error(
            "captured session work but could not restore its size afterwards: gone".to_string()
        )
    );
}

#[test]
fn what_cannot_be_focused_or_sized_is_not_photographed() {
    let failed = |steps: usize| {
        let (_, mut request, mut phase) = image_call(tools().read_image(photograph()));
        for _ in 0..steps {
            let (_, next_request, next_phase) = image_call(request.next(phase, Ok(Json::Null)));
            request = next_request;
            phase = next_phase;
        }
        image_reply(request.next(phase, Err("gone".to_string())))
    };
    assert_eq!(
        failed(0),
        ToolReply::Error("could not focus tab 2 to photograph it: gone".to_string())
    );
    assert_eq!(
        failed(1),
        ToolReply::Error("could not focus pane terminal_7 to photograph it: gone".to_string())
    );
    assert_eq!(
        failed(2),
        ToolReply::Error("could not size session work for capture: gone".to_string())
    );
}
