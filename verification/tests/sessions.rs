use zellij_remote::creation::{
    api_session_options, layout_info_from, looks_like_a_path, wait_until_started, CreationStep,
    HostFacts, LayoutInfo, ServerMessage, SessionAssets, SessionOptions, StartVerdict, WebSharing,
    DEFAULT_COLS, DEFAULT_ROWS, SESSION_START_TIMEOUT_SECS,
};
use zellij_remote::listing::SessionSummary;
use zellij_remote::sessions::{
    candidate_name, kill_sent, longest_name, KillStep, LinkStep, SessionManager,
};

const ROOM: usize = 90;

fn manager() -> SessionManager<u32> {
    SessionManager::new()
}

fn host() -> HostFacts {
    HostFacts {
        generated: None,
        longest_name: ROOM,
        running: Some(false),
        separator: '/',
    }
}

fn named(name: &str) -> Option<String> {
    Some(name.to_string())
}

fn aged(name: &str, age_secs: u64) -> (String, u64) {
    (name.to_string(), age_secs)
}

fn summary(name: &str, age_secs: u64, resurrectable: bool) -> SessionSummary {
    SessionSummary {
        name: name.to_string(),
        age_secs,
        resurrectable,
    }
}

#[test]
fn bare_layout_names_are_built_ins() {
    assert!(matches!(
        layout_info_from("compact", '/', false),
        Ok(LayoutInfo::BuiltIn(name)) if name == "compact"
    ));
}

#[test]
fn paths_name_layout_files() {
    let path = "/usr/lib/zellij/layout".to_string();
    assert!(matches!(
        layout_info_from(&path, '/', true),
        Ok(LayoutInfo::File(found)) if found == path
    ));
    assert!(matches!(
        layout_info_from("work.kdl", '/', true),
        Ok(LayoutInfo::File(found)) if found == "work.kdl"
    ));
    assert!(looks_like_a_path("C:\\layouts\\work", '\\'));
    assert!(!looks_like_a_path("C:\\layouts\\work", '/'));
    assert!(!looks_like_a_path("work.kd", '/'));
    assert!(!looks_like_a_path("", '/'));
}

#[test]
fn a_layout_file_that_is_not_there_is_refused() {
    let result = layout_info_from("/nonexistent/definitely/not/here.kdl", '/', false);
    assert!(result.is_err());
    assert!(result.unwrap_err().contains("no layout file"));
}

#[test]
fn a_missing_layout_file_is_named_in_full() {
    assert_eq!(
        layout_info_from("a/b", '/', false),
        Err("no layout file at 'a/b'".to_string())
    );
}

#[test]
fn creating_a_session_with_an_invalid_name_is_refused() {
    let mut manager = manager();
    let result = manager.create(named("../evil"), None, None, None, None, host());
    assert!(
        matches!(result, CreationStep::Failed { .. }),
        "expected an invalid name to be refused"
    );
}

#[test]
fn killing_a_session_that_is_not_running_is_an_error() {
    let mut manager = manager();
    match manager.kill("zellij-api-definitely-not-a-session", Some(false)) {
        KillStep::Refused(message) => assert!(message.contains("not running")),
        KillStep::Send { .. } => panic!("nothing to kill"),
    }
}

#[test]
fn killing_a_session_whose_state_is_unknown_is_an_error_too() {
    let mut manager = manager();
    match manager.kill("work", None) {
        KillStep::Refused(message) => assert_eq!(message, "session 'work' is not running"),
        KillStep::Send { .. } => panic!("nothing to kill"),
    }
}

#[test]
fn killing_a_session_gives_up_its_link() {
    let mut manager = manager();
    assert_eq!(manager.connected("work", Ok(7)), Ok(&7));
    assert_eq!(manager.connected("play", Ok(8)), Ok(&8));
    match manager.kill("work", Some(true)) {
        KillStep::Send { dropped } => assert_eq!(dropped, Some(7)),
        KillStep::Refused(message) => panic!("{}", message),
    }
    assert_eq!(manager.linked_sessions(), vec!["play".to_string()]);
    match manager.kill("work", Some(true)) {
        KillStep::Send { dropped } => assert_eq!(dropped, None),
        KillStep::Refused(message) => panic!("{}", message),
    }
    assert_eq!(kill_sent(Ok(())), Ok(()));
    assert_eq!(
        kill_sent(Err("no such device".to_string())),
        Err("could not open client IPC: no such device".to_string())
    );
}

#[test]
fn linking_to_a_missing_session_does_not_cache_anything() {
    let mut manager = manager();
    let name = "zellij-api-definitely-not-a-session";
    match manager.link(name, false) {
        LinkStep::Connect { dead } => assert_eq!(dead, None),
        LinkStep::Linked(_) => panic!("there is no link"),
    }
    assert!(manager.connected(name, Err("is not running".to_string())).is_err());
    assert!(manager.linked_sessions().is_empty());
}

#[test]
fn a_link_is_opened_once_and_then_reused() {
    let mut manager = manager();
    assert!(matches!(manager.link("work", true), LinkStep::Connect { dead: None }));
    assert_eq!(manager.connected("work", Ok(1)), Ok(&1));
    assert!(matches!(manager.link("work", true), LinkStep::Linked(&1)));
    assert!(matches!(manager.link("work", true), LinkStep::Linked(&1)));
    assert_eq!(manager.existing_link("work"), Some(&1));
    assert_eq!(manager.existing_link("play"), None);
    assert_eq!(manager.linked_sessions(), vec!["work".to_string()]);
}

#[test]
fn a_dead_link_is_replaced_rather_than_handed_out() {
    let mut manager = manager();
    assert_eq!(manager.connected("work", Ok(1)), Ok(&1));
    match manager.link("work", false) {
        LinkStep::Connect { dead } => assert_eq!(dead, Some(1)),
        LinkStep::Linked(_) => panic!("a dead link was handed out"),
    }
    assert_eq!(manager.existing_link("work"), None);
    assert_eq!(
        manager.connected("work", Err("session 'work' is not running".to_string())),
        Err("session 'work' is not running".to_string())
    );
    assert!(manager.linked_sessions().is_empty());
    assert_eq!(manager.connected("work", Ok(2)), Ok(&2));
    assert_eq!(manager.existing_link("work"), Some(&2));
}

#[test]
fn a_dropped_link_is_handed_out_once() {
    let mut manager = manager();
    assert_eq!(manager.connected("work", Ok(1)), Ok(&1));
    assert_eq!(manager.connected("play", Ok(2)), Ok(&2));
    assert_eq!(manager.drop_link("work"), Some(1));
    assert_eq!(manager.drop_link("work"), None);
    assert_eq!(manager.existing_link("play"), Some(&2));
}

#[test]
fn a_name_already_being_created_cannot_be_claimed_again() {
    let mut manager = manager();
    let name = "zellij-api-test-reservation".to_string();

    let held = manager
        .reserve_name(Some(name.clone()), None, ROOM, Some(false))
        .expect("first claim");

    let second = manager.reserve_name(Some(name.clone()), None, ROOM, Some(false));
    assert!(second.is_err(), "a concurrent claim on the same name must be refused");
    assert!(second.unwrap_err().contains("already exists"));
    manager.release(held);
}

#[test]
fn dropping_a_reservation_frees_the_name_for_the_next_attempt() {
    let mut manager = manager();
    let name = "zellij-api-test-retry".to_string();

    let first = manager
        .reserve_name(Some(name.clone()), None, ROOM, Some(false))
        .expect("first claim");
    assert_eq!(first.name(), name);
    manager.release(first);

    assert!(manager.reserve_name(Some(name), None, ROOM, Some(false)).is_ok());
}

#[test]
fn overlapping_generated_reservations_never_collide() {
    let mut manager = manager();
    let mut claims = Vec::new();
    for i in 0..16 {
        let name = format!("generated-{}", i / 2);
        if let Ok(claim) = manager.reserve_name(None, Some(name), ROOM, None) {
            claims.push(claim);
        }
    }
    let mut names: Vec<String> = claims.iter().map(|claim| claim.name()).collect();
    let total = names.len();
    names.sort();
    names.dedup();
    assert_eq!(names.len(), total);
    assert_eq!(total, 8);
}

#[test]
fn a_reservation_is_freed_even_when_creation_fails() {
    let mut manager = manager();
    let name = "zellij-api-test-failed-create".to_string();

    let step = manager.create(Some(name.clone()), None, None, None, None, host());
    let creation = match step {
        CreationStep::Spawn { session_name, creation } => {
            assert_eq!(session_name, name);
            creation
        },
        other => panic!("{:?}", other),
    };
    assert!(manager.reserve_name(Some(name.clone()), None, ROOM, Some(false)).is_err());
    let result = manager.proceed(creation, Err("no such file".to_string()));
    assert!(matches!(
        result,
        CreationStep::Failed { message } if message == "could not spawn the session server: no such file"
    ));

    assert!(
        manager.reserve_name(Some(name), None, ROOM, Some(false)).is_ok(),
        "a failed creation must release its name reservation"
    );
}

#[test]
fn names_that_cannot_be_claimed_are_refused_with_their_reason() {
    let refused = |name: &str| candidate_name(named(name), None, 4).unwrap_err();
    let empty = "Session name cannot be empty. Please provide a specific session name.";
    assert_eq!(refused(""), empty);
    assert_eq!(refused(" \t\u{3000}"), empty);
    assert_eq!(refused("."), "Invalid session name: \".\".");
    assert_eq!(refused(".."), "Invalid session name: \"..\".");
    assert_eq!(refused("a/b"), "Session name cannot contain '/'.");
    assert_eq!(refused("abcde"), "session name must be less than 5 characters");
    assert_eq!(refused("\u{e9}\u{e9}\u{e9}"), "session name must be less than 5 characters");
    assert_eq!(candidate_name(named("abcd"), None, 4), Ok("abcd".to_string()));
    assert_eq!(candidate_name(named("..."), None, 4), Ok("...".to_string()));
    assert_eq!(candidate_name(None, named("made"), 4), Ok("made".to_string()));
    assert_eq!(candidate_name(named("want"), named("made"), 4), Ok("want".to_string()));
    assert_eq!(
        candidate_name(None, None, 4),
        Err("could not generate a session name".to_string())
    );
}

#[test]
fn a_socket_path_has_room_for_its_name() {
    assert_eq!(longest_name(20, 108), 86);
    assert_eq!(longest_name(106, 108), 0);
    assert_eq!(longest_name(107, 108), 0);
    assert_eq!(longest_name(0, 2), 0);
    assert_eq!(longest_name(0, 1), 0);
    assert_eq!(longest_name(usize::MAX, usize::MAX), 0);
    assert_eq!(longest_name(0, usize::MAX), usize::MAX - 2);
}

#[test]
fn a_manager_begins_with_nothing() {
    let mut manager: SessionManager<u32> = SessionManager::default();
    assert!(manager.linked_sessions().is_empty());
    assert!(manager.reserve_name(named("work"), None, ROOM, Some(false)).is_ok());
}

#[test]
fn a_running_session_keeps_its_name() {
    let mut manager = manager();
    assert_eq!(
        manager.reserve_name(named("work"), None, ROOM, Some(true)).unwrap_err(),
        "session 'work' already exists"
    );
    assert!(manager.reserve_name(named("work"), None, ROOM, None).is_ok());
}

#[test]
fn sessions_are_listed_by_name() {
    let listed = manager().list(
        Some(vec![aged("work", 5), aged("Zoo", 7), aged("a", 1)]),
        vec![aged("old", 90), aged("work", 4), aged("aa", 0)],
    );
    assert_eq!(
        listed,
        vec![
            summary("Zoo", 7, false),
            summary("a", 1, false),
            summary("aa", 0, true),
            summary("old", 90, true),
            summary("work", 5, false),
        ]
    );
}

#[test]
fn sessions_of_one_name_keep_their_order() {
    let listed = manager().list(
        Some(vec![aged("b", 2), aged("a", 3), aged("b", 1)]),
        vec![aged("c", 9), aged("c", 8)],
    );
    assert_eq!(
        listed,
        vec![
            summary("a", 3, false),
            summary("b", 2, false),
            summary("b", 1, false),
            summary("c", 9, true),
            summary("c", 8, true),
        ]
    );
}

#[test]
fn without_running_sessions_the_dead_ones_are_listed() {
    let listed = manager().list(None, vec![aged("y", 1), aged("x", 90)]);
    assert_eq!(listed, vec![summary("x", 90, true), summary("y", 1, true)]);
    assert_eq!(manager().list(None, Vec::new()), Vec::new());
}

#[test]
fn created_sessions_start_without_a_greeting_and_open_to_the_web() {
    assert_eq!(
        api_session_options(),
        SessionOptions {
            show_release_notes: Some(false),
            show_startup_tips: Some(false),
            web_sharing: Some(WebSharing::On),
        }
    );
}

#[test]
fn a_session_is_up_when_its_server_says_so() {
    assert_eq!(wait_until_started(Some(ServerMessage::Connected), true), StartVerdict::Started);
    assert_eq!(wait_until_started(Some(ServerMessage::Render), false), StartVerdict::Started);
    assert_eq!(wait_until_started(Some(ServerMessage::Other), false), StartVerdict::KeepWaiting);
    let failed = |message: Option<ServerMessage>, late: bool| match wait_until_started(message, late)
    {
        StartVerdict::Failed(message) => message,
        other => panic!("{:?}", other),
    };
    assert_eq!(
        failed(Some(ServerMessage::Other), true),
        "timed out waiting for the session to start"
    );
    assert_eq!(failed(None, false), "lost the connection while starting the session");
    assert_eq!(
        failed(Some(ServerMessage::Exit { reason: "bye".to_string() }), false),
        "session exited during startup: bye"
    );
    let lines = vec!["one".to_string(), "two".to_string(), "three".to_string()];
    assert_eq!(failed(Some(ServerMessage::LogError { lines }), false), "one\ntwo\nthree");
    assert_eq!(failed(Some(ServerMessage::LogError { lines: Vec::new() }), false), "");
}

#[test]
fn a_creation_runs_to_its_end() {
    let mut manager = manager();
    let step = manager.create(
        None,
        named("layouts/work.kdl"),
        named("/tmp"),
        Some(40),
        None,
        HostFacts { generated: named("made-up"), ..host() },
    );
    let creation = match step {
        CreationStep::Spawn { session_name, creation } => {
            assert_eq!(session_name, "made-up");
            creation
        },
        other => panic!("{:?}", other),
    };
    let creation = match manager.proceed(creation, Ok(())) {
        CreationStep::Connect { creation } => creation,
        other => panic!("{:?}", other),
    };
    let creation = match manager.proceed(creation, Ok(())) {
        CreationStep::CheckLayout { path, creation } => {
            assert_eq!(path, "layouts/work.kdl");
            creation
        },
        other => panic!("{:?}", other),
    };
    let startup = match manager.proceed(creation, Ok(())) {
        CreationStep::Start { assets, startup } => {
            assert_eq!(
                assets,
                SessionAssets {
                    options: api_session_options(),
                    layout: Some(LayoutInfo::File("layouts/work.kdl".to_string())),
                    rows: 40,
                    cols: 80,
                    cwd: named("/tmp"),
                }
            );
            startup
        },
        other => panic!("{:?}", other),
    };
    let startup = match manager.received(startup, Some(ServerMessage::Other), false) {
        CreationStep::Receive { startup } => startup,
        other => panic!("{:?}", other),
    };
    assert!(manager.reserve_name(named("made-up"), None, ROOM, Some(false)).is_err());
    match manager.received(startup, Some(ServerMessage::Render), true) {
        CreationStep::Started { session_name } => assert_eq!(session_name, "made-up"),
        other => panic!("{:?}", other),
    }
    assert!(manager.reserve_name(named("made-up"), None, ROOM, Some(false)).is_ok());
}

#[test]
fn a_creation_without_a_layout_takes_the_usual_size() {
    let mut manager = manager();
    let creation = match manager.create(named("plain"), None, None, None, None, host()) {
        CreationStep::Spawn { creation, .. } => creation,
        other => panic!("{:?}", other),
    };
    let creation = match manager.proceed(creation, Ok(())) {
        CreationStep::Connect { creation } => creation,
        other => panic!("{:?}", other),
    };
    match manager.proceed(creation, Ok(())) {
        CreationStep::Start { assets, .. } => {
            assert_eq!(assets.layout, None);
            assert_eq!((assets.rows, assets.cols), (DEFAULT_ROWS, DEFAULT_COLS));
            assert_eq!((assets.rows, assets.cols), (24, 80));
            assert_eq!(assets.cwd, None);
        },
        other => panic!("{:?}", other),
    }
    assert_eq!(SESSION_START_TIMEOUT_SECS, 10);
}

#[test]
fn a_creation_fails_with_the_reason_of_its_step() {
    let mut manager = manager();
    let connecting = |manager: &mut SessionManager<u32>, layout: Option<String>| {
        let creation = match manager.create(named("work"), layout, None, None, None, host()) {
            CreationStep::Spawn { creation, .. } => creation,
            other => panic!("{:?}", other),
        };
        match manager.proceed(creation, Ok(())) {
            CreationStep::Connect { creation } => creation,
            other => panic!("{:?}", other),
        }
    };
    let creation = connecting(&mut manager, None);
    assert!(matches!(
        manager.proceed(creation, Err("denied".to_string())),
        CreationStep::Failed { message } if message == "could not open client IPC: denied"
    ));
    let creation = connecting(&mut manager, named("gone.kdl"));
    let creation = match manager.proceed(creation, Ok(())) {
        CreationStep::CheckLayout { creation, .. } => creation,
        other => panic!("{:?}", other),
    };
    assert!(matches!(
        manager.proceed(creation, Err("whatever".to_string())),
        CreationStep::Failed { message } if message == "no layout file at 'gone.kdl'"
    ));
    let creation = connecting(&mut manager, named("compact"));
    let startup = match manager.proceed(creation, Ok(())) {
        CreationStep::Start { assets, startup } => {
            assert_eq!(assets.layout, Some(LayoutInfo::BuiltIn("compact".to_string())));
            startup
        },
        other => panic!("{:?}", other),
    };
    assert!(matches!(
        manager.received(startup, None, false),
        CreationStep::Failed { message } if message == "lost the connection while starting the session"
    ));
    assert!(manager.reserve_name(named("work"), None, ROOM, Some(false)).is_ok());
}
