use shire_blocker::check::{
    check_url, handle_bridge_request, handle_check_request, render_decision, snapshot_lists,
};
use shire_blocker::config::{Block, Config, Schedule};
use shire_blocker::control::{
    decode_command, handle_cli_request, list_blocks, lock_block, parse_lock, read_command,
    render_error, run_command, start_block, stop_block, ControlCommand, ControlOutcome,
};
use shire_blocker::notifier::Notifier;
use shire_blocker::schedule::{Moment, Scheduler};
use shire_blocker::state::{initialize_application_state, ApplicationState, BlockState, ErrorKind};

fn strings(entries: &[&str]) -> Vec<String> {
    entries.iter().map(|e| e.to_string()).collect()
}

fn social() -> ApplicationState {
    initialize_application_state(Config {
        blocks: vec![Block {
            name: "social".to_string(),
            active_by_default: Some(false),
            whitelist: Some(vec![]),
            blacklist: Some(strings(&["twitter.com", "facebook.com"])),
        }],
        schedule: vec![Schedule {
            block: "social".to_string(),
            days: strings(&["Mon"]),
            start: "09:00".to_string(),
            end: "17:00".to_string(),
        }],
    })
}

fn handle(state: &mut ApplicationState, request: &str, now: u64) -> ControlOutcome {
    handle_cli_request(state, request, now, &mut Notifier::new())
}

fn run(state: &mut ApplicationState, command: &ControlCommand, now: u64) -> ControlOutcome {
    run_command(state, command, now, &mut Notifier::new())
}

fn start(state: &mut ApplicationState, name: &str) -> Result<(), ErrorKind> {
    start_block(state, name, &mut Notifier::new())
}

fn stop(state: &mut ApplicationState, name: &str, now: u64) -> Result<(), ErrorKind> {
    stop_block(state, name, now, &mut Notifier::new())
}

fn lock(state: &mut ApplicationState, name: &str, duration: &str, now: u64) -> Result<(), ErrorKind> {
    lock_block(state, name, duration, now, &mut Notifier::new())
}

fn fire(scheduler: &mut Scheduler, state: &mut ApplicationState, lock_on_start: bool) -> bool {
    scheduler.fire(state, lock_on_start, &mut Notifier::new())
}

#[test]
fn test_parse_json() {
    let json_str =
        r#"{"url":"https://www.google.com/search?client=firefox-b-1-d&q=json+parser+rust"}"#;

    let v: serde_json::Value = serde_json::from_str(json_str).unwrap_or_else(|_| {
        println!("Failed to parse JSON: {}", json_str);
        serde_json::Value::Null
    });
    assert_eq!(
        v["url"],
        "https://www.google.com/search?client=firefox-b-1-d&q=json+parser+rust"
    );

    // Test with an invalid JSON string
    let invalid_json_str = r#"{"url": "https://www.example.com""#;
    let v_invalid: serde_json::Value = serde_json::from_str(invalid_json_str).unwrap_or_else(|_| {
        println!("Failed to parse JSON: {}", invalid_json_str);
        serde_json::Value::Null
    });
    assert!(v_invalid.is_null());
}

#[test]
fn start_check_stop_check() {
    let mut state = social();
    let started = handle(&mut state, r#"{"action":"start_block","name":"social"}"#, 0);
    assert_eq!(started.response, r#"{"status":"started","block":"social"}"#);
    assert!(started.changed);
    assert_eq!(
        handle_check_request(&state, r#"{"url":"https://www.twitter.com/home"}"#),
        r#"{"allowed":false}"#
    );
    let stopped = handle(&mut state, r#"{"action":"stop_block","name":"social"}"#, 0);
    assert_eq!(stopped.response, r#"{"status":"stopped","block":"social"}"#);
    assert!(stopped.changed);
    assert_eq!(
        handle_check_request(&state, r#"{"url":"https://www.twitter.com/home"}"#),
        r#"{"allowed":true}"#
    );
}

#[test]
fn lock_then_stop_is_refused() {
    let mut state = social();
    let locked = handle(
        &mut state,
        r#"{"action":"lock_block","name":"social","lock":"1h"}"#,
        1000,
    );
    assert_eq!(locked.response, r#"{"status":"locked","block":"social"}"#);
    assert!(locked.changed);
    assert_eq!(state.lock_until("social"), Some(4600));
    let refused = handle(&mut state, r#"{"action":"stop_block","name":"social"}"#, 1001);
    assert_eq!(refused.response, r#"{"error":"LockActive","block":"social"}"#);
    assert!(!refused.changed);
    assert_eq!(state.state_of("social"), Some(BlockState::BlockedWithLock));
    assert_eq!(stop(&mut state, "social", 4599), Err(ErrorKind::LockActive));
    assert_eq!(state.state_of("social"), Some(BlockState::BlockedWithLock));
}

#[test]
fn stop_is_accepted_once_the_lock_has_expired() {
    let mut state = social();
    assert_eq!(lock(&mut state, "social", "90s", 10), Ok(()));
    assert_eq!(stop(&mut state, "social", 99), Err(ErrorKind::LockActive));
    assert_eq!(stop(&mut state, "social", 100), Ok(()));
    assert_eq!(state.state_of("social"), Some(BlockState::Unblocked));
    assert_eq!(state.lock_until("social"), None);
}

#[test]
fn end_event_releases_a_lock_that_stop_could_not() {
    let mut state = social();
    assert_eq!(lock(&mut state, "social", "2d", 0), Ok(()));
    assert_eq!(stop(&mut state, "social", 5), Err(ErrorKind::LockActive));
    assert_eq!(state.state_of("social"), Some(BlockState::BlockedWithLock));
    let mut scheduler = Scheduler::new(&state, Moment::new(0, 10 * 3600).unwrap());
    assert_eq!(scheduler.cursor(), 1);
    assert!(fire(&mut scheduler, &mut state, true));
    assert_eq!(state.state_of("social"), Some(BlockState::Unblocked));
}

#[test]
fn schedule_lock_is_released_only_by_the_schedule() {
    let mut state = social();
    let mut scheduler = Scheduler::new(&state, Moment::new(0, 0).unwrap());
    assert!(fire(&mut scheduler, &mut state, true));
    assert_eq!(state.state_of("social"), Some(BlockState::BlockedWithLock));
    assert_eq!(stop(&mut state, "social", u64::MAX), Err(ErrorKind::LockActive));
    assert_eq!(start(&mut state, "social"), Err(ErrorKind::LockActive));
    assert_eq!(lock(&mut state, "social", "1s", 0), Err(ErrorKind::LockActive));
    assert!(fire(&mut scheduler, &mut state, true));
    assert_eq!(state.state_of("social"), Some(BlockState::Unblocked));
}

#[test]
fn unknown_block_is_not_found() {
    let mut state = social();
    for request in [
        r#"{"action":"start_block","name":"games"}"#,
        r#"{"action":"stop_block","name":"games"}"#,
        r#"{"action":"lock_block","name":"games","lock":"1h"}"#,
    ] {
        let outcome = handle(&mut state, request, 0);
        assert_eq!(outcome.response, r#"{"error":"NotFound","block":"games"}"#);
        assert!(!outcome.changed);
    }
    assert_eq!(start(&mut state, "games"), Err(ErrorKind::NotFound));
    assert_eq!(stop(&mut state, "games", 0), Err(ErrorKind::NotFound));
    assert_eq!(lock(&mut state, "games", "1h", 0), Err(ErrorKind::NotFound));
    assert_eq!(state.list(), vec![("social".to_string(), BlockState::Unblocked)]);
}

#[test]
fn requests_that_cannot_be_read_are_bad_requests() {
    let mut state = social();
    for request in [
        "",
        "not json",
        r#"{"action":"start_block","name":"social""#,
        r#"{"name":"social"}"#,
        r#"{"action":"start_block"}"#,
        r#"{"action":"stop_block","name":7}"#,
        r#"{"action":"lock_block","name":"social"}"#,
        r#"{"action":"lock_block","name":"social","lock":null}"#,
        r#"{"action":"restart_block","name":"social"}"#,
        r#"{"action":["list_blocks"]}"#,
        r#"["list_blocks"]"#,
        "\u{a0}{\"action\":\"list_blocks\"}",
    ] {
        let outcome = handle(&mut state, request, 0);
        assert_eq!(outcome.response, r#"{"error":"BadRequest"}"#, "request: {}", request);
        assert!(!outcome.changed);
    }
    let outcome =
        handle(&mut state, r#"{"action":"lock_block","name":"social","lock":"soon"}"#, 0);
    assert_eq!(outcome.response, r#"{"error":"BadRequest","block":"social"}"#);
    assert_eq!(state.state_of("social"), Some(BlockState::Unblocked));
}

#[test]
fn surrounding_json_whitespace_is_accepted() {
    let mut state = social();
    let outcome = handle(&mut state, " \n{ \"action\" : \"list_blocks\" }\r\n\t", 0);
    assert_eq!(outcome.response, r#"{"blocks":{"social":"Unblocked"}}"#);
}

#[test]
fn listing_names_every_block_with_its_state() {
    let mut state = initialize_application_state(Config {
        blocks: vec![
            Block { name: "b".to_string(), active_by_default: Some(true), whitelist: None, blacklist: None },
            Block { name: "a \"quoted\" \\ name\n".to_string(), active_by_default: None, whitelist: None, blacklist: None },
            Block { name: "ü".to_string(), active_by_default: None, whitelist: None, blacklist: None },
        ],
        schedule: vec![],
    });
    assert_eq!(lock(&mut state, "ü", "5m", 0), Ok(()));
    let text = list_blocks(&state);
    assert_eq!(
        text,
        "{\"blocks\":{\"b\":\"Blocked\",\"a \\\"quoted\\\" \\\\ name\\n\":\"Unblocked\",\"ü\":\"BlockedWithLock\"}}"
    );
    let parsed: serde_json::Value = serde_json::from_str(&text).unwrap();
    let blocks = parsed["blocks"].as_object().unwrap();
    assert_eq!(blocks.len(), 3);
    assert_eq!(blocks["b"], "Blocked");
    assert_eq!(blocks["a \"quoted\" \\ name\n"], "Unblocked");
    assert_eq!(blocks["ü"], "BlockedWithLock");
    let outcome = handle(&mut state, r#"{"action":"list_blocks"}"#, 0);
    assert_eq!(outcome.response, text);
    assert!(!outcome.changed);
}

#[test]
fn listing_of_an_empty_registry() {
    let state = initialize_application_state(Config { blocks: vec![], schedule: vec![] });
    assert_eq!(list_blocks(&state), r#"{"blocks":{}}"#);
}

#[test]
fn listing_follows_the_transitions() {
    let mut state = social();
    let names = |state: &ApplicationState| -> Vec<String> {
        state.list().into_iter().map(|(name, _)| name).collect()
    };
    let before = names(&state);
    for (request, expected) in [
        (r#"{"action":"start_block","name":"social"}"#, "Blocked"),
        (r#"{"action":"start_block","name":"other"}"#, "Blocked"),
        (r#"{"action":"stop_block","name":"social"}"#, "Unblocked"),
        (r#"{"action":"lock_block","name":"social","lock":"1m"}"#, "BlockedWithLock"),
        (r#"{"action":"stop_block","name":"social"}"#, "BlockedWithLock"),
        (r#"{"action":"start_block","name":"social"}"#, "BlockedWithLock"),
        (r#"garbage"#, "BlockedWithLock"),
    ] {
        handle(&mut state, request, 0);
        assert_eq!(names(&state), before);
        assert_eq!(
            list_blocks(&state),
            format!("{{\"blocks\":{{\"social\":\"{}\"}}}}", expected)
        );
    }
}

#[test]
fn commands_are_decoded_from_their_members() {
    let some = |s: &str| Some(s.to_string());
    assert!(matches!(decode_command(some("list_blocks"), None, None), Ok(ControlCommand::ListBlocks)));
    assert!(matches!(
        decode_command(some("list_blocks"), some("x"), some("y")),
        Ok(ControlCommand::ListBlocks)
    ));
    match decode_command(some("start_block"), some("social"), some("1h")) {
        Ok(ControlCommand::StartBlock { name }) => assert_eq!(name, "social"),
        other => panic!("unexpected: {:?}", other),
    }
    match decode_command(some("stop_block"), some("social"), None) {
        Ok(ControlCommand::StopBlock { name }) => assert_eq!(name, "social"),
        other => panic!("unexpected: {:?}", other),
    }
    match decode_command(some("lock_block"), some("social"), some("1h")) {
        Ok(ControlCommand::LockBlock { name, lock }) => {
            assert_eq!(name, "social");
            assert_eq!(lock, "1h");
        }
        other => panic!("unexpected: {:?}", other),
    }
    assert!(matches!(decode_command(None, some("social"), None), Err(ErrorKind::BadRequest)));
    assert!(matches!(decode_command(some("start_block"), None, None), Err(ErrorKind::BadRequest)));
    assert!(matches!(decode_command(some("stop_block"), None, None), Err(ErrorKind::BadRequest)));
    assert!(matches!(decode_command(some("lock_block"), some("a"), None), Err(ErrorKind::BadRequest)));
    assert!(matches!(decode_command(some("lock_block"), None, some("1h")), Err(ErrorKind::BadRequest)));
    assert!(matches!(decode_command(some("List_blocks"), None, None), Err(ErrorKind::BadRequest)));
    match read_command(r#"{"lock":"2d","name":"näme","action":"lock_block","extra":[1,2]}"#) {
        Ok(ControlCommand::LockBlock { name, lock }) => {
            assert_eq!(name, "näme");
            assert_eq!(lock, "2d");
        }
        other => panic!("unexpected: {:?}", other),
    }
}

#[test]
fn run_command_answers_like_the_handler() {
    let mut state = social();
    let outcome =
        run(&mut state, &ControlCommand::StartBlock { name: "social".to_string() }, 0);
    assert_eq!(outcome.response, r#"{"status":"started","block":"social"}"#);
    assert!(outcome.changed);
    let outcome = run(&mut state, &ControlCommand::ListBlocks, 0);
    assert_eq!(outcome.response, r#"{"blocks":{"social":"Blocked"}}"#);
    assert!(!outcome.changed);
}

#[test]
fn lock_durations() {
    assert_eq!(parse_lock("1h"), Some(3600));
    assert_eq!(parse_lock("90s"), Some(90));
    assert_eq!(parse_lock("45m"), Some(2700));
    assert_eq!(parse_lock("2d"), Some(172800));
    assert_eq!(parse_lock("0s"), Some(0));
    assert_eq!(parse_lock("007m"), Some(420));
    assert_eq!(parse_lock("2147483647d"), Some(2147483647 * 86400));
    assert_eq!(parse_lock("2147483648s"), None);
    assert_eq!(parse_lock(""), None);
    assert_eq!(parse_lock("h"), None);
    assert_eq!(parse_lock("1"), None);
    assert_eq!(parse_lock("10"), None);
    assert_eq!(parse_lock("1H"), None);
    assert_eq!(parse_lock("+1h"), None);
    assert_eq!(parse_lock("-1h"), None);
    assert_eq!(parse_lock("1.5h"), None);
    assert_eq!(parse_lock("1 h"), None);
    assert_eq!(parse_lock("1hh"), None);
    assert_eq!(parse_lock("1w"), None);
}

#[test]
fn lock_instant_must_be_writable() {
    let mut state = social();
    assert_eq!(lock(&mut state, "social", "1s", u64::MAX), Err(ErrorKind::BadRequest));
    assert_eq!(state.state_of("social"), Some(BlockState::Unblocked));
    assert_eq!(lock(&mut state, "social", "1s", u64::MAX - 1), Ok(()));
    assert_eq!(state.lock_until("social"), Some(u64::MAX));
}

#[test]
fn error_responses() {
    assert_eq!(render_error(ErrorKind::NotFound, Some("a\"b")), r#"{"error":"NotFound","block":"a\"b"}"#);
    assert_eq!(render_error(ErrorKind::LockActive, Some("x")), r#"{"error":"LockActive","block":"x"}"#);
    assert_eq!(render_error(ErrorKind::BadRequest, None), r#"{"error":"BadRequest"}"#);
}

#[test]
fn check_requests() {
    let mut state = social();
    assert!(check_url(&state, "https://www.twitter.com/home"));
    assert_eq!(start(&mut state, "social"), Ok(()));
    assert!(!check_url(&state, "https://www.twitter.com/home"));
    assert!(!check_url(&state, "facebook.com"));
    assert!(check_url(&state, "https://example.com"));
    assert!(check_url(&state, ""));
    let (blacklist, whitelist) = snapshot_lists(&state);
    assert_eq!(blacklist, strings(&["twitter.com", "facebook.com"]));
    assert!(whitelist.is_empty());
    assert_eq!(
        handle_bridge_request(&blacklist, &whitelist, r#"{"url":"http://twitter.com"}"#),
        r#"{"allowed":false}"#
    );
    assert_eq!(
        handle_bridge_request(&blacklist, &strings(&["twitter.com/i/*"]), r#"{"url":"twitter.com/i/x"}"#),
        r#"{"allowed":true}"#
    );
    assert_eq!(handle_bridge_request(&blacklist, &whitelist, r#"{}"#), r#"{"allowed":true}"#);
    assert_eq!(handle_bridge_request(&blacklist, &whitelist, r#"{"url":5}"#), r#"{"allowed":true}"#);
    assert_eq!(handle_bridge_request(&strings(&[""]), &whitelist, r#"{}"#), r#"{"allowed":false}"#);
    assert_eq!(
        handle_bridge_request(&blacklist, &whitelist, r#"{"url": "https://www.example.com""#),
        r#"{"error":"BadRequest"}"#
    );
    assert_eq!(handle_check_request(&state, "nonsense"), r#"{"error":"BadRequest"}"#);
    assert_eq!(render_decision(true), r#"{"allowed":true}"#);
    assert_eq!(render_decision(false), r#"{"allowed":false}"#);
}

#[test]
fn successful_mutations_raise_the_signal() {
    let mut state = social();
    let mut notifier = Notifier::new();
    handle_cli_request(&mut state, r#"{"action":"list_blocks"}"#, 0, &mut notifier);
    assert!(!notifier.is_pending());
    handle_cli_request(&mut state, r#"{"action":"start_block","name":"ghost"}"#, 0, &mut notifier);
    assert!(!notifier.is_pending());
    handle_cli_request(&mut state, "nonsense", 0, &mut notifier);
    assert!(!notifier.is_pending());
    let outcome =
        handle_cli_request(&mut state, r#"{"action":"start_block","name":"social"}"#, 0, &mut notifier);
    assert!(outcome.changed);
    assert!(notifier.is_pending());
    assert!(notifier.take());
    assert_eq!(lock_block(&mut state, "social", "1h", 0, &mut notifier), Ok(()));
    assert!(notifier.take());
    assert_eq!(stop_block(&mut state, "social", 1, &mut notifier), Err(ErrorKind::LockActive));
    assert_eq!(start_block(&mut state, "social", &mut notifier), Err(ErrorKind::LockActive));
    assert!(!notifier.take());
    let mut scheduler = Scheduler::new(&state, Moment::new(0, 0).unwrap());
    assert!(!scheduler.fire(&mut state, true, &mut notifier));
    assert!(!notifier.is_pending());
    assert!(scheduler.fire(&mut state, true, &mut notifier));
    assert!(notifier.take());
    assert_eq!(stop_block(&mut state, "social", 1, &mut notifier), Ok(()));
    assert_eq!(start_block(&mut state, "social", &mut notifier), Ok(()));
    assert!(notifier.take());
    assert!(!notifier.take());
}
