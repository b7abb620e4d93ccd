use shire_blocker::config::{Block, Config, Schedule};
use shire_blocker::notifier::Notifier;
use shire_blocker::state::{
    get_blacklist, get_whitelist, initialize_application_state, load_application_state,
    update_block, ApplicationState, BlockState, ErrorKind,
};
use shire_blocker::week::{
    create_event, day_of_name, parse_day, parse_time, OrderableWeekday, ScheduleAction,
    TimeOfDay, Weekday,
};

fn strings(entries: &[&str]) -> Vec<String> {
    entries.iter().map(|e| e.to_string()).collect()
}

fn block(name: &str, active: Option<bool>, black: &[&str], white: &[&str]) -> Block {
    Block {
        name: name.to_string(),
        active_by_default: active,
        whitelist: Some(strings(white)),
        blacklist: Some(strings(black)),
    }
}

fn entry(block: &str, days: &[&str], start: &str, end: &str) -> Schedule {
    Schedule {
        block: block.to_string(),
        days: strings(days),
        start: start.to_string(),
        end: end.to_string(),
    }
}

fn registry() -> ApplicationState {
    initialize_application_state(Config {
        blocks: vec![
            block("social", None, &["twitter.com", "facebook.com"], &[]),
            block("video", Some(true), &["youtube.com"], &["youtube.com/results*"]),
            block("news", Some(false), &["news.example"], &["news.example/weather"]),
        ],
        schedule: vec![],
    })
}

fn states(state: &ApplicationState) -> Vec<(String, BlockState)> {
    state.list()
}

fn update(state: &mut ApplicationState, name: &str, to: BlockState) -> Result<(), ErrorKind> {
    update_block(state, name, to, &mut Notifier::new())
}

fn transition(
    state: &mut ApplicationState,
    name: &str,
    requested: BlockState,
    lock_until: Option<u64>,
    expiry_met: bool,
) -> Result<(), ErrorKind> {
    state.apply_transition(name, requested, lock_until, expiry_met, &mut Notifier::new())
}

#[test]
fn blocks_start_in_their_default_state() {
    let state = registry();
    assert_eq!(
        states(&state),
        vec![
            ("social".to_string(), BlockState::Unblocked),
            ("video".to_string(), BlockState::Blocked),
            ("news".to_string(), BlockState::Unblocked),
        ]
    );
    assert_eq!(state.state_of("video"), Some(BlockState::Blocked));
    assert_eq!(state.state_of("nothing"), None);
    assert_eq!(state.lock_until("video"), None);
}

#[test]
fn later_block_of_the_same_name_stands() {
    let state = initialize_application_state(Config {
        blocks: vec![
            block("a", None, &["one"], &[]),
            block("b", None, &["two"], &[]),
            block("a", Some(true), &["three"], &[]),
        ],
        schedule: vec![],
    });
    assert_eq!(
        states(&state),
        vec![("a".to_string(), BlockState::Blocked), ("b".to_string(), BlockState::Unblocked)]
    );
    assert_eq!(get_blacklist(&state), strings(&["three"]));
}

#[test]
fn lists_are_those_of_the_active_blocks() {
    let mut state = registry();
    assert_eq!(get_blacklist(&state), strings(&["youtube.com"]));
    assert_eq!(get_whitelist(&state), strings(&["youtube.com/results*"]));
    assert_eq!(update(&mut state, "social", BlockState::Blocked), Ok(()));
    assert_eq!(update(&mut state, "news", BlockState::BlockedWithLock), Ok(()));
    assert_eq!(
        get_blacklist(&state),
        strings(&["twitter.com", "facebook.com", "youtube.com", "news.example"])
    );
    assert_eq!(get_whitelist(&state), strings(&["youtube.com/results*", "news.example/weather"]));
    assert_eq!(update(&mut state, "video", BlockState::Unblocked), Ok(()));
    assert_eq!(get_blacklist(&state), strings(&["twitter.com", "facebook.com", "news.example"]));
}

#[test]
fn absent_lists_contribute_nothing() {
    let state = initialize_application_state(Config {
        blocks: vec![Block {
            name: "bare".to_string(),
            active_by_default: Some(true),
            whitelist: None,
            blacklist: None,
        }],
        schedule: vec![],
    });
    assert!(get_blacklist(&state).is_empty());
    assert!(get_whitelist(&state).is_empty());
}

#[test]
fn update_block_keeps_to_the_state_rules() {
    let mut state = registry();
    assert_eq!(update(&mut state, "social", BlockState::Blocked), Ok(()));
    assert_eq!(state.state_of("social"), Some(BlockState::Blocked));
    assert_eq!(update(&mut state, "social", BlockState::Unblocked), Ok(()));
    assert_eq!(state.state_of("social"), Some(BlockState::Unblocked));
    assert_eq!(update(&mut state, "social", BlockState::BlockedWithLock), Ok(()));
    assert_eq!(state.state_of("social"), Some(BlockState::BlockedWithLock));
    assert_eq!(state.lock_until("social"), None);
    for requested in [BlockState::Unblocked, BlockState::Blocked, BlockState::BlockedWithLock] {
        assert_eq!(update(&mut state, "social", requested), Err(ErrorKind::LockActive));
        assert_eq!(state.state_of("social"), Some(BlockState::BlockedWithLock));
    }
    let before = states(&state);
    assert_eq!(update(&mut state, "missing", BlockState::Blocked), Err(ErrorKind::NotFound));
    assert_eq!(states(&state), before);
}

#[test]
fn transitions_follow_the_state_rules() {
    let mut state = registry();
    assert_eq!(transition(&mut state, "missing", BlockState::Blocked, None, true), Err(ErrorKind::NotFound));
    assert_eq!(transition(&mut state, "social", BlockState::Blocked, None, false), Ok(()));
    assert_eq!(transition(&mut state, "social", BlockState::Blocked, None, false), Ok(()));
    assert_eq!(transition(&mut state, "social", BlockState::Unblocked, None, false), Ok(()));
    assert_eq!(transition(&mut state, "social", BlockState::Unblocked, None, false), Ok(()));
    assert_eq!(
        transition(&mut state, "social", BlockState::BlockedWithLock, Some(500), false),
        Ok(())
    );
    assert_eq!(state.lock_until("social"), Some(500));
    for requested in [BlockState::Unblocked, BlockState::Blocked, BlockState::BlockedWithLock] {
        assert_eq!(
            transition(&mut state, "social", requested, Some(9), false),
            Err(ErrorKind::LockActive)
        );
        assert_eq!(state.state_of("social"), Some(BlockState::BlockedWithLock));
        assert_eq!(state.lock_until("social"), Some(500));
    }
    assert_eq!(
        transition(&mut state, "social", BlockState::Blocked, None, true),
        Err(ErrorKind::LockActive)
    );
    assert_eq!(
        transition(&mut state, "social", BlockState::BlockedWithLock, None, true),
        Err(ErrorKind::LockActive)
    );
    assert_eq!(transition(&mut state, "social", BlockState::Unblocked, Some(7), true), Ok(()));
    assert_eq!(state.state_of("social"), Some(BlockState::Unblocked));
    assert_eq!(state.lock_until("social"), None);
    assert_eq!(transition(&mut state, "video", BlockState::BlockedWithLock, None, false), Ok(()));
    assert_eq!(state.state_of("video"), Some(BlockState::BlockedWithLock));
}

#[test]
fn state_names_and_activity() {
    assert_eq!(BlockState::Unblocked.as_str(), "Unblocked");
    assert_eq!(BlockState::Blocked.as_str(), "Blocked");
    assert_eq!(BlockState::BlockedWithLock.as_str(), "BlockedWithLock");
    assert!(!BlockState::Unblocked.is_active());
    assert!(BlockState::Blocked.is_active());
    assert!(BlockState::BlockedWithLock.is_active());
}

#[test]
fn days_and_times_are_read_exactly() {
    assert_eq!(parse_day("Mon"), Ok(Weekday::Mon));
    assert_eq!(parse_day("Sun"), Ok(Weekday::Sun));
    assert_eq!(parse_day("mon"), Ok(Weekday::Mon));
    assert_eq!(parse_day("TUE"), Ok(Weekday::Tue));
    assert_eq!(parse_day("sAt"), Ok(Weekday::Sat));
    assert_eq!(parse_day("monday"), Err("Invalid day: monday".to_string()));
    assert_eq!(parse_day(""), Err("Invalid day: ".to_string()));
    assert_eq!(day_of_name("fri"), Some(Weekday::Fri));
    assert_eq!(day_of_name("Fri"), None);
    assert_eq!(parse_time("09:30"), Some(TimeOfDay { hour: 9, minute: 30 }));
    assert_eq!(parse_time("23:59"), Some(TimeOfDay { hour: 23, minute: 59 }));
    assert_eq!(parse_time("24:00"), None);
    assert_eq!(parse_time("9:30"), None);
    assert_eq!(TimeOfDay::from_hm(7, 5), Some(TimeOfDay { hour: 7, minute: 5 }));
    assert_eq!(TimeOfDay::from_hm(24, 0), None);
    assert_eq!(TimeOfDay::from_hm(0, 60), None);
    assert_eq!(TimeOfDay { hour: 1, minute: 1 }.num_seconds_from_midnight(), 3660);
    assert_eq!(OrderableWeekday(Weekday::Mon).num_days_from_monday(), 0);
    assert_eq!(OrderableWeekday(Weekday::Sun).num_days_from_monday(), 6);
    assert_eq!(OrderableWeekday::from_index(3), Some(OrderableWeekday(Weekday::Thu)));
    assert_eq!(OrderableWeekday::from_index(7), None);
    assert!(OrderableWeekday(Weekday::Tue) < OrderableWeekday(Weekday::Sat));
    assert!(OrderableWeekday(Weekday::Sun) > OrderableWeekday(Weekday::Mon));
    assert_eq!(OrderableWeekday::from(Weekday::Wed), OrderableWeekday(Weekday::Wed));
    let day: OrderableWeekday = Weekday::Fri.into();
    assert_eq!(day.num_days_from_monday(), 4);
}

#[test]
fn schedule_is_expanded_and_kept_in_order() {
    let state = initialize_application_state(Config {
        blocks: vec![block("social", None, &[], &[]), block("video", None, &[], &[])],
        schedule: vec![
            entry("social", &["Wed", "Mon", "mon"], "09:00", "17:00"),
            entry("video", &["MON"], "08:30", "09:00"),
        ],
    });
    let events: Vec<(String, u32, u32, ScheduleAction)> = state
        .schedule()
        .iter()
        .map(|e| {
            (
                e.block.clone(),
                e.day.num_days_from_monday(),
                e.time.num_seconds_from_midnight(),
                e.action,
            )
        })
        .collect();
    assert_eq!(
        events,
        vec![
            ("video".to_string(), 0, 8 * 3600 + 1800, ScheduleAction::StartBlock),
            ("social".to_string(), 0, 9 * 3600, ScheduleAction::StartBlock),
            ("social".to_string(), 0, 9 * 3600, ScheduleAction::StartBlock),
            ("video".to_string(), 0, 9 * 3600, ScheduleAction::EndBlock),
            ("social".to_string(), 0, 17 * 3600, ScheduleAction::EndBlock),
            ("social".to_string(), 0, 17 * 3600, ScheduleAction::EndBlock),
            ("social".to_string(), 2, 9 * 3600, ScheduleAction::StartBlock),
            ("social".to_string(), 2, 17 * 3600, ScheduleAction::EndBlock),
        ]
    );
}

#[test]
fn create_event_keeps_its_parts() {
    let event = create_event(
        OrderableWeekday(Weekday::Fri),
        TimeOfDay { hour: 12, minute: 0 },
        "social".to_string(),
        ScheduleAction::EndBlock,
    );
    assert_eq!(event.block, "social");
    assert_eq!(event.day, OrderableWeekday(Weekday::Fri));
    assert_eq!(event.time, TimeOfDay { hour: 12, minute: 0 });
    assert_eq!(event.action, ScheduleAction::EndBlock);
}

#[test]
fn loading_refuses_a_configuration_that_fails_a_check() {
    let dangling = Config {
        blocks: vec![block("social", None, &[], &[])],
        schedule: vec![entry("games", &["Mon"], "09:00", "17:00")],
    };
    assert_eq!(
        load_application_state(dangling).err(),
        Some("Schedule references non-existent block: 'games'.".to_string())
    );
    let bad_time = Config {
        blocks: vec![block("social", None, &[], &[])],
        schedule: vec![entry("social", &["Mon"], "09:00", "24:00")],
    };
    assert_eq!(
        load_application_state(bad_time).err(),
        Some(
            "Invalid end time in schedule for block 'social': Hour out of range (0-23): 24"
                .to_string()
        )
    );
    let fine = Config {
        blocks: vec![block("social", Some(true), &[], &[])],
        schedule: vec![entry("social", &["Mon"], "09:00", "17:00")],
    };
    let state = load_application_state(fine).unwrap();
    assert_eq!(state.list(), vec![("social".to_string(), BlockState::Blocked)]);
    assert_eq!(state.schedule().len(), 2);
}

#[test]
fn every_listed_day_gives_a_start_and_an_end() {
    let state = initialize_application_state(Config {
        blocks: vec![block("social", None, &[], &[])],
        schedule: vec![
            entry("social", &["mon"], "09:00", "17:00"),
            entry("social", &["TUE", "Wed", "sun", "Sun"], "06:15", "07:45"),
            entry("social", &[], "00:00", "23:59"),
        ],
    });
    let schedule = state.schedule();
    assert_eq!(schedule.len(), 2 * (1 + 4 + 0));
    for (day, start, end, times) in
        [(0, 9 * 3600, 17 * 3600, 1), (1, 22500, 27900, 1), (2, 22500, 27900, 1), (6, 22500, 27900, 2)]
    {
        for (at, action) in [(start, ScheduleAction::StartBlock), (end, ScheduleAction::EndBlock)] {
            let found = schedule
                .iter()
                .filter(|e| {
                    e.day.num_days_from_monday() == day
                        && e.time.num_seconds_from_midnight() == at
                        && e.action == action
                        && e.block == "social"
                })
                .count();
            assert_eq!(found, times);
        }
    }
}

#[test]
fn update_block_raises_the_signal_where_it_is_carried_out() {
    let mut state = registry();
    let mut notifier = Notifier::new();
    assert_eq!(
        update_block(&mut state, "missing", BlockState::Blocked, &mut notifier),
        Err(ErrorKind::NotFound)
    );
    assert!(!notifier.is_pending());
    assert_eq!(
        update_block(&mut state, "social", BlockState::BlockedWithLock, &mut notifier),
        Ok(())
    );
    assert!(notifier.take());
    assert_eq!(
        update_block(&mut state, "social", BlockState::Unblocked, &mut notifier),
        Err(ErrorKind::LockActive)
    );
    assert!(!notifier.is_pending());
    assert_eq!(state.state_of("social"), Some(BlockState::BlockedWithLock));
    assert_eq!(
        state.apply_transition("missing", BlockState::Blocked, None, false, &mut notifier),
        Err(ErrorKind::NotFound)
    );
    assert!(!notifier.is_pending());
    assert_eq!(
        state.apply_transition("news", BlockState::Blocked, None, false, &mut notifier),
        Ok(())
    );
    assert!(notifier.is_pending());
}
