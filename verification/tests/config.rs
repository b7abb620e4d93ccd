use shire_blocker::config::{
    check_day_name, validate, validate_blocks_exist, validate_day, validate_schedule_times,
    validate_time, Block, Config, Schedule,
};

fn block(name: &str) -> Block {
    Block { name: name.to_string(), active_by_default: None, whitelist: None, blacklist: None }
}

fn entry(block: &str, days: &[&str], start: &str, end: &str) -> Schedule {
    Schedule {
        block: block.to_string(),
        days: days.iter().map(|d| d.to_string()).collect(),
        start: start.to_string(),
        end: end.to_string(),
    }
}

#[test]
fn test_validate_day_valid_days() {
    assert!(validate_day("Mon").is_ok());
    assert!(validate_day("Tue").is_ok());
    assert!(validate_day("Wed").is_ok());
    assert!(validate_day("Thu").is_ok());
    assert!(validate_day("Fri").is_ok());
    assert!(validate_day("Sat").is_ok());
    assert!(validate_day("Sun").is_ok());
}

#[test]
fn test_validate_day_invalid_days() {
    assert!(validate_day("monday").is_err());
    assert!(validate_day("xyz").is_err());
    assert!(validate_day("").is_err());
    assert!(validate_day("123").is_err());
}

#[test]
fn test_validate_day_error_message() {
    let result = validate_day("invalid");
    assert!(result.is_err());
    let error = result.unwrap_err();
    assert!(error.contains("Invalid day: 'invalid'"));
    assert!(error.contains("Valid days are:"));
}

#[test]
fn validate_day_ignores_case() {
    assert!(validate_day("MON").is_ok());
    assert!(validate_day("sUn").is_ok());
    assert!(validate_day("fri").is_ok());
    assert_eq!(
        validate_day("Funday").unwrap_err(),
        "Invalid day: 'Funday'. Valid days are: mon, tue, wed, thu, fri, sat, sun"
    );
}

#[test]
fn check_day_name_goes_by_the_lowered_form() {
    assert!(check_day_name("Mon", "mon").is_ok());
    assert!(check_day_name("Mon", "Mon").is_err());
    assert_eq!(
        check_day_name("X", "x").unwrap_err(),
        "Invalid day: 'X'. Valid days are: mon, tue, wed, thu, fri, sat, sun"
    );
}

#[test]
fn validate_time_accepts_hours_and_minutes() {
    assert_eq!(validate_time("09:30"), Ok((9, 30)));
    assert_eq!(validate_time("00:00"), Ok((0, 0)));
    assert_eq!(validate_time("23:59"), Ok((23, 59)));
    assert_eq!(validate_time("+9:05"), Ok((9, 5)));
    assert_eq!(validate_time("-0:30"), Ok((0, 30)));
    assert_eq!(validate_time("009:030"), Ok((9, 30)));
}

#[test]
fn validate_time_rejects_bad_formats() {
    assert_eq!(validate_time("9:30").unwrap_err(), "Invalid time format: 9:30");
    assert_eq!(validate_time("").unwrap_err(), "Invalid time format: ");
    assert_eq!(validate_time("09300").unwrap_err(), "Invalid time format: 09300");
    assert_eq!(validate_time("09:30:00").unwrap_err(), "Invalid time format: 09:30:00");
    assert_eq!(validate_time("::::::").unwrap_err(), "Invalid time format: ::::::");
}

#[test]
fn validate_time_rejects_bad_numbers() {
    assert_eq!(validate_time("ab:30").unwrap_err(), "Invalid hour: ab");
    assert_eq!(validate_time(":3000").unwrap_err(), "Invalid hour: ");
    assert_eq!(validate_time("09:xy").unwrap_err(), "Invalid minute: xy");
    assert_eq!(validate_time("0900:").unwrap_err(), "Invalid minute: ");
    assert_eq!(validate_time("9 :30").unwrap_err(), "Invalid hour: 9 ");
    assert_eq!(validate_time("é:30").unwrap_err(), "Invalid hour: é");
    assert_eq!(validate_time("99999999999:30").unwrap_err(), "Invalid hour: 99999999999");
    assert_eq!(validate_time("2147483648:30").unwrap_err(), "Invalid hour: 2147483648");
    assert_eq!(validate_time("xx:yy").unwrap_err(), "Invalid hour: xx");
}

#[test]
fn validate_time_rejects_numbers_out_of_range() {
    assert_eq!(validate_time("24:00").unwrap_err(), "Hour out of range (0-23): 24");
    assert_eq!(validate_time("-5:30").unwrap_err(), "Hour out of range (0-23): -5");
    assert_eq!(validate_time("12:60").unwrap_err(), "Minute out of range (0-59): 60");
    assert_eq!(validate_time("12:-1").unwrap_err(), "Minute out of range (0-59): -1");
    assert_eq!(
        validate_time("2147483647:00").unwrap_err(),
        "Hour out of range (0-23): 2147483647"
    );
    assert_eq!(
        validate_time("-2147483648:0").unwrap_err(),
        "Hour out of range (0-23): -2147483648"
    );
    assert_eq!(validate_time("25:99").unwrap_err(), "Hour out of range (0-23): 25");
}

#[test]
fn schedule_must_name_configured_blocks() {
    let config = Config {
        blocks: vec![block("social"), block("news")],
        schedule: vec![
            entry("news", &["Mon"], "09:00", "17:00"),
            entry("games", &["Mon"], "09:00", "17:00"),
            entry("other", &["Mon"], "09:00", "17:00"),
        ],
    };
    assert_eq!(
        validate_blocks_exist(&config).unwrap_err(),
        "Schedule references non-existent block: 'games'."
    );
    let fine = Config {
        blocks: vec![block("social")],
        schedule: vec![entry("social", &["Mon"], "09:00", "17:00")],
    };
    assert!(validate_blocks_exist(&fine).is_ok());
    let empty = Config { blocks: vec![], schedule: vec![] };
    assert!(validate_blocks_exist(&empty).is_ok());
}

#[test]
fn schedule_times_report_the_first_error() {
    let bad_day = Config {
        blocks: vec![block("social")],
        schedule: vec![entry("social", &["Mon", "Someday", "Never"], "xx:00", "17:00")],
    };
    assert_eq!(
        validate_schedule_times(&bad_day).unwrap_err(),
        "Invalid day: 'Someday'. Valid days are: mon, tue, wed, thu, fri, sat, sun"
    );
    let bad_start = Config {
        blocks: vec![block("social")],
        schedule: vec![
            entry("social", &["Mon"], "09:00", "17:00"),
            entry("social", &["Tue"], "25:00", "99:99"),
        ],
    };
    assert_eq!(
        validate_schedule_times(&bad_start).unwrap_err(),
        "Invalid start time in schedule for block 'social': Hour out of range (0-23): 25"
    );
    let bad_end = Config {
        blocks: vec![block("social")],
        schedule: vec![entry("social", &["Tue"], "09:00", "17:6x")],
    };
    assert_eq!(
        validate_schedule_times(&bad_end).unwrap_err(),
        "Invalid end time in schedule for block 'social': Invalid minute: 6x"
    );
    let fine = Config {
        blocks: vec![],
        schedule: vec![entry("anything", &["mon", "TUE"], "09:00", "17:00")],
    };
    assert!(validate_schedule_times(&fine).is_ok());
}

#[test]
fn validate_checks_references_before_times() {
    let config = Config {
        blocks: vec![block("social")],
        schedule: vec![entry("games", &["Noday"], "xx", "yy")],
    };
    assert_eq!(validate(&config).unwrap_err(), "Schedule references non-existent block: 'games'.");
    let config = Config {
        blocks: vec![block("social")],
        schedule: vec![entry("social", &["Noday"], "xx", "yy")],
    };
    assert_eq!(
        validate(&config).unwrap_err(),
        "Invalid day: 'Noday'. Valid days are: mon, tue, wed, thu, fri, sat, sun"
    );
    let config = Config {
        blocks: vec![block("social")],
        schedule: vec![entry("social", &["Mon"], "09:00", "17:00")],
    };
    assert!(validate(&config).is_ok());
}
