//! The configuration value and the checks it must pass before a registry is
//! built from it.

use vstd::prelude::*;
use vstd::slice::slice_subrange;
use vstd::utf8::encode_utf8;
use crate::text::{
    chars_of, decimal_text, parse_i32, parsed_i32, push_decimal, same_text,
};

verus! {

/// A validated or yet to be validated configuration: the blocks and the
/// weekly schedule entries that refer to them.
#[derive(Debug, Clone)]
pub struct Config {
    pub blocks: Vec<Block>,
    pub schedule: Vec<Schedule>,
}

/// One configured block: its name, whether it starts active, and its lists.
#[derive(Debug, Clone, PartialEq, Eq, Hash)]
pub struct Block {
    pub name: String,
    pub active_by_default: Option<bool>,
    pub whitelist: Option<Vec<String>>,
    pub blacklist: Option<Vec<String>>,
}

/// One schedule entry: on each of `days`, the block starts at `start` and
/// ends at `end` (both `HH:MM`).
#[derive(Debug, Clone, PartialEq, Eq)]
pub struct Schedule {
    pub block: String,
    pub days: Vec<String>,
    pub start: String,
    pub end: String,
}

/// The text of a result's error message.
pub open spec fn message_view<T>(r: Result<T, String>) -> Result<T, Seq<char>> {
    match r {
        Ok(v) => Ok(v),
        Err(m) => Err(m@),
    }
}

/// The lower-case form of a text, as `str::to_lowercase` gives it.
pub uninterp spec fn lowercase(s: Seq<char>) -> Seq<char>;

/// `str::to_lowercase` of std: the result is the lower-case form of `s`,
/// a function of the text alone.
#[verifier::external_body]
pub(crate) fn to_lowercase(s: &str) -> (lowered: String)
    ensures
        lowered@ == lowercase(s@),
{
    s.to_lowercase()
}

/// Whether `s` is one of the seven day abbreviations, in lower case.
pub open spec fn is_day_name(s: Seq<char>) -> bool {
    s == "mon"@ || s == "tue"@ || s == "wed"@ || s == "thu"@ || s == "fri"@ || s == "sat"@ || s
        == "sun"@
}

/// The message for a day that is not one of the seven.
pub open spec fn invalid_day_message(day: Seq<char>) -> Seq<char> {
    "Invalid day: '"@ + day + "'. Valid days are: mon, tue, wed, thu, fri, sat, sun"@
}

/// What the check of a day name gives: a day is accepted when its
/// lower-case form is one of the seven abbreviations.
pub open spec fn day_check(day: Seq<char>) -> Result<(), Seq<char>> {
    if is_day_name(lowercase(day)) {
        Ok(())
    } else {
        Err(invalid_day_message(day))
    }
}

/// Decides a day name from its lower-case form, and words the error for the
/// name as it was written.
pub fn check_day_name(day: &str, lowered: &str) -> (r: Result<(), String>)
    ensures
        message_view(r) == if is_day_name(lowered@) {
            Ok::<(), Seq<char>>(())
        } else {
            Err::<(), Seq<char>>(invalid_day_message(day@))
        },
{
    if same_text(lowered, "mon") || same_text(lowered, "tue") || same_text(lowered, "wed")
        || same_text(lowered, "thu") || same_text(lowered, "fri") || same_text(lowered, "sat")
        || same_text(lowered, "sun") {
        Ok(())
    } else {
        let mut message = String::from_str("Invalid day: '");
        message.append(day);
        message.append("'. Valid days are: mon, tue, wed, thu, fri, sat, sun");
        Err(message)
    }
}

/// Checks a day name, case-insensitively, against `mon` to `sun`.
pub fn validate_day(day: &str) -> (r: Result<(), String>)
    ensures
        message_view(r) == day_check(day@),
{
    let lowered = to_lowercase(day);
    check_day_name(day, lowered.as_str())
}

/// The only `:` of `s` stands at `i`.
pub open spec fn only_colon_at(s: Seq<char>, i: int) -> bool {
    &&& 0 <= i < s.len()
    &&& s[i] == ':'
    &&& forall|j: int| 0 <= j < s.len() && j != i ==> s[j] != ':'
}

/// Whether `s` holds exactly one `:`.
pub open spec fn has_one_colon(s: Seq<char>) -> bool {
    exists|i: int| only_colon_at(s, i)
}

/// Where the one `:` of `s` stands.
pub open spec fn colon_index(s: Seq<char>) -> int {
    choose|i: int| only_colon_at(s, i)
}

/// The message for a time that is not of the form `H:M`.
pub open spec fn invalid_format_message(time: Seq<char>) -> Seq<char> {
    "Invalid time format: "@ + time
}

/// What the check of a time gives. A time is accepted when its UTF-8
/// encoding has at least five bytes, it holds exactly one `:`, the parts
/// before and after it are decimal `i32` numbers, the hour is within 0 to 23
/// and the minute within 0 to 59. The errors come in this order.
pub open spec fn time_check(time: Seq<char>) -> Result<(i32, i32), Seq<char>> {
    if encode_utf8(time).len() < 5 || !has_one_colon(time) {
        Err(invalid_format_message(time))
    } else {
        let hour_text = time.take(colon_index(time));
        let minute_text = time.skip(colon_index(time) + 1);
        match (parsed_i32(hour_text), parsed_i32(minute_text)) {
            (None, _) => Err("Invalid hour: "@ + hour_text),
            (Some(_), None) => Err("Invalid minute: "@ + minute_text),
            (Some(hour), Some(minute)) => if !(0 <= hour <= 23) {
                Err("Hour out of range (0-23): "@ + decimal_text(hour as int))
            } else if !(0 <= minute <= 59) {
                Err("Minute out of range (0-59): "@ + decimal_text(minute as int))
            } else {
                Ok((hour, minute))
            },
        }
    }
}

/// Index of the first `:` at or after `from`, or the length where there is none.
fn find_colon(chars: &[char], from: usize) -> (i: usize)
    requires
        from <= chars.len(),
    ensures
        from <= i <= chars.len(),
        i < chars.len() ==> chars@[i as int] == ':',
        forall|j: int| from <= j < i ==> chars@[j] != ':',
{
    let mut i: usize = from;
    while i < chars.len() && chars[i] != ':'
        invariant
            from <= i <= chars.len(),
            forall|j: int| from <= j < i ==> chars@[j] != ':',
        decreases chars.len() - i,
    {
        i += 1;
    }
    i
}

fn invalid_format(time_str: &str) -> (message: String)
    ensures
        message@ == invalid_format_message(time_str@),
{
    let mut message = String::from_str("Invalid time format: ");
    message.append(time_str);
    message
}

/// Checks a time of day written as `H:M` and gives its hour and minute.
pub fn validate_time(time_str: &str) -> (r: Result<(i32, i32), String>)
    ensures
        message_view(r) == time_check(time_str@),
{
    if time_str.as_bytes().len() < 5 {
        return Err(invalid_format(time_str));
    }
    let chars = chars_of(time_str);
    let n = chars.len();
    let colon = find_colon(chars.as_slice(), 0);
    if colon == n {
        assert(!has_one_colon(time_str@));
        return Err(invalid_format(time_str));
    }
    let second = find_colon(chars.as_slice(), colon + 1);
    if second < n {
        assert forall|i: int| !only_colon_at(time_str@, i) by {
            if i == colon {
                assert(time_str@[second as int] == ':');
            } else {
                assert(time_str@[colon as int] == ':');
            }
        }
        return Err(invalid_format(time_str));
    }
    assert(only_colon_at(time_str@, colon as int));
    assert(colon_index(time_str@) == colon);
    let hour_part = slice_subrange(chars.as_slice(), 0, colon);
    let minute_part = slice_subrange(chars.as_slice(), colon + 1, n);
    assert(hour_part@ =~= time_str@.take(colon as int));
    assert(minute_part@ =~= time_str@.skip(colon + 1));
    let hour = match parse_i32(hour_part) {
        Some(hour) => hour,
        None => {
            let mut message = String::from_str("Invalid hour: ");
            message.append(time_str.substring_char(0, colon));
            assert(time_str@.subrange(0, colon as int) =~= time_str@.take(colon as int));
            return Err(message);
        },
    };
    let minute = match parse_i32(minute_part) {
        Some(minute) => minute,
        None => {
            let mut message = String::from_str("Invalid minute: ");
            message.append(time_str.substring_char(colon + 1, n));
            assert(time_str@.subrange(colon + 1, n as int) =~= time_str@.skip(colon + 1));
            return Err(message);
        },
    };
    if hour < 0 || hour > 23 {
        let mut message = String::from_str("Hour out of range (0-23): ");
        push_decimal(&mut message, hour);
        return Err(message);
    }
    if minute < 0 || minute > 59 {
        let mut message = String::from_str("Minute out of range (0-59): ");
        push_decimal(&mut message, minute);
        return Err(message);
    }
    Ok((hour, minute))
}

/// Whether some block of the configuration bears `name`.
pub open spec fn has_block(blocks: Seq<Block>, name: Seq<char>) -> bool {
    exists|i: int| 0 <= i < blocks.len() && (#[trigger] blocks[i]).name@ == name
}

/// The message for a schedule entry whose block is not configured.
pub open spec fn missing_block_message(name: Seq<char>) -> Seq<char> {
    "Schedule references non-existent block: '"@ + name + "'."@
}

/// What the reference check gives: the error of the first schedule entry
/// whose block is not among `blocks`, if there is one.
pub open spec fn references_check(blocks: Seq<Block>, schedule: Seq<Schedule>) -> Result<
    (),
    Seq<char>,
>
    decreases schedule.len(),
{
    if schedule.len() == 0 {
        Ok(())
    } else if !has_block(blocks, schedule[0].block@) {
        Err(missing_block_message(schedule[0].block@))
    } else {
        references_check(blocks, schedule.drop_first())
    }
}

fn names_block(blocks: &Vec<Block>, name: &str) -> (found: bool)
    ensures
        found == has_block(blocks@, name@),
{
    let mut i: usize = 0;
    while i < blocks.len()
        invariant
            i <= blocks@.len(),
            forall|j: int| 0 <= j < i ==> (#[trigger] blocks@[j]).name@ != name@,
        decreases blocks.len() - i,
    {
        if same_text(blocks[i].name.as_str(), name) {
            return true;
        }
        i += 1;
    }
    false
}

/// Checks that every schedule entry names a configured block.
pub fn validate_blocks_exist(config: &Config) -> (r: Result<(), String>)
    ensures
        message_view(r) == references_check(config.blocks@, config.schedule@),
{
    let mut i: usize = 0;
    assert(config.schedule@.skip(0) =~= config.schedule@);
    while i < config.schedule.len()
        invariant
            i <= config.schedule@.len(),
            references_check(config.blocks@, config.schedule@) == references_check(
                config.blocks@,
                config.schedule@.skip(i as int),
            ),
        decreases config.schedule.len() - i,
    {
        let entry = &config.schedule[i];
        assert(config.schedule@.skip(i as int)[0] == config.schedule@[i as int]);
        assert(config.schedule@.skip(i as int).drop_first() =~= config.schedule@.skip(i + 1));
        if !names_block(&config.blocks, entry.block.as_str()) {
            let mut message = String::from_str("Schedule references non-existent block: '");
            message.append(entry.block.as_str());
            message.append("'.");
            return Err(message);
        }
        i += 1;
    }
    Ok(())
}

/// What the check of a list of day names gives: the error of the first day
/// that is not accepted, if there is one.
pub open spec fn days_check(days: Seq<String>) -> Result<(), Seq<char>>
    decreases days.len(),
{
    if days.len() == 0 {
        Ok(())
    } else {
        match day_check(days[0]@) {
            Err(message) => Err(message),
            Ok(_) => days_check(days.drop_first()),
        }
    }
}

/// What the check of one schedule entry gives: its days are checked in
/// order, then its start time, then its end time.
pub open spec fn entry_check(entry: Schedule) -> Result<(), Seq<char>> {
    match days_check(entry.days@) {
        Err(message) => Err(message),
        Ok(_) => match time_check(entry.start@) {
            Err(message) => Err(
                "Invalid start time in schedule for block '"@ + entry.block@ + "': "@ + message,
            ),
            Ok(_) => match time_check(entry.end@) {
                Err(message) => Err(
                    "Invalid end time in schedule for block '"@ + entry.block@ + "': "@ + message,
                ),
                Ok(_) => Ok(()),
            },
        },
    }
}

/// What the check of the schedule gives: the error of its first entry that
/// is not accepted, if there is one.
pub open spec fn schedule_check(schedule: Seq<Schedule>) -> Result<(), Seq<char>>
    decreases schedule.len(),
{
    if schedule.len() == 0 {
        Ok(())
    } else {
        match entry_check(schedule[0]) {
            Err(message) => Err(message),
            Ok(_) => schedule_check(schedule.drop_first()),
        }
    }
}

fn validate_days(days: &Vec<String>) -> (r: Result<(), String>)
    ensures
        message_view(r) == days_check(days@),
{
    let mut i: usize = 0;
    assert(days@.skip(0) =~= days@);
    while i < days.len()
        invariant
            i <= days@.len(),
            days_check(days@) == days_check(days@.skip(i as int)),
        decreases days.len() - i,
    {
        assert(days@.skip(i as int)[0] == days@[i as int]);
        assert(days@.skip(i as int).drop_first() =~= days@.skip(i + 1));
        match validate_day(days[i].as_str()) {
            Err(message) => {
                return Err(message);
            },
            Ok(_) => {},
        }
        i += 1;
    }
    Ok(())
}

fn validate_entry(entry: &Schedule) -> (r: Result<(), String>)
    ensures
        message_view(r) == entry_check(*entry),
{
    match validate_days(&entry.days) {
        Err(message) => {
            return Err(message);
        },
        Ok(_) => {},
    }
    match validate_time(entry.start.as_str()) {
        Err(cause) => {
            let mut message = String::from_str("Invalid start time in schedule for block '");
            message.append(entry.block.as_str());
            message.append("': ");
            message.append(cause.as_str());
            return Err(message);
        },
        Ok(_) => {},
    }
    match validate_time(entry.end.as_str()) {
        Err(cause) => {
            let mut message = String::from_str("Invalid end time in schedule for block '");
            message.append(entry.block.as_str());
            message.append("': ");
            message.append(cause.as_str());
            Err(message)
        },
        Ok(_) => Ok(()),
    }
}

/// Checks the days and the times of every schedule entry.
pub fn validate_schedule_times(config: &Config) -> (r: Result<(), String>)
    ensures
        message_view(r) == schedule_check(config.schedule@),
{
    let mut i: usize = 0;
    assert(config.schedule@.skip(0) =~= config.schedule@);
    while i < config.schedule.len()
        invariant
            i <= config.schedule@.len(),
            schedule_check(config.schedule@) == schedule_check(config.schedule@.skip(i as int)),
        decreases config.schedule.len() - i,
    {
        assert(config.schedule@.skip(i as int)[0] == config.schedule@[i as int]);
        assert(config.schedule@.skip(i as int).drop_first() =~= config.schedule@.skip(i + 1));
        match validate_entry(&config.schedule[i]) {
            Err(message) => {
                return Err(message);
            },
            Ok(_) => {},
        }
        i += 1;
    }
    Ok(())
}

/// Whether a configuration passes both checks.
pub open spec fn valid_config(config: Config) -> bool {
    references_check(config.blocks@, config.schedule@) is Ok && schedule_check(config.schedule@)
        is Ok
}

/// What the check of a configuration gives: the error of the reference
/// check where there is one, else that of the schedule check.
pub open spec fn config_check(config: Config) -> Result<(), Seq<char>> {
    match references_check(config.blocks@, config.schedule@) {
        Err(message) => Err(message),
        Ok(_) => schedule_check(config.schedule@),
    }
}

/// Validates a configuration: the schedule's references first, then its
/// days and times.
pub fn validate(config: &Config) -> (r: Result<(), String>)
    ensures
        message_view(r) == config_check(*config),
        r is Ok <==> valid_config(*config),
{
    match validate_blocks_exist(config) {
        Err(message) => Err(message),
        Ok(_) => validate_schedule_times(config),
    }
}

} // verus!
