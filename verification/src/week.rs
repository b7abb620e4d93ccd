//! The week: days, times of day, and the weekly schedule of events in
//! ascending order of (day, time).

use vstd::multiset::Multiset;
use vstd::prelude::*;
use crate::config::{
    day_check, days_check, entry_check, lowercase, schedule_check, time_check, to_lowercase,
    validate_time, Schedule,
};
use crate::text::same_text;

verus! {

/// A day of the week.
#[derive(Debug, Clone, Copy, PartialEq, Eq, PartialOrd, Ord, Structural)]
pub enum Weekday {
    Mon,
    Tue,
    Wed,
    Thu,
    Fri,
    Sat,
    Sun,
}

/// A day of the week, ordered from Monday to Sunday.
#[derive(Debug, Clone, Copy, PartialEq, Eq, PartialOrd, Ord, Structural)]
pub struct OrderableWeekday(pub Weekday);

impl From<Weekday> for OrderableWeekday {
    fn from(weekday: Weekday) -> (day: OrderableWeekday) {
        OrderableWeekday(weekday)
    }
}

impl vstd::std_specs::convert::FromSpecImpl<Weekday> for OrderableWeekday {
    open spec fn obeys_from_spec() -> bool {
        true
    }

    open spec fn from_spec(weekday: Weekday) -> OrderableWeekday {
        OrderableWeekday(weekday)
    }
}

impl OrderableWeekday {
    /// The number of days since Monday.
    pub open spec fn index(self) -> int {
        match self.0 {
            Weekday::Mon => 0,
            Weekday::Tue => 1,
            Weekday::Wed => 2,
            Weekday::Thu => 3,
            Weekday::Fri => 4,
            Weekday::Sat => 5,
            Weekday::Sun => 6,
        }
    }

    /// The number of days since Monday, 0 to 6.
    pub fn num_days_from_monday(&self) -> (n: u32)
        ensures
            n == self.index(),
            n < 7,
    {
        match self.0 {
            Weekday::Mon => 0,
            Weekday::Tue => 1,
            Weekday::Wed => 2,
            Weekday::Thu => 3,
            Weekday::Fri => 4,
            Weekday::Sat => 5,
            Weekday::Sun => 6,
        }
    }

    /// The day that lies `n` days after Monday, for `n` from 0 to 6.
    pub fn from_index(n: u32) -> (day: Option<OrderableWeekday>)
        ensures
            n < 7 ==> day is Some && day.unwrap().index() == n,
            n >= 7 ==> day is None,
    {
        match n {
            0 => Some(OrderableWeekday(Weekday::Mon)),
            1 => Some(OrderableWeekday(Weekday::Tue)),
            2 => Some(OrderableWeekday(Weekday::Wed)),
            3 => Some(OrderableWeekday(Weekday::Thu)),
            4 => Some(OrderableWeekday(Weekday::Fri)),
            5 => Some(OrderableWeekday(Weekday::Sat)),
            6 => Some(OrderableWeekday(Weekday::Sun)),
            _ => None,
        }
    }
}

/// A time of day, to the minute.
#[derive(Debug, Clone, Copy, PartialEq, Eq, Structural)]
pub struct TimeOfDay {
    pub hour: u8,
    pub minute: u8,
}

impl TimeOfDay {
    /// The hour is below 24 and the minute below 60.
    pub open spec fn valid(self) -> bool {
        self.hour < 24 && self.minute < 60
    }

    /// Seconds since midnight.
    pub open spec fn seconds(self) -> int {
        self.hour * 3600 + self.minute * 60
    }

    /// The time `hour:minute`, if there is such a time of day.
    pub fn from_hm(hour: u32, minute: u32) -> (time: Option<TimeOfDay>)
        ensures
            time == if hour < 24 && minute < 60 {
                Some(TimeOfDay { hour: hour as u8, minute: minute as u8 })
            } else {
                None
            },
    {
        if hour < 24 && minute < 60 {
            Some(TimeOfDay { hour: hour as u8, minute: minute as u8 })
        } else {
            None
        }
    }

    /// Seconds since midnight.
    pub fn num_seconds_from_midnight(&self) -> (s: u32)
        ensures
            s == self.seconds(),
    {
        self.hour as u32 * 3600 + self.minute as u32 * 60
    }
}

/// What a schedule event does to its block.
#[derive(Debug, Clone, Copy, PartialEq, Eq, Structural)]
pub enum ScheduleAction {
    StartBlock,
    EndBlock,
}

/// One event of the weekly schedule.
#[derive(Debug, Clone, PartialEq, Eq)]
pub struct Event {
    pub block: String,
    pub day: OrderableWeekday,
    pub time: TimeOfDay,
    pub action: ScheduleAction,
}

/// What the schedule holds of one event.
pub struct EventView {
    pub block: Seq<char>,
    pub day: OrderableWeekday,
    pub time: TimeOfDay,
    pub action: ScheduleAction,
}

impl EventView {
    /// The event's place in the week, in seconds since Monday 00:00.
    pub open spec fn key(self) -> int {
        self.day.index() * 86400 + self.time.seconds()
    }
}

impl View for Event {
    type V = EventView;

    open spec fn view(&self) -> EventView {
        EventView { block: self.block@, day: self.day, time: self.time, action: self.action }
    }
}

/// The views of a list of events, in order.
pub open spec fn event_views(events: Seq<Event>) -> Seq<EventView> {
    Seq::new(events.len(), |i: int| events[i]@)
}

/// Whether the events are in ascending order of (day, time) and hold valid
/// times.
pub open spec fn is_weekly_schedule(schedule: Seq<EventView>) -> bool {
    &&& forall|i: int| 0 <= i < schedule.len() ==> (#[trigger] schedule[i]).time.valid()
    &&& forall|i: int, j: int|
        0 <= i < j < schedule.len() ==> (#[trigger] schedule[i]).key() <= (
        #[trigger] schedule[j]).key()
}

/// The day that a lower-case name stands for: `mon` to `sun`.
pub open spec fn day_named(lowered: Seq<char>) -> Option<OrderableWeekday> {
    if lowered == "mon"@ {
        Some(OrderableWeekday(Weekday::Mon))
    } else if lowered == "tue"@ {
        Some(OrderableWeekday(Weekday::Tue))
    } else if lowered == "wed"@ {
        Some(OrderableWeekday(Weekday::Wed))
    } else if lowered == "thu"@ {
        Some(OrderableWeekday(Weekday::Thu))
    } else if lowered == "fri"@ {
        Some(OrderableWeekday(Weekday::Fri))
    } else if lowered == "sat"@ {
        Some(OrderableWeekday(Weekday::Sat))
    } else if lowered == "sun"@ {
        Some(OrderableWeekday(Weekday::Sun))
    } else {
        None
    }
}

/// The day that a name stands for, whatever its case: the day of its
/// lower-case form.
pub open spec fn day_of(name: Seq<char>) -> Option<OrderableWeekday> {
    day_named(lowercase(name))
}

/// Every day name that the day check accepts stands for a day.
pub proof fn lemma_accepted_day_is_known(name: Seq<char>)
    ensures
        day_check(name) is Ok <==> day_of(name) is Some,
{
}

/// Reads a day from the lower-case form of its name.
pub fn day_of_name(lowered: &str) -> (day: Option<Weekday>)
    ensures
        match day {
            Some(day) => day_named(lowered@) == Some(OrderableWeekday(day)),
            None => day_named(lowered@) is None,
        },
{
    if same_text(lowered, "mon") {
        Some(Weekday::Mon)
    } else if same_text(lowered, "tue") {
        Some(Weekday::Tue)
    } else if same_text(lowered, "wed") {
        Some(Weekday::Wed)
    } else if same_text(lowered, "thu") {
        Some(Weekday::Thu)
    } else if same_text(lowered, "fri") {
        Some(Weekday::Fri)
    } else if same_text(lowered, "sat") {
        Some(Weekday::Sat)
    } else if same_text(lowered, "sun") {
        Some(Weekday::Sun)
    } else {
        None
    }
}

/// Reads a day written as `Mon` to `Sun`, in any case: every name that the
/// day check accepts is read.
pub fn parse_day(day_str: &str) -> (r: Result<Weekday, String>)
    ensures
        match r {
            Ok(day) => day_of(day_str@) == Some(OrderableWeekday(day)),
            Err(message) => day_of(day_str@) is None && message@ == "Invalid day: "@ + day_str@,
        },
{
    let lowered = to_lowercase(day_str);
    match day_of_name(lowered.as_str()) {
        Some(day) => Ok(day),
        None => {
            let mut message = String::from_str("Invalid day: ");
            message.append(day_str);
            Err(message)
        },
    }
}

/// The time of day that a text writes, if it passes the time check.
pub open spec fn time_named(text: Seq<char>) -> Option<TimeOfDay> {
    match time_check(text) {
        Ok((hour, minute)) => Some(TimeOfDay { hour: hour as u8, minute: minute as u8 }),
        Err(_) => None,
    }
}

/// Reads a time of day written as `H:M`.
pub fn parse_time(time_str: &str) -> (time: Option<TimeOfDay>)
    ensures
        time == time_named(time_str@),
        time matches Some(t) ==> t.valid(),
{
    match validate_time(time_str) {
        Ok((hour, minute)) => Some(TimeOfDay { hour: hour as u8, minute: minute as u8 }),
        Err(_) => None,
    }
}

/// Puts the four parts of an event together.
pub fn create_event(day: OrderableWeekday, time: TimeOfDay, block: String, action: ScheduleAction)
    -> (event: Event)
    ensures
        event@ == (EventView { block: block@, day, time, action }),
{
    Event { block, day, time, action }
}

/// Where a new event goes into a schedule: behind the last event that is
/// not later than it.
pub open spec fn insertion_point(schedule: Seq<EventView>, event: EventView) -> int
    decreases schedule.len(),
{
    if schedule.len() == 0 {
        0
    } else if schedule.last().key() <= event.key() {
        schedule.len() as int
    } else {
        insertion_point(schedule.drop_last(), event)
    }
}

/// The schedule with one more event, put in at its insertion point.
pub open spec fn with_event(schedule: Seq<EventView>, event: EventView) -> Seq<EventView> {
    schedule.insert(insertion_point(schedule, event), event)
}

/// The schedule with the events of one entry on the given days: for every
/// day, read in any case, a start event and an end event. A day or a time
/// that the checks of the configuration would refuse gives no event.
pub open spec fn with_days(schedule: Seq<EventView>, entry: Schedule, days: Seq<String>) -> Seq<
    EventView,
>
    decreases days.len(),
{
    if days.len() == 0 {
        schedule
    } else {
        let before = with_days(schedule, entry, days.drop_last());
        match (day_of(days.last()@), time_named(entry.start@), time_named(entry.end@)) {
            (Some(day), Some(start), Some(end)) => with_event(
                with_event(
                    before,
                    EventView {
                        block: entry.block@,
                        day,
                        time: start,
                        action: ScheduleAction::StartBlock,
                    },
                ),
                EventView { block: entry.block@, day, time: end, action: ScheduleAction::EndBlock },
            ),
            _ => before,
        }
    }
}

/// The weekly schedule of a list of entries: every entry's events, put in
/// one after the other.
pub open spec fn weekly_schedule(entries: Seq<Schedule>) -> Seq<EventView>
    decreases entries.len(),
{
    if entries.len() == 0 {
        Seq::empty()
    } else {
        with_days(weekly_schedule(entries.drop_last()), entries.last(), entries.last().days@)
    }
}

/// In a schedule that is in order, the insertion point parts the events
/// that are not later than the new one from those that are.
proof fn lemma_insertion_point(schedule: Seq<EventView>, event: EventView)
    requires
        is_weekly_schedule(schedule),
    ensures
        0 <= insertion_point(schedule, event) <= schedule.len(),
        forall|i: int|
            0 <= i < insertion_point(schedule, event) ==> (#[trigger] schedule[i]).key()
                <= event.key(),
        forall|i: int|
            insertion_point(schedule, event) <= i < schedule.len() ==> (#[trigger] schedule[i]).key()
                > event.key(),
    decreases schedule.len(),
{
    if schedule.len() > 0 && schedule.last().key() > event.key() {
        let shorter = schedule.drop_last();
        assert forall|i: int, j: int| 0 <= i < j < shorter.len() implies (#[trigger] shorter[i]).key()
            <= (#[trigger] shorter[j]).key() by {
            assert(shorter[i] == schedule[i] && shorter[j] == schedule[j]);
        }
        assert forall|i: int| 0 <= i < shorter.len() implies (#[trigger] shorter[i]).time.valid() by {
            assert(shorter[i] == schedule[i]);
        }
        lemma_insertion_point(shorter, event);
        assert forall|i: int| 0 <= i < insertion_point(schedule, event) implies (
        #[trigger] schedule[i]).key() <= event.key() by {
            assert(schedule[i] == shorter[i]);
        }
        assert forall|i: int|
            insertion_point(schedule, event) <= i < schedule.len() implies (#[trigger] schedule[i]).key()
            > event.key() by {
            if i < shorter.len() {
                assert(schedule[i] == shorter[i]);
            }
        }
    }
}

/// Putting an event with a valid time into a schedule that is in order
/// gives a schedule that is in order.
pub proof fn lemma_with_event_is_schedule(schedule: Seq<EventView>, event: EventView)
    requires
        is_weekly_schedule(schedule),
        event.time.valid(),
    ensures
        is_weekly_schedule(with_event(schedule, event)),
        with_event(schedule, event).len() == schedule.len() + 1,
{
    lemma_insertion_point(schedule, event);
    let at = insertion_point(schedule, event);
    let longer = with_event(schedule, event);
    assert forall|i: int, j: int| 0 <= i < j < longer.len() implies (#[trigger] longer[i]).key() <= (
    #[trigger] longer[j]).key() by {
        if i < at {
            assert(longer[i] == schedule[i]);
        } else if i > at {
            assert(longer[i] == schedule[i - 1]);
        }
        if j < at {
            assert(longer[j] == schedule[j]);
        } else if j > at {
            assert(longer[j] == schedule[j - 1]);
        }
    }
    assert forall|i: int| 0 <= i < longer.len() implies (#[trigger] longer[i]).time.valid() by {
        if i < at {
            assert(longer[i] == schedule[i]);
        } else if i > at {
            assert(longer[i] == schedule[i - 1]);
        }
    }
}

/// The schedule of any list of entries is in order.
pub proof fn lemma_weekly_schedule_in_order(entries: Seq<Schedule>)
    ensures
        is_weekly_schedule(weekly_schedule(entries)),
    decreases entries.len(),
{
    if entries.len() > 0 {
        lemma_weekly_schedule_in_order(entries.drop_last());
        lemma_with_days_in_order(
            weekly_schedule(entries.drop_last()),
            entries.last(),
            entries.last().days@,
        );
    }
}

proof fn lemma_with_days_in_order(schedule: Seq<EventView>, entry: Schedule, days: Seq<String>)
    requires
        is_weekly_schedule(schedule),
    ensures
        is_weekly_schedule(with_days(schedule, entry, days)),
    decreases days.len(),
{
    if days.len() > 0 {
        lemma_with_days_in_order(schedule, entry, days.drop_last());
        let before = with_days(schedule, entry, days.drop_last());
        match (day_of(days.last()@), time_named(entry.start@), time_named(entry.end@)) {
            (Some(day), Some(start), Some(end)) => {
                let first = EventView {
                    block: entry.block@,
                    day,
                    time: start,
                    action: ScheduleAction::StartBlock,
                };
                let second = EventView {
                    block: entry.block@,
                    day,
                    time: end,
                    action: ScheduleAction::EndBlock,
                };
                lemma_with_event_is_schedule(before, first);
                lemma_with_event_is_schedule(with_event(before, first), second);
            },
            _ => {},
        }
    }
}

fn event_key(event: &Event) -> (key: u32)
    ensures
        key == event@.key(),
{
    event.day.num_days_from_monday() * 86400 + event.time.num_seconds_from_midnight()
}

/// Puts an event into a schedule at its insertion point.
fn insert_event(schedule: &mut Vec<Event>, event: Event)
    ensures
        event_views(final(schedule)@) == with_event(event_views(old(schedule)@), event@),
{
    let key = event_key(&event);
    let mut at: usize = schedule.len();
    let ghost before = event_views(schedule@);
    assert(before.take(at as int) =~= before);
    while at > 0 && event_key(&schedule[at - 1]) > key
        invariant
            at <= schedule@.len(),
            before == event_views(schedule@),
            key == event@.key(),
            insertion_point(before, event@) == insertion_point(before.take(at as int), event@),
        decreases at,
    {
        assert(before.take(at as int).last() == schedule@[at - 1]@);
        assert(before.take(at as int).drop_last() =~= before.take(at - 1));
        at -= 1;
    }
    proof {
        if at > 0 {
            assert(before.take(at as int).last() == schedule@[at - 1]@);
        }
        assert(insertion_point(before, event@) == at);
    }
    schedule.insert(at, event);
    assert(event_views(schedule@) =~= with_event(before, event@));
}

/// Puts the events of one schedule entry into the schedule.
pub(crate) fn add_entry_events(schedule: &mut Vec<Event>, entry: &Schedule)
    ensures
        event_views(final(schedule)@) == with_days(
            event_views(old(schedule)@),
            *entry,
            entry.days@,
        ),
{
    let start = parse_time(entry.start.as_str());
    let end = parse_time(entry.end.as_str());
    let mut d: usize = 0;
    assert(entry.days@.take(0) =~= Seq::<String>::empty());
    while d < entry.days.len()
        invariant
            d <= entry.days@.len(),
            start == time_named(entry.start@),
            end == time_named(entry.end@),
            event_views(schedule@) == with_days(
                event_views(old(schedule)@),
                *entry,
                entry.days@.take(d as int),
            ),
        decreases entry.days.len() - d,
    {
        proof {
            let upto = entry.days@.take(d + 1);
            assert(upto.drop_last() =~= entry.days@.take(d as int));
            assert(upto.last() == entry.days@[d as int]);
        }
        match (parse_day(entry.days[d].as_str()), start, end) {
            (Ok(day), Some(start_time), Some(end_time)) => {
                insert_event(
                    schedule,
                    create_event(
                        OrderableWeekday(day),
                        start_time,
                        entry.block.clone(),
                        ScheduleAction::StartBlock,
                    ),
                );
                insert_event(
                    schedule,
                    create_event(
                        OrderableWeekday(day),
                        end_time,
                        entry.block.clone(),
                        ScheduleAction::EndBlock,
                    ),
                );
            },
            _ => {},
        }
        d += 1;
    }
    assert(entry.days@.take(entry.days@.len() as int) =~= entry.days@);
}

proof fn lemma_insertion_point_bounds(schedule: Seq<EventView>, event: EventView)
    ensures
        0 <= insertion_point(schedule, event) <= schedule.len(),
    decreases schedule.len(),
{
    if schedule.len() > 0 && schedule.last().key() > event.key() {
        lemma_insertion_point_bounds(schedule.drop_last(), event);
    }
}

/// What holds of the block of every event of a schedule, and of the block
/// of a new event, holds of every event's block once the new event is in.
proof fn lemma_with_event_blocks(
    schedule: Seq<EventView>,
    event: EventView,
    holds: spec_fn(Seq<char>) -> bool,
)
    requires
        forall|i: int| 0 <= i < schedule.len() ==> holds((#[trigger] schedule[i]).block),
        holds(event.block),
    ensures
        forall|i: int|
            0 <= i < with_event(schedule, event).len() ==> holds(
                (#[trigger] with_event(schedule, event)[i]).block,
            ),
{
    lemma_insertion_point_bounds(schedule, event);
    let at = insertion_point(schedule, event);
    let longer = with_event(schedule, event);
    assert forall|i: int| 0 <= i < longer.len() implies holds((#[trigger] longer[i]).block) by {
        if i < at {
            assert(longer[i] == schedule[i]);
        } else if i > at {
            assert(longer[i] == schedule[i - 1]);
        }
    }
}

proof fn lemma_with_days_blocks(
    schedule: Seq<EventView>,
    entry: Schedule,
    days: Seq<String>,
    holds: spec_fn(Seq<char>) -> bool,
)
    requires
        forall|i: int| 0 <= i < schedule.len() ==> holds((#[trigger] schedule[i]).block),
        holds(entry.block@),
    ensures
        forall|i: int|
            0 <= i < with_days(schedule, entry, days).len() ==> holds(
                (#[trigger] with_days(schedule, entry, days)[i]).block,
            ),
    decreases days.len(),
{
    if days.len() > 0 {
        lemma_with_days_blocks(schedule, entry, days.drop_last(), holds);
        let before = with_days(schedule, entry, days.drop_last());
        match (day_of(days.last()@), time_named(entry.start@), time_named(entry.end@)) {
            (Some(day), Some(start), Some(end)) => {
                let first = EventView {
                    block: entry.block@,
                    day,
                    time: start,
                    action: ScheduleAction::StartBlock,
                };
                let second = EventView {
                    block: entry.block@,
                    day,
                    time: end,
                    action: ScheduleAction::EndBlock,
                };
                lemma_with_event_blocks(before, first, holds);
                lemma_with_event_blocks(with_event(before, first), second, holds);
            },
            _ => {},
        }
    }
}

/// What holds of the block of every schedule entry holds of the block of
/// every event of the weekly schedule.
pub proof fn lemma_schedule_blocks(entries: Seq<Schedule>, holds: spec_fn(Seq<char>) -> bool)
    requires
        forall|k: int| 0 <= k < entries.len() ==> holds((#[trigger] entries[k]).block@),
    ensures
        forall|i: int|
            0 <= i < weekly_schedule(entries).len() ==> holds(
                (#[trigger] weekly_schedule(entries)[i]).block,
            ),
    decreases entries.len(),
{
    if entries.len() > 0 {
        let shorter = entries.drop_last();
        assert forall|k: int| 0 <= k < shorter.len() implies holds((#[trigger] shorter[k]).block@) by {
            assert(shorter[k] == entries[k]);
        }
        lemma_schedule_blocks(shorter, holds);
        assert(holds(entries[entries.len() - 1].block@));
        lemma_with_days_blocks(weekly_schedule(shorter), entries.last(), entries.last().days@, holds);
    }
}

/// The start event of an entry on a day.
pub open spec fn start_event(entry: Schedule, day: OrderableWeekday, time: TimeOfDay) -> EventView {
    EventView { block: entry.block@, day, time, action: ScheduleAction::StartBlock }
}

/// The end event of an entry on a day.
pub open spec fn end_event(entry: Schedule, day: OrderableWeekday, time: TimeOfDay) -> EventView {
    EventView { block: entry.block@, day, time, action: ScheduleAction::EndBlock }
}

/// The events that an entry lists on the given days, day after day: the
/// start event, then the end event.
pub open spec fn entry_events(entry: Schedule, days: Seq<String>) -> Seq<EventView>
    decreases days.len(),
{
    if days.len() == 0 {
        Seq::empty()
    } else {
        let before = entry_events(entry, days.drop_last());
        match (day_of(days.last()@), time_named(entry.start@), time_named(entry.end@)) {
            (Some(day), Some(start), Some(end)) => before.push(start_event(entry, day, start)).push(
                end_event(entry, day, end),
            ),
            _ => before,
        }
    }
}

/// The events that a list of entries lists, entry after entry.
pub open spec fn listed_events(entries: Seq<Schedule>) -> Seq<EventView>
    decreases entries.len(),
{
    if entries.len() == 0 {
        Seq::empty()
    } else {
        listed_events(entries.drop_last()) + entry_events(entries.last(), entries.last().days@)
    }
}

/// The number of days that a list of entries lists.
pub open spec fn listed_days(entries: Seq<Schedule>) -> nat
    decreases entries.len(),
{
    if entries.len() == 0 {
        0
    } else {
        listed_days(entries.drop_last()) + entries.last().days@.len()
    }
}

/// Putting an event into a schedule adds that event and no other.
proof fn lemma_with_event_adds(schedule: Seq<EventView>, event: EventView)
    ensures
        with_event(schedule, event).to_multiset() == schedule.to_multiset().insert(event),
{
    broadcast use vstd::seq_lib::group_to_multiset_ensures;

    lemma_insertion_point_bounds(schedule, event);
    let at = insertion_point(schedule, event);
    let longer = with_event(schedule, event);
    assert(longer[at] == event);
    assert(longer.remove(at) =~= schedule);
    assert(longer.to_multiset().count(event) > 0) by {
        assert(longer.contains(event));
    }
    assert(longer.to_multiset() =~= longer.to_multiset().remove(event).insert(event));
}

proof fn lemma_with_days_adds(schedule: Seq<EventView>, entry: Schedule, days: Seq<String>)
    ensures
        with_days(schedule, entry, days).to_multiset() == schedule.to_multiset().add(
            entry_events(entry, days).to_multiset(),
        ),
    decreases days.len(),
{
    broadcast use vstd::seq_lib::group_to_multiset_ensures;

    if days.len() == 0 {
        assert(entry_events(entry, days).to_multiset() =~= Multiset::empty());
        assert(schedule.to_multiset().add(Multiset::empty()) =~= schedule.to_multiset());
    } else {
        lemma_with_days_adds(schedule, entry, days.drop_last());
        let before = with_days(schedule, entry, days.drop_last());
        let listed = entry_events(entry, days.drop_last());
        match (day_of(days.last()@), time_named(entry.start@), time_named(entry.end@)) {
            (Some(day), Some(start), Some(end)) => {
                let first = start_event(entry, day, start);
                let second = end_event(entry, day, end);
                lemma_with_event_adds(before, first);
                lemma_with_event_adds(with_event(before, first), second);
                assert(listed.push(first).push(second).to_multiset() =~= listed.to_multiset().insert(
                    first,
                ).insert(second));
                assert(with_days(schedule, entry, days).to_multiset() =~= schedule.to_multiset().add(
                    entry_events(entry, days).to_multiset(),
                ));
            },
            _ => {},
        }
    }
}

/// The weekly schedule holds the events that the entries list, each as
/// often as it is listed, and no other.
pub proof fn lemma_schedule_is_the_listed_events(entries: Seq<Schedule>)
    ensures
        weekly_schedule(entries).to_multiset() == listed_events(entries).to_multiset(),
        weekly_schedule(entries).len() == listed_events(entries).len(),
    decreases entries.len(),
{
    broadcast use vstd::seq_lib::group_to_multiset_ensures;

    if entries.len() > 0 {
        let shorter = entries.drop_last();
        lemma_schedule_is_the_listed_events(shorter);
        lemma_with_days_adds(weekly_schedule(shorter), entries.last(), entries.last().days@);
        vstd::seq_lib::lemma_multiset_commutative(
            listed_events(shorter),
            entry_events(entries.last(), entries.last().days@),
        );
    }
    assert(weekly_schedule(entries).to_multiset().len() == listed_events(entries).to_multiset().len());
}

/// Where the check of a list of days passes, it passes for every day.
proof fn lemma_days_accepted(days: Seq<String>)
    requires
        days_check(days) is Ok,
    ensures
        forall|d: int| 0 <= d < days.len() ==> day_check((#[trigger] days[d])@) is Ok,
    decreases days.len(),
{
    if days.len() > 0 {
        lemma_days_accepted(days.drop_first());
        assert forall|d: int| 0 <= d < days.len() implies day_check((#[trigger] days[d])@) is Ok by {
            if d > 0 {
                assert(days[d] == days.drop_first()[d - 1]);
            }
        }
    }
}

/// Where the check of a schedule passes, it passes for every entry.
proof fn lemma_entries_accepted(entries: Seq<Schedule>)
    requires
        schedule_check(entries) is Ok,
    ensures
        forall|k: int| 0 <= k < entries.len() ==> entry_check(#[trigger] entries[k]) is Ok,
    decreases entries.len(),
{
    if entries.len() > 0 {
        lemma_entries_accepted(entries.drop_first());
        assert forall|k: int| 0 <= k < entries.len() implies entry_check(#[trigger] entries[k])
            is Ok by {
            if k > 0 {
                assert(entries[k] == entries.drop_first()[k - 1]);
            }
        }
    }
}

/// Whether the events hold the start event and the end event of an entry
/// on the day of the given name.
pub open spec fn holds_day(events: Seq<EventView>, entry: Schedule, day_name: Seq<char>) -> bool {
    &&& day_of(day_name) is Some
    &&& time_named(entry.start@) is Some
    &&& time_named(entry.end@) is Some
    &&& events.contains(
        start_event(entry, day_of(day_name).unwrap(), time_named(entry.start@).unwrap()),
    )
    &&& events.contains(end_event(entry, day_of(day_name).unwrap(), time_named(entry.end@).unwrap()))
}

proof fn lemma_contains_in_front(front: Seq<EventView>, back: Seq<EventView>, event: EventView)
    requires
        front.contains(event),
    ensures
        (front + back).contains(event),
{
    let i = choose|i: int| 0 <= i < front.len() && front[i] == event;
    assert((front + back)[i] == event);
}

proof fn lemma_contains_in_back(front: Seq<EventView>, back: Seq<EventView>, event: EventView)
    requires
        back.contains(event),
    ensures
        (front + back).contains(event),
{
    let i = choose|i: int| 0 <= i < back.len() && back[i] == event;
    assert((front + back)[front.len() + i] == event);
}

proof fn lemma_holds_day_in_front(
    front: Seq<EventView>,
    back: Seq<EventView>,
    entry: Schedule,
    day_name: Seq<char>,
)
    requires
        holds_day(front, entry, day_name),
    ensures
        holds_day(front + back, entry, day_name),
{
    let day = day_of(day_name).unwrap();
    lemma_contains_in_front(front, back, start_event(entry, day, time_named(entry.start@).unwrap()));
    lemma_contains_in_front(front, back, end_event(entry, day, time_named(entry.end@).unwrap()));
}

proof fn lemma_holds_day_in_back(
    front: Seq<EventView>,
    back: Seq<EventView>,
    entry: Schedule,
    day_name: Seq<char>,
)
    requires
        holds_day(back, entry, day_name),
    ensures
        holds_day(front + back, entry, day_name),
{
    let day = day_of(day_name).unwrap();
    lemma_contains_in_back(front, back, start_event(entry, day, time_named(entry.start@).unwrap()));
    lemma_contains_in_back(front, back, end_event(entry, day, time_named(entry.end@).unwrap()));
}

proof fn lemma_holds_day_by_count(
    listed: Seq<EventView>,
    schedule: Seq<EventView>,
    entry: Schedule,
    day_name: Seq<char>,
)
    requires
        listed.to_multiset() == schedule.to_multiset(),
        holds_day(listed, entry, day_name),
    ensures
        holds_day(schedule, entry, day_name),
{
    broadcast use vstd::seq_lib::group_to_multiset_ensures;

    let first = start_event(entry, day_of(day_name).unwrap(), time_named(entry.start@).unwrap());
    let second = end_event(entry, day_of(day_name).unwrap(), time_named(entry.end@).unwrap());
    assert(listed.to_multiset().count(first) > 0);
    assert(listed.to_multiset().count(second) > 0);
    assert(schedule.to_multiset().count(first) > 0);
    assert(schedule.to_multiset().count(second) > 0);
}

/// An entry whose days and times are all read lists two events for each of
/// the given days.
proof fn lemma_entry_events(entry: Schedule, days: Seq<String>)
    requires
        forall|d: int| 0 <= d < days.len() ==> day_of((#[trigger] days[d])@) is Some,
        time_named(entry.start@) is Some,
        time_named(entry.end@) is Some,
    ensures
        entry_events(entry, days).len() == 2 * days.len(),
        forall|d: int|
            0 <= d < days.len() ==> holds_day(
                entry_events(entry, days),
                entry,
                (#[trigger] days[d])@,
            ),
    decreases days.len(),
{
    if days.len() > 0 {
        let shorter = days.drop_last();
        assert forall|d: int| 0 <= d < shorter.len() implies day_of((#[trigger] shorter[d])@)
            is Some by {
            assert(shorter[d] == days[d]);
        }
        lemma_entry_events(entry, shorter);
        let before = entry_events(entry, shorter);
        let name = days[days.len() - 1]@;
        assert(day_of(name) is Some);
        let first = start_event(entry, day_of(name).unwrap(), time_named(entry.start@).unwrap());
        let second = end_event(entry, day_of(name).unwrap(), time_named(entry.end@).unwrap());
        let added = seq![first, second];
        assert(entry_events(entry, days) =~= before + added);
        assert(added[0] == first && added[1] == second);
        assert(holds_day(added, entry, name));
        assert forall|d: int| 0 <= d < days.len() implies holds_day(
            entry_events(entry, days),
            entry,
            (#[trigger] days[d])@,
        ) by {
            if d < shorter.len() {
                assert(shorter[d] == days[d]);
                lemma_holds_day_in_front(before, added, entry, days[d]@);
            } else {
                lemma_holds_day_in_back(before, added, entry, name);
            }
        }
    }
}

/// The events that accepted entries list: two for every day of every entry.
proof fn lemma_listed_events(entries: Seq<Schedule>)
    requires
        forall|k: int| 0 <= k < entries.len() ==> entry_check(#[trigger] entries[k]) is Ok,
    ensures
        listed_events(entries).len() == 2 * listed_days(entries),
        forall|k: int, d: int|
            0 <= k < entries.len() && 0 <= d < entries[k].days@.len() ==> holds_day(
                listed_events(entries),
                entries[k],
                (#[trigger] entries[k].days@[d])@,
            ),
    decreases entries.len(),
{
    if entries.len() > 0 {
        let shorter = entries.drop_last();
        let last = entries.last();
        assert forall|k: int| 0 <= k < shorter.len() implies entry_check(#[trigger] shorter[k])
            is Ok by {
            assert(shorter[k] == entries[k]);
        }
        lemma_listed_events(shorter);
        assert(entry_check(entries[entries.len() - 1]) is Ok);
        lemma_days_accepted(last.days@);
        assert forall|d: int| 0 <= d < last.days@.len() implies day_of((#[trigger] last.days@[d])@)
            is Some by {
            lemma_accepted_day_is_known(last.days@[d]@);
        }
        lemma_entry_events(last, last.days@);
        let front = listed_events(shorter);
        let back = entry_events(last, last.days@);
        assert forall|k: int, d: int|
            0 <= k < entries.len() && 0 <= d < entries[k].days@.len() implies holds_day(
            listed_events(entries),
            entries[k],
            (#[trigger] entries[k].days@[d])@,
        ) by {
            if k < shorter.len() {
                assert(shorter[k] == entries[k]);
                assert(holds_day(front, shorter[k], shorter[k].days@[d]@));
                lemma_holds_day_in_front(front, back, entries[k], entries[k].days@[d]@);
            } else {
                assert(entries[k] == last);
                assert(holds_day(back, last, last.days@[d]@));
                lemma_holds_day_in_back(front, back, last, last.days@[d]@);
            }
        }
    }
}

/// The weekly schedule of entries that pass the schedule check leaves no
/// day out: it holds two events for every day of every entry, the start
/// event and the end event of that entry on that day.
pub proof fn lemma_schedule_holds_every_day(entries: Seq<Schedule>)
    requires
        schedule_check(entries) is Ok,
    ensures
        weekly_schedule(entries).len() == 2 * listed_days(entries),
        forall|k: int, d: int|
            0 <= k < entries.len() && 0 <= d < entries[k].days@.len() ==> holds_day(
                weekly_schedule(entries),
                entries[k],
                (#[trigger] entries[k].days@[d])@,
            ),
{
    lemma_schedule_is_the_listed_events(entries);
    lemma_entries_accepted(entries);
    lemma_listed_events(entries);
    assert forall|k: int, d: int|
        0 <= k < entries.len() && 0 <= d < entries[k].days@.len() implies holds_day(
        weekly_schedule(entries),
        entries[k],
        (#[trigger] entries[k].days@[d])@,
    ) by {
        lemma_holds_day_by_count(
            listed_events(entries),
            weekly_schedule(entries),
            entries[k],
            entries[k].days@[d]@,
        );
    }
}

} // verus!
