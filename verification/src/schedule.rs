//! The scheduler's decisions: which event of the weekly schedule comes next,
//! how long to wait for it, and what it does to the registry when it fires.
//! The caller owns the clock and the waiting.

use vstd::prelude::*;
use crate::notifier::Notifier;
use crate::state::{ApplicationState, BlockState, RegistryView};
use crate::week::{
    event_views, is_weekly_schedule, Event, EventView, OrderableWeekday, ScheduleAction,
};

verus! {

/// Seconds in a day.
pub const DAY_SECONDS: u32 = 86400;

/// Seconds in a week.
pub const WEEK_SECONDS: u32 = 604800;

/// Seconds to wait before asking again when no wait can be computed.
pub const RETRY_SECONDS: u32 = 60;

/// A point in the week, as the caller's clock reads it: the day, and the
/// whole seconds since its midnight.
#[derive(Debug, Clone, Copy, PartialEq, Eq, Structural)]
pub struct Moment {
    pub day: OrderableWeekday,
    pub seconds: u32,
}

impl Moment {
    /// The seconds are below those of a day.
    pub open spec fn valid(self) -> bool {
        self.seconds < 86400
    }

    /// Seconds since Monday 00:00.
    pub open spec fn key(self) -> int {
        self.day.index() * 86400 + self.seconds
    }

    /// The moment `seconds_from_midnight` into the day that lies
    /// `days_from_monday` after Monday, if there is such a moment.
    pub fn new(days_from_monday: u32, seconds_from_midnight: u32) -> (moment: Option<Moment>)
        ensures
            match moment {
                Some(m) => m.valid() && m.day.index() == days_from_monday && m.seconds
                    == seconds_from_midnight,
                None => days_from_monday >= 7 || seconds_from_midnight >= 86400,
            },
    {
        if seconds_from_midnight >= 86400 {
            return None;
        }
        match OrderableWeekday::from_index(days_from_monday) {
            Some(day) => Some(Moment { day, seconds: seconds_from_midnight }),
            None => None,
        }
    }
}

/// Whether an event lies later in the week than `now`: on a later day, or on
/// the same day at a later time.
pub open spec fn is_after(event: EventView, now: Moment) -> bool {
    event.day.index() > now.day.index() || (event.day == now.day && event.time.seconds()
        > now.seconds)
}

/// Whether `cursor` is where the scheduler starts at `now`: at the first
/// event later in the week than `now`, or at the first event of the schedule
/// where none is.
pub open spec fn starts_at(schedule: Seq<EventView>, now: Moment, cursor: int) -> bool {
    &&& 0 <= cursor < schedule.len()
    &&& forall|i: int| 0 <= i < cursor ==> !is_after(#[trigger] schedule[i], now)
    &&& is_after(schedule[cursor], now) || (cursor == 0 && forall|i: int|
        0 <= i < schedule.len() ==> !is_after(#[trigger] schedule[i], now))
}

/// Whole days from today to the event's next occurrence: to its day of this
/// week where the event lies later in the week than `now`, else to its day
/// of next week.
pub open spec fn days_until(event: EventView, now: Moment) -> int {
    if is_after(event, now) {
        event.day.index() - now.day.index()
    } else {
        7 - now.day.index() + event.day.index()
    }
}

/// Seconds from `now` to the event's next occurrence.
pub open spec fn seconds_until(event: EventView, now: Moment) -> int {
    days_until(event, now) * 86400 + event.time.seconds() - now.seconds
}

/// What the scheduler asks of its caller.
#[derive(Debug, Clone, Copy, PartialEq, Eq, Structural)]
pub enum SchedulerAction {
    /// The schedule is empty: there is nothing to do, now or later.
    Finish,
    /// Wait this long, then fire the event under the cursor.
    Sleep { seconds: u32 },
    /// No wait could be computed: wait this long and ask again.
    Retry { seconds: u32 },
}

/// What to do about an event at `now`: wait for it where the wait is not
/// negative, else retry after the fixed backoff.
pub open spec fn wait_for(event: EventView, now: Moment) -> SchedulerAction {
    if 0 <= seconds_until(event, now) <= u32::MAX {
        SchedulerAction::Sleep { seconds: seconds_until(event, now) as u32 }
    } else {
        SchedulerAction::Retry { seconds: RETRY_SECONDS }
    }
}

/// The state to request when an event fires. A start event locks the block
/// or only blocks it, as the policy says; an end event unblocks it.
pub open spec fn requested_state(action: ScheduleAction, lock_on_start: bool) -> BlockState {
    match action {
        ScheduleAction::StartBlock => if lock_on_start {
            BlockState::BlockedWithLock
        } else {
            BlockState::Blocked
        },
        ScheduleAction::EndBlock => BlockState::Unblocked,
    }
}

/// The registry after an event has fired. An end event is the lock's expiry
/// signal: it unblocks even a locked block. A start event never overrides a
/// lock that is in force.
pub open spec fn fired(registry: RegistryView, event: EventView, lock_on_start: bool)
    -> RegistryView {
    registry.after_transition(
        event.block,
        requested_state(event.action, lock_on_start),
        None,
        event.action == ScheduleAction::EndBlock,
    )
}

/// Whether firing an event changes or confirms a block's state, so that
/// observers are to be told.
pub open spec fn fire_succeeds(registry: RegistryView, event: EventView, lock_on_start: bool)
    -> bool {
    registry.transition_result(
        event.block,
        requested_state(event.action, lock_on_start),
        event.action == ScheduleAction::EndBlock,
    ) is Ok
}

/// The cursor after the event under it has fired: one further, and back at
/// the first event after the last.
pub open spec fn next_cursor(cursor: int, len: int) -> int {
    if cursor + 1 == len {
        0
    } else {
        cursor + 1
    }
}

/// The cursor advances modulo the schedule's length.
pub proof fn lemma_next_cursor_wraps(cursor: int, len: int)
    requires
        0 <= cursor < len,
    ensures
        next_cursor(cursor, len) == (cursor + 1) % len,
        0 <= next_cursor(cursor, len) < len,
{
    if cursor + 1 == len {
        vstd::arithmetic::div_mod::lemma_mod_self_0(len);
    } else {
        vstd::arithmetic::div_mod::lemma_small_mod((cursor + 1) as nat, len as nat);
    }
}

/// What a scheduler holds: the schedule and the index of the next event.
pub struct SchedulerView {
    pub schedule: Seq<EventView>,
    pub cursor: int,
}

/// The scheduler: a cursor into the weekly schedule.
#[derive(Debug)]
pub struct Scheduler {
    schedule: Vec<Event>,
    cursor: usize,
}

impl View for Scheduler {
    type V = SchedulerView;

    closed spec fn view(&self) -> SchedulerView {
        SchedulerView { schedule: event_views(self.schedule@), cursor: self.cursor as int }
    }
}

fn later_than(event: &Event, now: &Moment) -> (later: bool)
    ensures
        later == is_after(event@, *now),
{
    let day = event.day.num_days_from_monday();
    let today = now.day.num_days_from_monday();
    day > today || (day == today && event.time.num_seconds_from_midnight() > now.seconds)
}

impl Scheduler {
    #[verifier::type_invariant]
    spec fn inv(&self) -> bool {
        &&& is_weekly_schedule(event_views(self.schedule@))
        &&& self.schedule@.len() == 0 ==> self.cursor == 0
        &&& self.schedule@.len() > 0 ==> self.cursor < self.schedule@.len()
    }

    /// A scheduler for the registry's schedule, with its cursor where the
    /// scheduler starts at `now`.
    pub fn new(state: &ApplicationState, now: Moment) -> (scheduler: Scheduler)
        ensures
            scheduler@.schedule == state@.schedule,
            is_weekly_schedule(scheduler@.schedule),
            scheduler@.schedule.len() == 0 ==> scheduler@.cursor == 0,
            scheduler@.schedule.len() > 0 ==> starts_at(
                scheduler@.schedule,
                now,
                scheduler@.cursor,
            ),
    {
        let schedule = state.schedule();
        let mut cursor: usize = 0;
        while cursor < schedule.len() && !later_than(&schedule[cursor], &now)
            invariant
                cursor <= schedule@.len(),
                forall|i: int|
                    0 <= i < cursor ==> !is_after(#[trigger] event_views(schedule@)[i], now),
            decreases schedule.len() - cursor,
        {
            cursor += 1;
        }
        if cursor == schedule.len() {
            cursor = 0;
        }
        Scheduler { schedule, cursor }
    }

    /// The index of the next event. It is below the schedule's length unless
    /// the schedule is empty.
    pub fn cursor(&self) -> (cursor: usize)
        ensures
            cursor == self@.cursor,
            self@.schedule.len() == 0 ==> cursor == 0,
            self@.schedule.len() > 0 ==> cursor < self@.schedule.len(),
    {
        proof {
            use_type_invariant(self);
        }
        self.cursor
    }

    /// The number of events in the schedule.
    pub fn len(&self) -> (len: usize)
        ensures
            len == self@.schedule.len(),
    {
        self.schedule.len()
    }

    /// What to do at `now`: nothing more where the schedule is empty, else
    /// wait for the event under the cursor.
    pub fn plan(&self, now: Moment) -> (action: SchedulerAction)
        ensures
            action == if self@.schedule.len() == 0 {
                SchedulerAction::Finish
            } else {
                wait_for(self@.schedule[self@.cursor], now)
            },
    {
        proof {
            use_type_invariant(self);
        }
        if self.schedule.len() == 0 {
            return SchedulerAction::Finish;
        }
        let event = &self.schedule[self.cursor];
        assert(event@.time.valid());
        let day: u32 = event.day.num_days_from_monday();
        let today: u32 = now.day.num_days_from_monday();
        let days: u32 = if later_than(event, &now) {
            day - today
        } else {
            7 - today + day
        };
        let target: u32 = days * DAY_SECONDS + event.time.num_seconds_from_midnight();
        if target >= now.seconds {
            SchedulerAction::Sleep { seconds: target - now.seconds }
        } else {
            SchedulerAction::Retry { seconds: RETRY_SECONDS }
        }
    }

    /// Fires the event under the cursor and moves the cursor to the next
    /// event, back to the first after the last. Returns whether the
    /// registry took the event's transition; where it did, the notifier's
    /// signal is raised. With an empty schedule nothing happens.
    pub fn fire(
        &mut self,
        state: &mut ApplicationState,
        lock_on_start: bool,
        notifier: &mut Notifier,
    ) -> (changed: bool)
        ensures
            final(self)@.schedule == old(self)@.schedule,
            old(self)@.schedule.len() == 0 ==> {
                &&& !changed
                &&& final(self)@ == old(self)@
                &&& final(state)@ == old(state)@
            },
            old(self)@.schedule.len() > 0 ==> {
                let event = old(self)@.schedule[old(self)@.cursor];
                &&& final(self)@.cursor == next_cursor(
                    old(self)@.cursor,
                    old(self)@.schedule.len() as int,
                )
                &&& final(state)@ == fired(old(state)@, event, lock_on_start)
                &&& changed == fire_succeeds(old(state)@, event, lock_on_start)
            },
            final(state)@.wf(),
            final(notifier)@ == (old(notifier)@ || changed),
    {
        proof {
            use_type_invariant(&*self);
        }
        state.well_formed();
        let len = self.schedule.len();
        if len == 0 {
            return false;
        }
        let at = self.cursor;
        let event = &self.schedule[at];
        let (requested, expiry_met) = match event.action {
            ScheduleAction::StartBlock => if lock_on_start {
                (BlockState::BlockedWithLock, false)
            } else {
                (BlockState::Blocked, false)
            },
            ScheduleAction::EndBlock => (BlockState::Unblocked, true),
        };
        let outcome = state.apply_transition(
            event.block.as_str(),
            requested,
            None,
            expiry_met,
            notifier,
        );
        let next: usize = if at + 1 == len {
            0
        } else {
            at + 1
        };
        self.cursor = next;
        outcome.is_ok()
    }
}

/// The wait for an event always reaches its next occurrence: it is never
/// negative nor nothing, never longer than a week, and it ends at the
/// event's place in this week where that lies ahead, else at its place in
/// the next week. So the wait wraps round the end of the week: from Sunday
/// 23:59 to an event on Monday 00:00 it is one minute.
pub proof fn lemma_wait_reaches_next_occurrence(event: EventView, now: Moment)
    requires
        event.time.valid(),
        now.valid(),
    ensures
        0 < seconds_until(event, now) <= WEEK_SECONDS,
        wait_for(event, now) == (SchedulerAction::Sleep {
            seconds: seconds_until(event, now) as u32,
        }),
        is_after(event, now) ==> now.key() + seconds_until(event, now) == event.key(),
        !is_after(event, now) ==> now.key() + seconds_until(event, now) == event.key()
            + WEEK_SECONDS,
{
}

/// When an end event fires, its block becomes `Unblocked`, whatever state it
/// was in: the schedule's end event is what releases a lock.
pub proof fn lemma_end_event_unblocks(registry: RegistryView, event: EventView, lock_on_start: bool)
    requires
        registry.wf(),
        registry.has(event.block),
        event.action == ScheduleAction::EndBlock,
    ensures
        fire_succeeds(registry, event, lock_on_start),
        fired(registry, event, lock_on_start).block(event.block).state == BlockState::Unblocked,
        fired(registry, event, lock_on_start).names() == registry.names(),
{
    crate::state::lemma_transition_effect(
        registry,
        event.block,
        BlockState::Unblocked,
        None,
        true,
    );
}

/// Firing an event touches nothing but the state and the release instant of
/// the event's block: every name, every list and the schedule stay, and so
/// does every other block.
pub proof fn lemma_fire_effect(registry: RegistryView, event: EventView, lock_on_start: bool)
    requires
        registry.wf(),
    ensures
        ({
            let after = fired(registry, event, lock_on_start);
            &&& after.wf()
            &&& after.names() == registry.names()
            &&& after.schedule == registry.schedule
            &&& forall|i: int|
                0 <= i < registry.blocks.len() && registry.blocks[i].name != event.block
                    ==> #[trigger] after.blocks[i] == registry.blocks[i]
            &&& fire_succeeds(registry, event, lock_on_start) ==> after.block(event.block).state
                == requested_state(event.action, lock_on_start)
            &&& !fire_succeeds(registry, event, lock_on_start) ==> after == registry
        }),
{
    crate::state::lemma_transition_effect(
        registry,
        event.block,
        requested_state(event.action, lock_on_start),
        None,
        event.action == ScheduleAction::EndBlock,
    );
}

/// A start event never overrides a lock that is in force: on a locked block
/// it changes nothing.
pub proof fn lemma_start_event_respects_lock(
    registry: RegistryView,
    event: EventView,
    lock_on_start: bool,
)
    requires
        registry.has(event.block),
        registry.block(event.block).state == BlockState::BlockedWithLock,
        event.action == ScheduleAction::StartBlock,
    ensures
        fired(registry, event, lock_on_start) == registry,
        !fire_succeeds(registry, event, lock_on_start),
{
}

} // verus!
