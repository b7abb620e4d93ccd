//! The block registry: every configured block with its activation state, and
//! the rules by which that state may change.

use vstd::prelude::*;
use crate::config::{config_check, message_view, valid_config, validate, Config, Schedule};
use crate::notifier::Notifier;
use crate::text::{copy_texts, same_text, views};
use crate::week::{
    add_entry_events, event_views, is_weekly_schedule, lemma_schedule_blocks,
    lemma_schedule_holds_every_day, lemma_schedule_is_the_listed_events,
    lemma_weekly_schedule_in_order, listed_days, listed_events, weekly_schedule, Event, EventView,
};

verus! {

/// Activation state of a block.
#[derive(Debug, Clone, Copy, PartialEq, Eq, PartialOrd, Ord, Structural)]
pub enum BlockState {
    Unblocked,
    Blocked,
    BlockedWithLock,
}

impl BlockState {
    /// Whether the block's lists are in force.
    pub open spec fn active(self) -> bool {
        self != BlockState::Unblocked
    }

    /// Whether the block's lists are in force.
    pub fn is_active(self) -> (b: bool)
        ensures
            b == self.active(),
    {
        match self {
            BlockState::Unblocked => false,
            _ => true,
        }
    }

    /// The state's name, as the listing reports it.
    pub open spec fn name(self) -> Seq<char> {
        match self {
            BlockState::Unblocked => "Unblocked"@,
            BlockState::Blocked => "Blocked"@,
            BlockState::BlockedWithLock => "BlockedWithLock"@,
        }
    }

    /// The state's name, as the listing reports it.
    pub fn as_str(self) -> (s: &'static str)
        ensures
            s@ == self.name(),
    {
        match self {
            BlockState::Unblocked => "Unblocked",
            BlockState::Blocked => "Blocked",
            BlockState::BlockedWithLock => "BlockedWithLock",
        }
    }
}

/// Why a request was not carried out.
#[derive(Debug, Clone, Copy, PartialEq, Eq, Structural)]
pub enum ErrorKind {
    /// The named block does not exist.
    NotFound,
    /// The block is locked and the lock has not been released.
    LockActive,
    /// The request could not be understood.
    BadRequest,
}

/// A block of the registry: its lists, its state, and, while it is locked by
/// a timed lock, the instant from which a stop request releases it.
#[derive(Debug, Clone, PartialEq, Eq)]
pub struct Block {
    pub whitelist: Option<Vec<String>>,
    pub blacklist: Option<Vec<String>>,
    pub block_state: BlockState,
    /// Seconds since the epoch. `None` on a locked block means that only the
    /// schedule releases the lock.
    pub lock_until: Option<u64>,
}

/// The texts of an optional list.
pub open spec fn list_view(list: Option<Vec<String>>) -> Option<Seq<Seq<char>>> {
    match list {
        Some(entries) => Some(views(entries@)),
        None => None,
    }
}

/// What a registry holds of one block.
pub struct BlockView {
    pub name: Seq<char>,
    pub whitelist: Option<Seq<Seq<char>>>,
    pub blacklist: Option<Seq<Seq<char>>>,
    pub state: BlockState,
    pub lock_until: Option<u64>,
}

/// Whether a change of state is allowed. A locked block leaves its state
/// only for `Unblocked`, and only when the lock's expiry condition is met.
pub open spec fn legal(from: BlockState, to: BlockState, expiry_met: bool) -> bool {
    from != BlockState::BlockedWithLock || (to == BlockState::Unblocked && expiry_met)
}

/// Whether a lock with the given release instant has expired at `now`.
pub open spec fn lock_expired(lock_until: Option<u64>, now: u64) -> bool {
    match lock_until {
        Some(instant) => instant <= now,
        None => false,
    }
}

/// The blacklist entries of the active blocks, block after block.
pub open spec fn active_blacklist(blocks: Seq<BlockView>) -> Seq<Seq<char>>
    decreases blocks.len(),
{
    if blocks.len() == 0 {
        Seq::empty()
    } else {
        let last = blocks.last();
        if last.state.active() && last.blacklist is Some {
            active_blacklist(blocks.drop_last()) + last.blacklist.unwrap()
        } else {
            active_blacklist(blocks.drop_last())
        }
    }
}

/// The whitelist patterns of the active blocks, block after block.
pub open spec fn active_whitelist(blocks: Seq<BlockView>) -> Seq<Seq<char>>
    decreases blocks.len(),
{
    if blocks.len() == 0 {
        Seq::empty()
    } else {
        let last = blocks.last();
        if last.state.active() && last.whitelist is Some {
            active_whitelist(blocks.drop_last()) + last.whitelist.unwrap()
        } else {
            active_whitelist(blocks.drop_last())
        }
    }
}

/// Whether `entry` stands in the blacklist of a block that is active.
pub open spec fn in_active_blacklist(blocks: Seq<BlockView>, entry: Seq<char>) -> bool {
    exists|i: int|
        0 <= i < blocks.len() && (#[trigger] blocks[i]).state.active() && blocks[i].blacklist
            is Some && blocks[i].blacklist.unwrap().contains(entry)
}

/// Whether `pattern` stands in the whitelist of a block that is active.
pub open spec fn in_active_whitelist(blocks: Seq<BlockView>, pattern: Seq<char>) -> bool {
    exists|i: int|
        0 <= i < blocks.len() && (#[trigger] blocks[i]).state.active() && blocks[i].whitelist
            is Some && blocks[i].whitelist.unwrap().contains(pattern)
}

/// The active blacklist is the union of the blacklists of the active
/// blocks: it holds an entry exactly when one of them does.
pub proof fn lemma_active_blacklist_is_union(blocks: Seq<BlockView>, entry: Seq<char>)
    ensures
        active_blacklist(blocks).contains(entry) <==> in_active_blacklist(blocks, entry),
    decreases blocks.len(),
{
    if blocks.len() > 0 {
        let shorter = blocks.drop_last();
        let last = blocks.last();
        lemma_active_blacklist_is_union(shorter, entry);
        let rest = active_blacklist(shorter);
        if in_active_blacklist(shorter, entry) {
            let i = choose|i: int|
                0 <= i < shorter.len() && (#[trigger] shorter[i]).state.active()
                    && shorter[i].blacklist is Some && shorter[i].blacklist.unwrap().contains(entry);
            assert(blocks[i] == shorter[i]);
            let at = choose|k: int| 0 <= k < rest.len() && rest[k] == entry;
            assert(active_blacklist(blocks)[at] == entry);
        }
        if last.state.active() && last.blacklist is Some {
            let list = last.blacklist.unwrap();
            if list.contains(entry) {
                let k = choose|k: int| 0 <= k < list.len() && list[k] == entry;
                assert((rest + list)[rest.len() + k] == entry);
                assert(blocks[blocks.len() - 1] == last);
            }
            if active_blacklist(blocks).contains(entry) {
                let k = choose|k: int|
                    0 <= k < active_blacklist(blocks).len() && active_blacklist(blocks)[k] == entry;
                if k < rest.len() {
                    assert(rest[k] == entry);
                } else {
                    assert(list[k - rest.len()] == entry);
                    assert(blocks[blocks.len() - 1] == last);
                }
            }
        }
        if in_active_blacklist(blocks, entry) && !in_active_blacklist(shorter, entry) {
            let i = choose|i: int|
                0 <= i < blocks.len() && (#[trigger] blocks[i]).state.active() && blocks[i].blacklist
                    is Some && blocks[i].blacklist.unwrap().contains(entry);
            if i < shorter.len() {
                assert(shorter[i] == blocks[i]);
            }
        }
    } else {
        assert(!active_blacklist(blocks).contains(entry));
    }
}

/// The active whitelist is the union of the whitelists of the active
/// blocks: it holds a pattern exactly when one of them does.
pub proof fn lemma_active_whitelist_is_union(blocks: Seq<BlockView>, pattern: Seq<char>)
    ensures
        active_whitelist(blocks).contains(pattern) <==> in_active_whitelist(blocks, pattern),
    decreases blocks.len(),
{
    if blocks.len() > 0 {
        let shorter = blocks.drop_last();
        let last = blocks.last();
        lemma_active_whitelist_is_union(shorter, pattern);
        let rest = active_whitelist(shorter);
        if in_active_whitelist(shorter, pattern) {
            let i = choose|i: int|
                0 <= i < shorter.len() && (#[trigger] shorter[i]).state.active()
                    && shorter[i].whitelist is Some && shorter[i].whitelist.unwrap().contains(
                    pattern,
                );
            assert(blocks[i] == shorter[i]);
            let at = choose|k: int| 0 <= k < rest.len() && rest[k] == pattern;
            assert(active_whitelist(blocks)[at] == pattern);
        }
        if last.state.active() && last.whitelist is Some {
            let list = last.whitelist.unwrap();
            if list.contains(pattern) {
                let k = choose|k: int| 0 <= k < list.len() && list[k] == pattern;
                assert((rest + list)[rest.len() + k] == pattern);
                assert(blocks[blocks.len() - 1] == last);
            }
            if active_whitelist(blocks).contains(pattern) {
                let k = choose|k: int|
                    0 <= k < active_whitelist(blocks).len() && active_whitelist(blocks)[k]
                        == pattern;
                if k < rest.len() {
                    assert(rest[k] == pattern);
                } else {
                    assert(list[k - rest.len()] == pattern);
                    assert(blocks[blocks.len() - 1] == last);
                }
            }
        }
        if in_active_whitelist(blocks, pattern) && !in_active_whitelist(shorter, pattern) {
            let i = choose|i: int|
                0 <= i < blocks.len() && (#[trigger] blocks[i]).state.active() && blocks[i].whitelist
                    is Some && blocks[i].whitelist.unwrap().contains(pattern);
            if i < shorter.len() {
                assert(shorter[i] == blocks[i]);
            }
        }
    } else {
        assert(!active_whitelist(blocks).contains(pattern));
    }
}

/// No two blocks share a name.
pub open spec fn distinct_names(blocks: Seq<BlockView>) -> bool {
    forall|i: int, j: int|
        0 <= i < j < blocks.len() ==> (#[trigger] blocks[i]).name != (#[trigger] blocks[j]).name
}

/// The block at `i` bears `name`.
pub open spec fn named_at(blocks: Seq<BlockView>, name: Seq<char>, i: int) -> bool {
    0 <= i < blocks.len() && blocks[i].name == name
}

/// Whether one of the blocks bears `name`.
pub open spec fn has_name(blocks: Seq<BlockView>, name: Seq<char>) -> bool {
    exists|i: int| named_at(blocks, name, i)
}

/// Where the block named `name` stands among `blocks`.
pub open spec fn index_of_name(blocks: Seq<BlockView>, name: Seq<char>) -> int {
    choose|i: int| named_at(blocks, name, i)
}

/// Every event of the schedule names one of the blocks.
pub open spec fn references_hold(blocks: Seq<BlockView>, schedule: Seq<EventView>) -> bool {
    forall|k: int| 0 <= k < schedule.len() ==> has_name(blocks, (#[trigger] schedule[k]).block)
}

/// The registry of these blocks, with an empty schedule.
pub open spec fn registry_of(blocks: Seq<BlockView>) -> RegistryView {
    RegistryView { blocks, schedule: Seq::empty() }
}

/// What a registry holds: the blocks in the order of their configuration,
/// and the weekly schedule.
pub struct RegistryView {
    pub blocks: Seq<BlockView>,
    pub schedule: Seq<EventView>,
}

impl RegistryView {
    /// No two blocks share a name, the schedule is in order, and every
    /// event of the schedule names a block of the registry.
    pub open spec fn wf(self) -> bool {
        &&& distinct_names(self.blocks)
        &&& is_weekly_schedule(self.schedule)
        &&& references_hold(self.blocks, self.schedule)
    }

    /// Whether a block bears `name`.
    pub open spec fn has(self, name: Seq<char>) -> bool {
        has_name(self.blocks, name)
    }

    /// Where the block named `name` stands.
    pub open spec fn index_of(self, name: Seq<char>) -> int {
        index_of_name(self.blocks, name)
    }

    /// The block named `name`.
    pub open spec fn block(self, name: Seq<char>) -> BlockView
        recommends
            self.has(name),
    {
        self.blocks[self.index_of(name)]
    }

    /// The names of the blocks, in order.
    pub open spec fn names(self) -> Seq<Seq<char>> {
        Seq::new(self.blocks.len(), |i: int| self.blocks[i].name)
    }

    /// The registry with the state of the block at `i` replaced.
    pub open spec fn with_state(self, i: int, state: BlockState, lock_until: Option<u64>)
        -> RegistryView {
        RegistryView {
            blocks: self.blocks.update(
                i,
                BlockView {
                    name: self.blocks[i].name,
                    whitelist: self.blocks[i].whitelist,
                    blacklist: self.blocks[i].blacklist,
                    state,
                    lock_until,
                },
            ),
            schedule: self.schedule,
        }
    }

    /// How a requested transition ends.
    pub open spec fn transition_result(
        self,
        name: Seq<char>,
        requested: BlockState,
        expiry_met: bool,
    ) -> Result<(), ErrorKind> {
        if !self.has(name) {
            Err(ErrorKind::NotFound)
        } else if !legal(self.block(name).state, requested, expiry_met) {
            Err(ErrorKind::LockActive)
        } else {
            Ok(())
        }
    }

    /// The registry after a requested transition. A transition that is
    /// refused changes nothing. A lock keeps its release instant; any other
    /// state has none.
    pub open spec fn after_transition(
        self,
        name: Seq<char>,
        requested: BlockState,
        lock_until: Option<u64>,
        expiry_met: bool,
    ) -> RegistryView {
        if self.transition_result(name, requested, expiry_met) is Ok {
            self.with_state(
                self.index_of(name),
                requested,
                if requested == BlockState::BlockedWithLock {
                    lock_until
                } else {
                    None
                },
            )
        } else {
            self
        }
    }
}

/// What a block holds, under the given name.
pub open spec fn block_view(name: Seq<char>, block: Block) -> BlockView {
    BlockView {
        name,
        whitelist: list_view(block.whitelist),
        blacklist: list_view(block.blacklist),
        state: block.block_state,
        lock_until: block.lock_until,
    }
}

/// What a named block holds.
pub open spec fn named_view(named: (String, Block)) -> BlockView {
    block_view(named.0@, named.1)
}

/// What a list of named blocks holds, in order.
pub open spec fn named_views(blocks: Seq<(String, Block)>) -> Seq<BlockView> {
    Seq::new(blocks.len(), |i: int| named_view(blocks[i]))
}

#[derive(Debug)]
struct Entry {
    name: String,
    block: Block,
}

impl Entry {
    spec fn view(&self) -> BlockView {
        BlockView {
            name: self.name@,
            whitelist: list_view(self.block.whitelist),
            blacklist: list_view(self.block.blacklist),
            state: self.block.block_state,
            lock_until: self.block.lock_until,
        }
    }
}

/// The views of the entries, in order.
spec fn entry_views(entries: Seq<Entry>) -> Seq<BlockView> {
    Seq::new(entries.len(), |i: int| entries[i].view())
}

/// Replacing a block's state keeps every block's name.
proof fn lemma_with_state_keeps_names(
    registry: RegistryView,
    i: int,
    state: BlockState,
    lock_until: Option<u64>,
)
    requires
        0 <= i < registry.blocks.len(),
    ensures
        ({
            let after = registry.with_state(i, state, lock_until);
            &&& after.blocks.len() == registry.blocks.len()
            &&& forall|j: int|
                0 <= j < after.blocks.len() ==> (#[trigger] after.blocks[j]).name
                    == registry.blocks[j].name
            &&& forall|name: Seq<char>|
                has_name(after.blocks, name) == has_name(registry.blocks, name)
            &&& registry.wf() ==> after.wf()
        }),
{
    let after = registry.with_state(i, state, lock_until);
    assert forall|name: Seq<char>| has_name(after.blocks, name) == has_name(
        registry.blocks,
        name,
    ) by {
        if has_name(registry.blocks, name) {
            let j = index_of_name(registry.blocks, name);
            assert(named_at(registry.blocks, name, j));
            assert(after.blocks[j].name == registry.blocks[j].name);
            assert(named_at(after.blocks, name, j));
        }
        if has_name(after.blocks, name) {
            let j = index_of_name(after.blocks, name);
            assert(named_at(after.blocks, name, j));
            assert(after.blocks[j].name == registry.blocks[j].name);
            assert(named_at(registry.blocks, name, j));
        }
    }
    if registry.wf() {
        assert forall|a: int, b: int| 0 <= a < b < after.blocks.len() implies (
        #[trigger] after.blocks[a]).name != (#[trigger] after.blocks[b]).name by {
            assert(after.blocks[a].name == registry.blocks[a].name);
            assert(after.blocks[b].name == registry.blocks[b].name);
        }
    }
}

/// Replaces the state of the entry at `i`.
fn set_entry_state(entries: &mut Vec<Entry>, i: usize, state: BlockState, lock_until: Option<u64>)
    requires
        i < old(entries)@.len(),
    ensures
        entry_views(final(entries)@) == registry_of(entry_views(old(entries)@)).with_state(
            i as int,
            state,
            lock_until,
        ).blocks,
    no_unwind
{
    entries[i].block.block_state = state;
    entries[i].block.lock_until = lock_until;
    assert(entry_views(entries@) =~= registry_of(entry_views(old(entries)@)).with_state(
        i as int,
        state,
        lock_until,
    ).blocks);
}

/// Where the entry named `name` stands, if there is one.
fn find_entry(entries: &Vec<Entry>, name: &str) -> (at: Option<usize>)
    requires
        distinct_names(entry_views(entries@)),
    ensures
        match at {
            Some(i) => {
                &&& i < entries@.len()
                &&& has_name(entry_views(entries@), name@)
                &&& index_of_name(entry_views(entries@), name@) == i
            },
            None => !has_name(entry_views(entries@), name@),
        },
{
    let ghost blocks = entry_views(entries@);
    let mut i: usize = 0;
    while i < entries.len()
        invariant
            distinct_names(blocks),
            blocks == entry_views(entries@),
            i <= entries@.len(),
            forall|j: int| 0 <= j < i ==> !named_at(blocks, name@, j),
        decreases entries.len() - i,
    {
        if same_text(entries[i].name.as_str(), name) {
            assert(named_at(blocks, name@, i as int));
            assert(forall|j: int| named_at(blocks, name@, j) ==> j == i);
            return Some(i);
        }
        i += 1;
    }
    None
}

/// The registry: the single source of truth on every block's state.
#[derive(Debug)]
pub struct ApplicationState {
    blocks: Vec<Entry>,
    schedule: Vec<Event>,
}

impl View for ApplicationState {
    type V = RegistryView;

    closed spec fn view(&self) -> RegistryView {
        RegistryView { blocks: entry_views(self.blocks@), schedule: event_views(self.schedule@) }
    }
}

impl ApplicationState {
    #[verifier::type_invariant]
    spec fn inv(&self) -> bool {
        self@.wf()
    }

    /// Every registry is well formed. This does nothing when it runs.
    pub fn well_formed(&self)
        ensures
            self@.wf(),
    {
        proof {
            use_type_invariant(self);
        }
    }

    fn position(&self, name: &str) -> (at: Option<usize>)
        ensures
            match at {
                Some(i) => self@.has(name@) && self@.index_of(name@) == i && i < self@.blocks.len(),
                None => !self@.has(name@),
            },
    {
        proof {
            use_type_invariant(self);
        }
        find_entry(&self.blocks, name)
    }

    /// Requests a transition of the block named `block_name` to `requested`.
    ///
    /// An unknown name gives `NotFound`. A locked block gives `LockActive`
    /// unless the request is for `Unblocked` and `expiry_met` holds. A
    /// refused request changes nothing. `lock_until` is kept only with
    /// `BlockedWithLock`. A transition that is carried out raises the
    /// notifier's signal.
    pub fn apply_transition(
        &mut self,
        block_name: &str,
        requested: BlockState,
        lock_until: Option<u64>,
        expiry_met: bool,
        notifier: &mut Notifier,
    ) -> (r: Result<(), ErrorKind>)
        ensures
            r == old(self)@.transition_result(block_name@, requested, expiry_met),
            final(self)@ == old(self)@.after_transition(
                block_name@,
                requested,
                lock_until,
                expiry_met,
            ),
            final(self)@.wf(),
            final(notifier)@ == (old(notifier)@ || r is Ok),
    {
        proof {
            use_type_invariant(&*self);
        }
        match self.position(block_name) {
            None => Err(ErrorKind::NotFound),
            Some(i) => {
                let from = self.blocks[i].block.block_state;
                let allowed = match from {
                    BlockState::BlockedWithLock => match requested {
                        BlockState::Unblocked => expiry_met,
                        _ => false,
                    },
                    _ => true,
                };
                if !allowed {
                    return Err(ErrorKind::LockActive);
                }
                let kept = match requested {
                    BlockState::BlockedWithLock => lock_until,
                    _ => None,
                };
                proof {
                    use_type_invariant(&*self);
                    lemma_with_state_keeps_names(self@, i as int, requested, kept);
                }
                set_entry_state(&mut self.blocks, i, requested, kept);
                notifier.notify();
                Ok(())
            },
        }
    }

    /// The state of the block named `block_name`, if there is one.
    pub fn state_of(&self, block_name: &str) -> (state: Option<BlockState>)
        ensures
            state == if self@.has(block_name@) {
                Some(self@.block(block_name@).state)
            } else {
                None
            },
    {
        match self.position(block_name) {
            Some(i) => Some(self.blocks[i].block.block_state),
            None => None,
        }
    }

    /// The release instant of the block named `block_name`, if the block
    /// exists and has one.
    pub fn lock_until(&self, block_name: &str) -> (instant: Option<u64>)
        ensures
            instant == if self@.has(block_name@) {
                self@.block(block_name@).lock_until
            } else {
                None
            },
    {
        match self.position(block_name) {
            Some(i) => self.blocks[i].block.lock_until,
            None => None,
        }
    }

    /// Every block's name and state, in the order of the configuration.
    pub fn list(&self) -> (listing: Vec<(String, BlockState)>)
        ensures
            listing@.len() == self@.blocks.len(),
            forall|i: int|
                0 <= i < listing@.len() ==> (#[trigger] listing@[i]).0@ == self@.blocks[i].name
                    && listing@[i].1 == self@.blocks[i].state,
    {
        let mut listing: Vec<(String, BlockState)> = Vec::new();
        let mut i: usize = 0;
        while i < self.blocks.len()
            invariant
                i <= self.blocks@.len(),
                listing@.len() == i,
                forall|j: int|
                    0 <= j < i ==> (#[trigger] listing@[j]).0@ == self@.blocks[j].name
                        && listing@[j].1 == self@.blocks[j].state,
            decreases self.blocks.len() - i,
        {
            listing.push((self.blocks[i].name.clone(), self.blocks[i].block.block_state));
            i += 1;
        }
        listing
    }

    /// A copy of every block with its name, in the order of the
    /// configuration.
    pub fn blocks(&self) -> (blocks: Vec<(String, Block)>)
        ensures
            named_views(blocks@) == self@.blocks,
    {
        let mut blocks: Vec<(String, Block)> = Vec::new();
        let mut i: usize = 0;
        while i < self.blocks.len()
            invariant
                i <= self.blocks@.len(),
                blocks@.len() == i,
                forall|j: int|
                    0 <= j < i ==> named_view(#[trigger] blocks@[j]) == self.blocks@[j].view(),
            decreases self.blocks.len() - i,
        {
            let entry = &self.blocks[i];
            let copy = Block {
                whitelist: copy_list(&entry.block.whitelist),
                blacklist: copy_list(&entry.block.blacklist),
                block_state: entry.block.block_state,
                lock_until: entry.block.lock_until,
            };
            blocks.push((entry.name.clone(), copy));
            i += 1;
        }
        assert(named_views(blocks@) =~= self@.blocks);
        blocks
    }

    /// The weekly schedule, in ascending order of (day, time).
    pub fn schedule(&self) -> (events: Vec<Event>)
        ensures
            event_views(events@) == self@.schedule,
            is_weekly_schedule(self@.schedule),
    {
        proof {
            use_type_invariant(self);
        }
        let mut events: Vec<Event> = Vec::new();
        let mut i: usize = 0;
        while i < self.schedule.len()
            invariant
                i <= self.schedule@.len(),
                events@.len() == i,
                forall|j: int| 0 <= j < i ==> (#[trigger] events@[j])@ == self.schedule@[j]@,
            decreases self.schedule.len() - i,
        {
            let event = &self.schedule[i];
            events.push(
                Event {
                    block: event.block.clone(),
                    day: event.day,
                    time: event.time,
                    action: event.action,
                },
            );
            i += 1;
        }
        assert(event_views(events@) =~= self@.schedule);
        events
    }
}

/// Appends a copy of every text of `list` to `out`.
fn extend_texts(out: &mut Vec<String>, list: &Vec<String>)
    ensures
        views(final(out)@) == views(old(out)@) + views(list@),
{
    let mut i: usize = 0;
    while i < list.len()
        invariant
            i <= list@.len(),
            out@.len() == old(out)@.len() + i,
            forall|j: int| 0 <= j < old(out)@.len() ==> out@[j] == old(out)@[j],
            forall|j: int| 0 <= j < i ==> (#[trigger] out@[old(out)@.len() + j])@ == list@[j]@,
        decreases list.len() - i,
    {
        out.push(list[i].clone());
        i += 1;
    }
    assert forall|k: int| 0 <= k < out@.len() implies views(out@)[k] == (views(old(out)@) + views(
        list@,
    ))[k] by {
        if k >= old(out)@.len() {
            assert(out@[old(out)@.len() + (k - old(out)@.len())]@ == list@[k - old(out)@.len()]@);
        }
    }
    assert(views(out@) =~= views(old(out)@) + views(list@));
}

/// The blacklist entries of every block that is `Blocked` or
/// `BlockedWithLock`, block after block. An entry that two active blocks
/// list stands twice; a decision goes by what the list holds, not how often.
pub fn get_blacklist(state: &ApplicationState) -> (entries: Vec<String>)
    ensures
        views(entries@) == active_blacklist(state@.blocks),
{
    let mut entries: Vec<String> = Vec::new();
    let mut i: usize = 0;
    assert(state@.blocks.take(0) =~= Seq::<BlockView>::empty());
    assert(views(entries@) =~= Seq::<Seq<char>>::empty());
    while i < state.blocks.len()
        invariant
            i <= state.blocks@.len(),
            views(entries@) == active_blacklist(state@.blocks.take(i as int)),
        decreases state.blocks.len() - i,
    {
        let entry = &state.blocks[i];
        proof {
            let upto = state@.blocks.take(i + 1);
            assert(upto.drop_last() =~= state@.blocks.take(i as int));
            assert(upto.last() == entry.view());
        }
        if entry.block.block_state.is_active() {
            match &entry.block.blacklist {
                Some(list) => {
                    extend_texts(&mut entries, list);
                },
                None => {},
            }
        }
        i += 1;
    }
    assert(state@.blocks.take(state.blocks@.len() as int) =~= state@.blocks);
    entries
}

/// The whitelist patterns of every block that is `Blocked` or
/// `BlockedWithLock`, block after block. A pattern that two active blocks
/// list stands twice; a decision goes by what the list holds, not how often.
pub fn get_whitelist(state: &ApplicationState) -> (patterns: Vec<String>)
    ensures
        views(patterns@) == active_whitelist(state@.blocks),
{
    let mut patterns: Vec<String> = Vec::new();
    let mut i: usize = 0;
    assert(state@.blocks.take(0) =~= Seq::<BlockView>::empty());
    assert(views(patterns@) =~= Seq::<Seq<char>>::empty());
    while i < state.blocks.len()
        invariant
            i <= state.blocks@.len(),
            views(patterns@) == active_whitelist(state@.blocks.take(i as int)),
        decreases state.blocks.len() - i,
    {
        let entry = &state.blocks[i];
        proof {
            let upto = state@.blocks.take(i + 1);
            assert(upto.drop_last() =~= state@.blocks.take(i as int));
            assert(upto.last() == entry.view());
        }
        if entry.block.block_state.is_active() {
            match &entry.block.whitelist {
                Some(list) => {
                    extend_texts(&mut patterns, list);
                },
                None => {},
            }
        }
        i += 1;
    }
    assert(state@.blocks.take(state.blocks@.len() as int) =~= state@.blocks);
    patterns
}

/// Requests a change of a block's state, by the rules of
/// `apply_transition` and with no satisfied expiry condition: an unknown
/// name gives `NotFound`, a locked block gives `LockActive`, and either
/// leaves the registry as it was. A lock that is set this way has no release
/// instant. The notifier's signal is raised where the change is carried out.
pub fn update_block(
    application_state: &mut ApplicationState,
    block_name: &str,
    new_state: BlockState,
    notifier: &mut Notifier,
) -> (r: Result<(), ErrorKind>)
    ensures
        r == old(application_state)@.transition_result(block_name@, new_state, false),
        final(application_state)@ == old(application_state)@.after_transition(
            block_name@,
            new_state,
            None,
            false,
        ),
        final(application_state)@.wf(),
        final(notifier)@ == (old(notifier)@ || r is Ok),
{
    application_state.apply_transition(block_name, new_state, None, false, notifier)
}

/// What the registry holds of a configured block when it is built: the
/// block is `Blocked` if it is active by default and `Unblocked` otherwise.
pub open spec fn block_of(configured: crate::config::Block) -> BlockView {
    BlockView {
        name: configured.name@,
        whitelist: list_view(configured.whitelist),
        blacklist: list_view(configured.blacklist),
        state: if configured.active_by_default == Some(true) {
            BlockState::Blocked
        } else {
            BlockState::Unblocked
        },
        lock_until: None,
    }
}

/// The blocks with one more: a block whose name is taken replaces the block
/// of that name, any other is added at the end.
pub open spec fn with_block(blocks: Seq<BlockView>, block: BlockView) -> Seq<BlockView> {
    if has_name(blocks, block.name) {
        blocks.update(index_of_name(blocks, block.name), block)
    } else {
        blocks.push(block)
    }
}

/// The blocks of a registry built from these configured blocks.
pub open spec fn initial_blocks(configured: Seq<crate::config::Block>) -> Seq<BlockView>
    decreases configured.len(),
{
    if configured.len() == 0 {
        Seq::empty()
    } else {
        with_block(initial_blocks(configured.drop_last()), block_of(configured.last()))
    }
}

/// The registry that a configuration describes.
pub open spec fn initial_registry(config: Config) -> RegistryView {
    RegistryView {
        blocks: initial_blocks(config.blocks@),
        schedule: weekly_schedule(config.schedule@),
    }
}

fn copy_list(list: &Option<Vec<String>>) -> (copy: Option<Vec<String>>)
    ensures
        list_view(copy) == list_view(*list),
{
    match list {
        Some(entries) => Some(copy_texts(entries)),
        None => None,
    }
}

/// Adds a block to the entries, or replaces the entry of the same name.
fn put_entry(entries: &mut Vec<Entry>, entry: Entry)
    requires
        distinct_names(entry_views(old(entries)@)),
    ensures
        distinct_names(entry_views(final(entries)@)),
        entry_views(final(entries)@) == with_block(entry_views(old(entries)@), entry.view()),
{
    let ghost before = entry_views(entries@);
    match find_entry(entries, entry.name.as_str()) {
        Some(i) => {
            entries[i] = entry;
            assert(entry_views(entries@) =~= before.update(i as int, entry.view()));
            assert forall|a: int, b: int| 0 <= a < b < entries@.len() implies (
            #[trigger] entry_views(entries@)[a]).name != (#[trigger] entry_views(
                entries@,
            )[b]).name by {
                assert(entry_views(entries@)[a].name == before[a].name);
                assert(entry_views(entries@)[b].name == before[b].name);
            }
        },
        None => {
            entries.push(entry);
            assert(entry_views(entries@) =~= before.push(entry.view()));
            assert forall|a: int, b: int| 0 <= a < b < entries@.len() implies (
            #[trigger] entry_views(entries@)[a]).name != (#[trigger] entry_views(
                entries@,
            )[b]).name by {
                if b == entries@.len() - 1 {
                    assert(!named_at(before, entry.name@, a));
                } else {
                    assert(entry_views(entries@)[a] == before[a]);
                    assert(entry_views(entries@)[b] == before[b]);
                }
            }
        },
    }
}

/// Validates a configuration and builds the registry from it. A
/// configuration that fails a check gives the error of that check and no
/// registry.
pub fn load_application_state(config: Config) -> (r: Result<ApplicationState, String>)
    ensures
        match r {
            Ok(state) => {
                &&& valid_config(config)
                &&& state@ == initial_registry(config)
                &&& state@.wf()
            },
            Err(message) => config_check(config) == Err::<(), Seq<char>>(message@),
        },
{
    match validate(&config) {
        Err(message) => Err(message),
        Ok(_) => Ok(initialize_application_state(config)),
    }
}

/// Builds the registry from a validated configuration.
///
/// Each block starts `Blocked` if it is active by default and `Unblocked`
/// otherwise; of two blocks with one name the later one stands. Each
/// schedule entry gives a start and an end event on every one of its days,
/// in whatever case the day is written; the events are kept in ascending
/// order of (day, time).
pub fn initialize_application_state(config: Config) -> (state: ApplicationState)
    requires
        valid_config(config),
    ensures
        state@ == initial_registry(config),
        state@.wf(),
        state@.schedule.to_multiset() == listed_events(config.schedule@).to_multiset(),
        state@.schedule.len() == 2 * listed_days(config.schedule@),
{
    let mut entries: Vec<Entry> = Vec::new();
    let mut i: usize = 0;
    assert(config.blocks@.take(0) =~= Seq::<crate::config::Block>::empty());
    assert(entry_views(entries@) =~= Seq::<BlockView>::empty());
    while i < config.blocks.len()
        invariant
            i <= config.blocks@.len(),
            distinct_names(entry_views(entries@)),
            entry_views(entries@) == initial_blocks(config.blocks@.take(i as int)),
        decreases config.blocks.len() - i,
    {
        let configured = &config.blocks[i];
        proof {
            let upto = config.blocks@.take(i + 1);
            assert(upto.drop_last() =~= config.blocks@.take(i as int));
            assert(upto.last() == *configured);
        }
        let block_state = match configured.active_by_default {
            Some(true) => BlockState::Blocked,
            _ => BlockState::Unblocked,
        };
        let entry = Entry {
            name: configured.name.clone(),
            block: Block {
                whitelist: copy_list(&configured.whitelist),
                blacklist: copy_list(&configured.blacklist),
                block_state,
                lock_until: None,
            },
        };
        assert(entry.view() == block_of(*configured));
        put_entry(&mut entries, entry);
        i += 1;
    }
    assert(config.blocks@.take(config.blocks@.len() as int) =~= config.blocks@);

    let mut schedule: Vec<Event> = Vec::new();
    let mut k: usize = 0;
    assert(config.schedule@.take(0) =~= Seq::<Schedule>::empty());
    assert(event_views(schedule@) =~= Seq::<EventView>::empty());
    while k < config.schedule.len()
        invariant
            k <= config.schedule@.len(),
            event_views(schedule@) == weekly_schedule(config.schedule@.take(k as int)),
        decreases config.schedule.len() - k,
    {
        let entry = &config.schedule[k];
        proof {
            let upto = config.schedule@.take(k + 1);
            assert(upto.drop_last() =~= config.schedule@.take(k as int));
            assert(upto.last() == *entry);
        }
        add_entry_events(&mut schedule, entry);
        k += 1;
    }
    assert(config.schedule@.take(config.schedule@.len() as int) =~= config.schedule@);
    proof {
        lemma_initial_registry(config);
        lemma_schedule_is_the_listed_events(config.schedule@);
        lemma_schedule_holds_every_day(config.schedule@);
    }
    ApplicationState { blocks: entries, schedule }
}

/// Where names are distinct, the block named `name` is the one block that
/// bears the name.
pub proof fn lemma_index_of_name(blocks: Seq<BlockView>, name: Seq<char>, i: int)
    requires
        distinct_names(blocks),
        named_at(blocks, name, i),
    ensures
        has_name(blocks, name),
        index_of_name(blocks, name) == i,
{
    assert(forall|j: int| named_at(blocks, name, j) ==> j == i);
}

/// A requested transition touches nothing but the state and the release
/// instant of the block it names: every name, every list and the schedule
/// stay, and so does every other block. Where it is carried out the block
/// is in the requested state afterwards; where it is refused the registry
/// is as it was.
pub proof fn lemma_transition_effect(
    registry: RegistryView,
    name: Seq<char>,
    requested: BlockState,
    lock_until: Option<u64>,
    expiry_met: bool,
)
    requires
        registry.wf(),
    ensures
        ({
            let after = registry.after_transition(name, requested, lock_until, expiry_met);
            &&& after.wf()
            &&& after.names() == registry.names()
            &&& after.schedule == registry.schedule
            &&& after.blocks.len() == registry.blocks.len()
            &&& forall|i: int|
                0 <= i < registry.blocks.len() && registry.blocks[i].name != name
                    ==> #[trigger] after.blocks[i] == registry.blocks[i]
            &&& forall|other: Seq<char>| after.has(other) == registry.has(other)
            &&& registry.transition_result(name, requested, expiry_met) is Ok ==> {
                &&& after.block(name).state == requested
                &&& after.block(name).name == name
                &&& after.block(name).blacklist == registry.block(name).blacklist
                &&& after.block(name).whitelist == registry.block(name).whitelist
            }
            &&& registry.transition_result(name, requested, expiry_met) is Err ==> after
                == registry
        }),
{
    let after = registry.after_transition(name, requested, lock_until, expiry_met);
    if registry.transition_result(name, requested, expiry_met) is Ok {
        let i = registry.index_of(name);
        assert(named_at(registry.blocks, name, i));
        let kept = if requested == BlockState::BlockedWithLock {
            lock_until
        } else {
            None
        };
        lemma_with_state_keeps_names(registry, i, requested, kept);
        assert(after.names() =~= registry.names());
        assert(named_at(after.blocks, name, i));
        lemma_index_of_name(after.blocks, name, i);
    } else {
        assert(after.names() =~= registry.names());
    }
}

/// The blocks of a registry bear exactly the names of the configured
/// blocks, each once.
pub proof fn lemma_initial_names(config: Config)
    ensures
        distinct_names(initial_registry(config).blocks),
        forall|name: Seq<char>|
            initial_registry(config).has(name) <==> crate::config::has_block(config.blocks@, name),
{
    lemma_initial_blocks(config.blocks@);
}

/// The registry built from a validated configuration is well formed: its
/// names are distinct, its schedule is in order, and every event names one
/// of its blocks.
pub proof fn lemma_initial_registry(config: Config)
    requires
        valid_config(config),
    ensures
        initial_registry(config).wf(),
{
    lemma_initial_blocks(config.blocks@);
    lemma_weekly_schedule_in_order(config.schedule@);
    lemma_references(config.blocks@, config.schedule@);
    let blocks = initial_blocks(config.blocks@);
    let known = |name: Seq<char>| has_name(blocks, name);
    assert forall|k: int| 0 <= k < config.schedule@.len() implies known(
        (#[trigger] config.schedule@[k]).block@,
    ) by {
        assert(crate::config::has_block(config.blocks@, config.schedule@[k].block@));
    }
    lemma_schedule_blocks(config.schedule@, known);
    assert forall|k: int| 0 <= k < weekly_schedule(config.schedule@).len() implies has_name(
        blocks,
        (#[trigger] weekly_schedule(config.schedule@)[k]).block,
    ) by {
        assert(known(weekly_schedule(config.schedule@)[k].block));
    }
}

/// Where the reference check passes, every schedule entry names a
/// configured block.
proof fn lemma_references(blocks: Seq<crate::config::Block>, schedule: Seq<Schedule>)
    requires
        crate::config::references_check(blocks, schedule) is Ok,
    ensures
        forall|k: int|
            0 <= k < schedule.len() ==> crate::config::has_block(
                blocks,
                (#[trigger] schedule[k]).block@,
            ),
    decreases schedule.len(),
{
    if schedule.len() > 0 {
        lemma_references(blocks, schedule.drop_first());
        assert forall|k: int| 0 <= k < schedule.len() implies crate::config::has_block(
            blocks,
            (#[trigger] schedule[k]).block@,
        ) by {
            if k > 0 {
                assert(schedule[k] == schedule.drop_first()[k - 1]);
            }
        }
    }
}

/// Adding a block keeps the names distinct, and adds its name to them.
proof fn lemma_with_block(before: Seq<BlockView>, block: BlockView)
    requires
        distinct_names(before),
    ensures
        distinct_names(with_block(before, block)),
        forall|name: Seq<char>|
            has_name(with_block(before, block), name) <==> (has_name(before, name) || name
                == block.name),
{
    let after = with_block(before, block);
    if has_name(before, block.name) {
        let at = index_of_name(before, block.name);
        assert(named_at(before, block.name, at));
        assert forall|a: int, b: int| 0 <= a < b < after.len() implies (#[trigger] after[a]).name != (
        #[trigger] after[b]).name by {
            assert(after[a].name == before[a].name);
            assert(after[b].name == before[b].name);
        }
        assert forall|name: Seq<char>| has_name(after, name) <==> (has_name(before, name) || name
            == block.name) by {
            if has_name(after, name) {
                let j = index_of_name(after, name);
                assert(named_at(after, name, j));
                assert(after[j].name == before[j].name);
                assert(named_at(before, name, j));
            }
            if has_name(before, name) {
                let j = index_of_name(before, name);
                assert(named_at(before, name, j));
                assert(after[j].name == before[j].name);
                assert(named_at(after, name, j));
            }
            if name == block.name {
                assert(named_at(after, name, at));
            }
        }
    } else {
        assert forall|a: int, b: int| 0 <= a < b < after.len() implies (#[trigger] after[a]).name != (
        #[trigger] after[b]).name by {
            if b == after.len() - 1 {
                assert(!named_at(before, block.name, a));
                assert(after[a] == before[a]);
            } else {
                assert(after[a] == before[a]);
                assert(after[b] == before[b]);
            }
        }
        assert forall|name: Seq<char>| has_name(after, name) <==> (has_name(before, name) || name
            == block.name) by {
            if has_name(after, name) {
                let j = index_of_name(after, name);
                assert(named_at(after, name, j));
                if j < before.len() {
                    assert(after[j] == before[j]);
                    assert(named_at(before, name, j));
                }
            }
            if has_name(before, name) {
                let j = index_of_name(before, name);
                assert(named_at(before, name, j));
                assert(after[j] == before[j]);
                assert(named_at(after, name, j));
            }
            if name == block.name {
                assert(named_at(after, name, after.len() - 1));
            }
        }
    }
}

/// A list of configured blocks has the names of its front and of its last.
proof fn lemma_has_block_last(configured: Seq<crate::config::Block>, name: Seq<char>)
    requires
        configured.len() > 0,
    ensures
        crate::config::has_block(configured, name) <==> (crate::config::has_block(
            configured.drop_last(),
            name,
        ) || configured.last().name@ == name),
{
    let shorter = configured.drop_last();
    if crate::config::has_block(configured, name) {
        let k = choose|k: int| 0 <= k < configured.len() && (#[trigger] configured[k]).name@ == name;
        if k < shorter.len() {
            assert(shorter[k].name@ == name);
        }
    }
    if crate::config::has_block(shorter, name) {
        let k = choose|k: int| 0 <= k < shorter.len() && (#[trigger] shorter[k]).name@ == name;
        assert(configured[k].name@ == name);
    }
    if configured.last().name@ == name {
        assert(configured[configured.len() - 1].name@ == name);
    }
}

proof fn lemma_initial_blocks(configured: Seq<crate::config::Block>)
    ensures
        distinct_names(initial_blocks(configured)),
        forall|name: Seq<char>|
            has_name(initial_blocks(configured), name) <==> crate::config::has_block(
                configured,
                name,
            ),
    decreases configured.len(),
{
    if configured.len() == 0 {
        assert forall|name: Seq<char>| !has_name(initial_blocks(configured), name) by {
            assert(forall|i: int| !named_at(initial_blocks(configured), name, i));
        }
    } else {
        let shorter = configured.drop_last();
        lemma_initial_blocks(shorter);
        lemma_with_block(initial_blocks(shorter), block_of(configured.last()));
        assert forall|name: Seq<char>|
            has_name(initial_blocks(configured), name) <==> crate::config::has_block(
                configured,
                name,
            ) by {
            lemma_has_block_last(configured, name);
        }
    }
}

} // verus!
