//! The control channel: the commands that list, start, stop and lock
//! blocks, their effect on the registry, and the responses that go back.

use vstd::prelude::*;
use vstd::slice::slice_subrange;
use crate::json::{
    document_of, json_string, member, parse_document, plainly_quoted, quote, string_member,
};
use crate::notifier::Notifier;
use crate::state::{
    lemma_transition_effect, lock_expired, ApplicationState, BlockState, BlockView, ErrorKind,
    RegistryView,
};
use crate::text::{
    chars_of, is_digit, lemma_unsigned_is_nonnegative, parse_i32, parsed_i32, same_text,
};

verus! {

/// A command of the control channel.
#[derive(Debug, PartialEq, Eq)]
pub enum ControlCommand {
    ListBlocks,
    StartBlock { name: String },
    StopBlock { name: String },
    LockBlock { name: String, lock: String },
}

/// What a command holds.
pub enum CommandView {
    ListBlocks,
    StartBlock { name: Seq<char> },
    StopBlock { name: Seq<char> },
    LockBlock { name: Seq<char>, lock: Seq<char> },
}

impl View for ControlCommand {
    type V = CommandView;

    open spec fn view(&self) -> CommandView {
        match self {
            ControlCommand::ListBlocks => CommandView::ListBlocks,
            ControlCommand::StartBlock { name } => CommandView::StartBlock { name: name@ },
            ControlCommand::StopBlock { name } => CommandView::StopBlock { name: name@ },
            ControlCommand::LockBlock { name, lock } => CommandView::LockBlock {
                name: name@,
                lock: lock@,
            },
        }
    }
}

/// The text of an optional string.
pub open spec fn text_of(value: Option<String>) -> Option<Seq<char>> {
    match value {
        Some(s) => Some(s@),
        None => None,
    }
}

/// What a decoded command holds, or why there is none.
pub open spec fn command_view(r: Result<ControlCommand, ErrorKind>) -> Result<
    CommandView,
    ErrorKind,
> {
    match r {
        Ok(command) => Ok(command@),
        Err(kind) => Err(kind),
    }
}

/// The command that the members of a request stand for. A request without
/// a known action, or without a member that its action needs, is a bad
/// request.
pub open spec fn command_of(
    action: Option<Seq<char>>,
    name: Option<Seq<char>>,
    lock: Option<Seq<char>>,
) -> Result<CommandView, ErrorKind> {
    match action {
        None => Err(ErrorKind::BadRequest),
        Some(action) => if action == "list_blocks"@ {
            Ok(CommandView::ListBlocks)
        } else if action == "start_block"@ {
            match name {
                Some(name) => Ok(CommandView::StartBlock { name }),
                None => Err(ErrorKind::BadRequest),
            }
        } else if action == "stop_block"@ {
            match name {
                Some(name) => Ok(CommandView::StopBlock { name }),
                None => Err(ErrorKind::BadRequest),
            }
        } else if action == "lock_block"@ {
            match (name, lock) {
                (Some(name), Some(lock)) => Ok(CommandView::LockBlock { name, lock }),
                _ => Err(ErrorKind::BadRequest),
            }
        } else {
            Err(ErrorKind::BadRequest)
        },
    }
}

/// Decodes a command from the `action`, `name` and `lock` members of a
/// request.
pub fn decode_command(action: Option<String>, name: Option<String>, lock: Option<String>) -> (r:
    Result<ControlCommand, ErrorKind>)
    ensures
        command_view(r) == command_of(text_of(action), text_of(name), text_of(lock)),
{
    let action = match action {
        Some(action) => action,
        None => {
            return Err(ErrorKind::BadRequest);
        },
    };
    if same_text(action.as_str(), "list_blocks") {
        Ok(ControlCommand::ListBlocks)
    } else if same_text(action.as_str(), "start_block") {
        match name {
            Some(name) => Ok(ControlCommand::StartBlock { name }),
            None => Err(ErrorKind::BadRequest),
        }
    } else if same_text(action.as_str(), "stop_block") {
        match name {
            Some(name) => Ok(ControlCommand::StopBlock { name }),
            None => Err(ErrorKind::BadRequest),
        }
    } else if same_text(action.as_str(), "lock_block") {
        match (name, lock) {
            (Some(name), Some(lock)) => Ok(ControlCommand::LockBlock { name, lock }),
            _ => Err(ErrorKind::BadRequest),
        }
    } else {
        Err(ErrorKind::BadRequest)
    }
}

/// The command that a request text stands for. A text that is not a JSON
/// document is a bad request.
pub open spec fn request_command(request: Seq<char>) -> Result<CommandView, ErrorKind> {
    match document_of(request) {
        None => Err(ErrorKind::BadRequest),
        Some(members) => command_of(
            member(members, "action"@),
            member(members, "name"@),
            member(members, "lock"@),
        ),
    }
}

/// Reads a command from the text of a request.
pub fn read_command(request: &str) -> (r: Result<ControlCommand, ErrorKind>)
    ensures
        command_view(r) == request_command(request@),
{
    match parse_document(request) {
        Err(_) => Err(ErrorKind::BadRequest),
        Ok(document) => {
            let action = string_member(&document, "action");
            let name = string_member(&document, "name");
            let lock = string_member(&document, "lock");
            decode_command(action, name, lock)
        },
    }
}

/// The seconds that a unit letter stands for.
pub open spec fn unit_seconds(unit: char) -> Option<int> {
    if unit == 's' {
        Some(1)
    } else if unit == 'm' {
        Some(60)
    } else if unit == 'h' {
        Some(3600)
    } else if unit == 'd' {
        Some(86400)
    } else {
        None
    }
}

/// The seconds that a lock duration stands for. A duration is a decimal
/// count that begins with a digit and fits an `i32`, followed by one unit
/// letter: `s`, `m`, `h` or `d`.
pub open spec fn lock_seconds(lock: Seq<char>) -> Option<int> {
    if lock.len() >= 2 && is_digit(lock[0]) {
        match (parsed_i32(lock.drop_last()), unit_seconds(lock.last())) {
            (Some(count), Some(unit)) => Some(count * unit),
            _ => None,
        }
    } else {
        None
    }
}

/// Reads a lock duration such as `90s`, `45m`, `1h` or `2d`, in seconds.
pub fn parse_lock(lock: &str) -> (seconds: Option<u64>)
    ensures
        match seconds {
            Some(s) => lock_seconds(lock@) == Some(s as int),
            None => lock_seconds(lock@) is None,
        },
{
    let chars = chars_of(lock);
    let n = chars.len();
    if n < 2 {
        return None;
    }
    let first = chars[0];
    if first < '0' || first > '9' {
        return None;
    }
    let unit: u64 = match chars[n - 1] {
        's' => 1,
        'm' => 60,
        'h' => 3600,
        'd' => 86400,
        _ => {
            return None;
        },
    };
    let digits = slice_subrange(chars.as_slice(), 0, n - 1);
    assert(digits@ =~= lock@.drop_last());
    match parse_i32(digits) {
        Some(count) => {
            proof {
                lemma_unsigned_is_nonnegative(digits@);
            }
            assert(count as int * unit as int <= 2147483647 * 86400) by (nonlinear_arith)
                requires
                    0 <= count <= 2147483647,
                    0 <= unit <= 86400,
            ;
            Some(count as u64 * unit)
        },
        None => None,
    }
}

/// The instant until which a lock of the given duration holds when it is
/// set at `now`, if the duration can be read and the instant can be written.
pub open spec fn lock_instant(lock: Seq<char>, now: u64) -> Option<u64> {
    match lock_seconds(lock) {
        Some(seconds) => if now + seconds <= u64::MAX {
            Some((now + seconds) as u64)
        } else {
            None
        },
        None => None,
    }
}

/// Whether a stop request at `now` meets the expiry condition of the lock on
/// the block named `name`: the lock is a timed one and its instant has come.
pub open spec fn stop_expiry_met(registry: RegistryView, name: Seq<char>, now: u64) -> bool {
    registry.has(name) && lock_expired(registry.block(name).lock_until, now)
}

/// How a start request ends.
pub open spec fn start_result(registry: RegistryView, name: Seq<char>) -> Result<(), ErrorKind> {
    registry.transition_result(name, BlockState::Blocked, false)
}

/// The registry after a start request.
pub open spec fn after_start(registry: RegistryView, name: Seq<char>) -> RegistryView {
    registry.after_transition(name, BlockState::Blocked, None, false)
}

/// How a stop request at `now` ends.
pub open spec fn stop_result(registry: RegistryView, name: Seq<char>, now: u64) -> Result<
    (),
    ErrorKind,
> {
    registry.transition_result(name, BlockState::Unblocked, stop_expiry_met(registry, name, now))
}

/// The registry after a stop request at `now`.
pub open spec fn after_stop(registry: RegistryView, name: Seq<char>, now: u64) -> RegistryView {
    registry.after_transition(
        name,
        BlockState::Unblocked,
        None,
        stop_expiry_met(registry, name, now),
    )
}

/// How a lock request at `now` ends. A duration that cannot be read is a
/// bad request, whatever the block.
pub open spec fn lock_result(registry: RegistryView, name: Seq<char>, lock: Seq<char>, now: u64)
    -> Result<(), ErrorKind> {
    match lock_instant(lock, now) {
        None => Err(ErrorKind::BadRequest),
        Some(_) => registry.transition_result(name, BlockState::BlockedWithLock, false),
    }
}

/// The registry after a lock request at `now`.
pub open spec fn after_lock(registry: RegistryView, name: Seq<char>, lock: Seq<char>, now: u64)
    -> RegistryView {
    match lock_instant(lock, now) {
        None => registry,
        Some(until) => registry.after_transition(
            name,
            BlockState::BlockedWithLock,
            Some(until),
            false,
        ),
    }
}

/// Starts a block: an unblocked or blocked block becomes `Blocked`. An
/// unknown name gives `NotFound`, a locked block `LockActive`. The
/// notifier's signal is raised where the request is carried out.
pub fn start_block(state: &mut ApplicationState, name: &str, notifier: &mut Notifier) -> (r: Result<
    (),
    ErrorKind,
>)
    ensures
        r == start_result(old(state)@, name@),
        final(state)@ == after_start(old(state)@, name@),
        final(state)@.wf(),
        final(notifier)@ == (old(notifier)@ || r is Ok),
{
    state.apply_transition(name, BlockState::Blocked, None, false, notifier)
}

/// Stops a block: it becomes `Unblocked`. An unknown name gives `NotFound`.
/// A locked block gives `LockActive` and stays locked, unless its lock is a
/// timed one whose instant has come at `now`. The notifier's signal is
/// raised where the request is carried out.
pub fn stop_block(state: &mut ApplicationState, name: &str, now: u64, notifier: &mut Notifier) -> (r:
    Result<(), ErrorKind>)
    ensures
        r == stop_result(old(state)@, name@, now),
        final(state)@ == after_stop(old(state)@, name@, now),
        final(state)@.wf(),
        final(notifier)@ == (old(notifier)@ || r is Ok),
{
    let expiry_met = match state.lock_until(name) {
        Some(instant) => instant <= now,
        None => false,
    };
    state.apply_transition(name, BlockState::Unblocked, None, expiry_met, notifier)
}

/// Locks a block for the duration `lock`, counted from `now`: an unblocked
/// or blocked block becomes `BlockedWithLock`. A duration that cannot be
/// read gives `BadRequest`, an unknown name `NotFound`, a block that is
/// locked already `LockActive`. The notifier's signal is raised where the
/// request is carried out.
pub fn lock_block(
    state: &mut ApplicationState,
    name: &str,
    lock: &str,
    now: u64,
    notifier: &mut Notifier,
) -> (r: Result<(), ErrorKind>)
    ensures
        r == lock_result(old(state)@, name@, lock@, now),
        final(state)@ == after_lock(old(state)@, name@, lock@, now),
        final(state)@.wf(),
        final(notifier)@ == (old(notifier)@ || r is Ok),
{
    state.well_formed();
    let seconds = match parse_lock(lock) {
        Some(seconds) => seconds,
        None => {
            return Err(ErrorKind::BadRequest);
        },
    };
    let until = match now.checked_add(seconds) {
        Some(until) => until,
        None => {
            return Err(ErrorKind::BadRequest);
        },
    };
    state.apply_transition(name, BlockState::BlockedWithLock, Some(until), false, notifier)
}

/// The name of an error kind, as responses carry it.
pub open spec fn kind_name(kind: ErrorKind) -> Seq<char> {
    match kind {
        ErrorKind::NotFound => "NotFound"@,
        ErrorKind::LockActive => "LockActive"@,
        ErrorKind::BadRequest => "BadRequest"@,
    }
}

/// The response to a request that failed: the error's kind and, where the
/// request named a block, that name.
pub open spec fn error_response(kind: ErrorKind, block: Option<Seq<char>>) -> Seq<char> {
    match block {
        Some(name) => "{\"error\":\""@ + kind_name(kind) + "\",\"block\":"@ + json_string(name)
            + "}"@,
        None => "{\"error\":\""@ + kind_name(kind) + "\"}"@,
    }
}

/// The response to a request that was carried out.
pub open spec fn status_response(status: Seq<char>, name: Seq<char>) -> Seq<char> {
    "{\"status\":\""@ + status + "\",\"block\":"@ + json_string(name) + "}"@
}

/// One block of a listing: its name and its state's name.
pub open spec fn listing_member(block: BlockView) -> Seq<char> {
    json_string(block.name) + ":\""@ + block.state.name() + "\""@
}

/// The blocks of a listing, separated by commas.
pub open spec fn listing_members(blocks: Seq<BlockView>) -> Seq<char>
    decreases blocks.len(),
{
    if blocks.len() == 0 {
        Seq::empty()
    } else if blocks.len() == 1 {
        listing_member(blocks[0])
    } else {
        listing_members(blocks.drop_last()) + ","@ + listing_member(blocks.last())
    }
}

/// What is known of the literals for the names of these blocks: a plain
/// name is written as it is, between two double quotes.
pub open spec fn names_plainly_quoted(blocks: Seq<BlockView>) -> bool {
    forall|i: int| 0 <= i < blocks.len() ==> plainly_quoted((#[trigger] blocks[i]).name)
}

/// The response to a listing request: every block's name with its state.
pub open spec fn listing_response(blocks: Seq<BlockView>) -> Seq<char> {
    "{\"blocks\":{"@ + listing_members(blocks) + "}}"@
}

fn kind_str(kind: ErrorKind) -> (name: &'static str)
    ensures
        name@ == kind_name(kind),
{
    match kind {
        ErrorKind::NotFound => "NotFound",
        ErrorKind::LockActive => "LockActive",
        ErrorKind::BadRequest => "BadRequest",
    }
}

/// Writes the response to a request that failed.
pub fn render_error(kind: ErrorKind, block: Option<&str>) -> (response: String)
    ensures
        response@ == error_response(
            kind,
            match block {
                Some(name) => Some(name@),
                None => None,
            },
        ),
        block matches Some(name) ==> plainly_quoted(name@),
{
    let mut response = String::from_str("{\"error\":\"");
    response.append(kind_str(kind));
    match block {
        Some(name) => {
            response.append("\",\"block\":");
            let literal = quote(name);
            response.append(literal.as_str());
            response.append("}");
        },
        None => {
            response.append("\"}");
        },
    }
    response
}

/// Writes the response to a request that was carried out.
fn render_status(status: &str, name: &str) -> (response: String)
    ensures
        response@ == status_response(status@, name@),
        plainly_quoted(name@),
{
    let mut response = String::from_str("{\"status\":\"");
    response.append(status);
    response.append("\",\"block\":");
    let literal = quote(name);
    response.append(literal.as_str());
    response.append("}");
    response
}

/// Lists the blocks: the response that names every block of the registry
/// with its state, in the order of the configuration.
pub fn list_blocks(state: &ApplicationState) -> (response: String)
    ensures
        response@ == listing_response(state@.blocks),
        names_plainly_quoted(state@.blocks),
{
    let listing = state.list();
    let ghost blocks = state@.blocks;
    let mut members = String::new();
    let mut i: usize = 0;
    assert(blocks.take(0) =~= Seq::<BlockView>::empty());
    while i < listing.len()
        invariant
            i <= listing@.len(),
            listing@.len() == blocks.len(),
            forall|j: int|
                0 <= j < listing@.len() ==> (#[trigger] listing@[j]).0@ == blocks[j].name
                    && listing@[j].1 == blocks[j].state,
            members@ == listing_members(blocks.take(i as int)),
            forall|j: int| 0 <= j < i ==> plainly_quoted((#[trigger] blocks[j]).name),
        decreases listing.len() - i,
    {
        proof {
            let upto = blocks.take(i + 1);
            assert(upto.drop_last() =~= blocks.take(i as int));
            assert(upto.last() == blocks[i as int]);
            if i == 0 {
                assert(upto[0] == blocks[0]);
            }
        }
        if i > 0 {
            members.append(",");
        }
        let literal = quote(listing[i].0.as_str());
        members.append(literal.as_str());
        members.append(":\"");
        members.append(listing[i].1.as_str());
        members.append("\"");
        proof {
            let done = listing_members(blocks.take(i as int));
            let one = listing_member(blocks[i as int]);
            if i == 0 {
                assert(members@ =~= one);
            } else {
                assert(members@ =~= done + ","@ + one);
            }
        }
        i += 1;
    }
    assert(blocks.take(listing@.len() as int) =~= blocks);
    let mut response = String::from_str("{\"blocks\":{");
    response.append(members.as_str());
    response.append("}}");
    response
}

/// What handling a request gives: the response, and whether the registry
/// took a transition. Where it did, the notifier's signal was raised before
/// the response came to be.
#[derive(Debug, PartialEq, Eq)]
pub struct ControlOutcome {
    pub response: String,
    pub changed: bool,
}

/// The name that a command speaks of, if it speaks of one.
pub open spec fn command_block(command: CommandView) -> Option<Seq<char>> {
    match command {
        CommandView::ListBlocks => None,
        CommandView::StartBlock { name } => Some(name),
        CommandView::StopBlock { name } => Some(name),
        CommandView::LockBlock { name, .. } => Some(name),
    }
}

/// How a command ends on a registry at `now`.
pub open spec fn command_result(registry: RegistryView, command: CommandView, now: u64) -> Result<
    (),
    ErrorKind,
> {
    match command {
        CommandView::ListBlocks => Ok(()),
        CommandView::StartBlock { name } => start_result(registry, name),
        CommandView::StopBlock { name } => stop_result(registry, name, now),
        CommandView::LockBlock { name, lock } => lock_result(registry, name, lock, now),
    }
}

/// The registry after a command at `now`.
pub open spec fn after_command(registry: RegistryView, command: CommandView, now: u64)
    -> RegistryView {
    match command {
        CommandView::ListBlocks => registry,
        CommandView::StartBlock { name } => after_start(registry, name),
        CommandView::StopBlock { name } => after_stop(registry, name, now),
        CommandView::LockBlock { name, lock } => after_lock(registry, name, lock, now),
    }
}

/// The response to a command on a registry at `now`.
pub open spec fn command_response(registry: RegistryView, command: CommandView, now: u64) -> Seq<
    char,
> {
    match command_result(registry, command, now) {
        Err(kind) => error_response(kind, command_block(command)),
        Ok(_) => match command {
            CommandView::ListBlocks => listing_response(registry.blocks),
            CommandView::StartBlock { name } => status_response("started"@, name),
            CommandView::StopBlock { name } => status_response("stopped"@, name),
            CommandView::LockBlock { name, .. } => status_response("locked"@, name),
        },
    }
}

/// What is known of the literals in the response to a command: every plain
/// name in it is written as it is, between two double quotes.
pub open spec fn response_plainly_quoted(registry: RegistryView, command: CommandView) -> bool {
    match command_block(command) {
        Some(name) => plainly_quoted(name),
        None => names_plainly_quoted(registry.blocks),
    }
}

/// Whether a command changes the registry's record, so that observers are
/// to be told: it is a start, stop or lock, and it is carried out.
pub open spec fn command_changes(registry: RegistryView, command: CommandView, now: u64) -> bool {
    !(command is ListBlocks) && command_result(registry, command, now) is Ok
}

/// Carries out a command at `now` and writes the response. A command that
/// changes the registry raises the notifier's signal.
pub fn run_command(
    state: &mut ApplicationState,
    command: &ControlCommand,
    now: u64,
    notifier: &mut Notifier,
) -> (outcome: ControlOutcome)
    ensures
        final(state)@ == after_command(old(state)@, command@, now),
        outcome.response@ == command_response(old(state)@, command@, now),
        outcome.changed == command_changes(old(state)@, command@, now),
        final(state)@.wf(),
        final(notifier)@ == (old(notifier)@ || outcome.changed),
        response_plainly_quoted(old(state)@, command@),
{
    state.well_formed();
    match command {
        ControlCommand::ListBlocks => ControlOutcome {
            response: list_blocks(state),
            changed: false,
        },
        ControlCommand::StartBlock { name } => match start_block(state, name.as_str(), notifier) {
            Ok(_) => ControlOutcome {
                response: render_status("started", name.as_str()),
                changed: true,
            },
            Err(kind) => ControlOutcome {
                response: render_error(kind, Some(name.as_str())),
                changed: false,
            },
        },
        ControlCommand::StopBlock { name } => match stop_block(
            state,
            name.as_str(),
            now,
            notifier,
        ) {
            Ok(_) => ControlOutcome {
                response: render_status("stopped", name.as_str()),
                changed: true,
            },
            Err(kind) => ControlOutcome {
                response: render_error(kind, Some(name.as_str())),
                changed: false,
            },
        },
        ControlCommand::LockBlock { name, lock } => match lock_block(
            state,
            name.as_str(),
            lock.as_str(),
            now,
            notifier,
        ) {
            Ok(_) => ControlOutcome {
                response: render_status("locked", name.as_str()),
                changed: true,
            },
            Err(kind) => ControlOutcome {
                response: render_error(kind, Some(name.as_str())),
                changed: false,
            },
        },
    }
}

/// Handles one request of the control channel at `now`: reads the command,
/// carries it out on the registry and writes the response. A request that
/// cannot be read changes nothing and is answered with `BadRequest`. A
/// request that changes the registry raises the notifier's signal.
pub fn handle_cli_request(
    state: &mut ApplicationState,
    request: &str,
    now: u64,
    notifier: &mut Notifier,
) -> (outcome: ControlOutcome)
    ensures
        match request_command(request@) {
            Ok(command) => {
                &&& final(state)@ == after_command(old(state)@, command, now)
                &&& outcome.response@ == command_response(old(state)@, command, now)
                &&& outcome.changed == command_changes(old(state)@, command, now)
                &&& response_plainly_quoted(old(state)@, command)
            },
            Err(kind) => {
                &&& final(state)@ == old(state)@
                &&& outcome.response@ == error_response(kind, None)
                &&& !outcome.changed
            },
        },
        final(state)@.wf(),
        final(notifier)@ == (old(notifier)@ || outcome.changed),
{
    state.well_formed();
    match read_command(request) {
        Ok(command) => run_command(state, &command, now, notifier),
        Err(kind) => ControlOutcome { response: render_error(kind, None), changed: false },
    }
}

/// The state that a command asks for, if it asks for one.
pub open spec fn command_state(command: CommandView) -> Option<BlockState> {
    match command {
        CommandView::ListBlocks => None,
        CommandView::StartBlock { .. } => Some(BlockState::Blocked),
        CommandView::StopBlock { .. } => Some(BlockState::Unblocked),
        CommandView::LockBlock { .. } => Some(BlockState::BlockedWithLock),
    }
}

/// A command touches nothing but the block it names: the names, the lists
/// and the schedule stay, and so does every other block. Where it is
/// carried out, the block is in the state that the command asks for; where
/// it is refused, the registry is as it was.
pub proof fn lemma_command_effect(registry: RegistryView, command: CommandView, now: u64)
    requires
        registry.wf(),
    ensures
        ({
            let after = after_command(registry, command, now);
            &&& after.wf()
            &&& after.names() == registry.names()
            &&& after.schedule == registry.schedule
            &&& forall|i: int|
                0 <= i < registry.blocks.len() && Some(registry.blocks[i].name) != command_block(
                    command,
                ) ==> #[trigger] after.blocks[i] == registry.blocks[i]
            &&& command_result(registry, command, now) is Err ==> after == registry
            &&& command_result(registry, command, now) is Ok && !(command is ListBlocks) ==> Some(
                after.block(command_block(command).unwrap()).state,
            ) == command_state(command)
        }),
{
    match command {
        CommandView::ListBlocks => {
            assert(registry.names() =~= registry.names());
        },
        CommandView::StartBlock { name } => {
            lemma_transition_effect(registry, name, BlockState::Blocked, None, false);
        },
        CommandView::StopBlock { name } => {
            lemma_transition_effect(
                registry,
                name,
                BlockState::Unblocked,
                None,
                stop_expiry_met(registry, name, now),
            );
        },
        CommandView::LockBlock { name, lock } => {
            match lock_instant(lock, now) {
                Some(until) => {
                    lemma_transition_effect(
                        registry,
                        name,
                        BlockState::BlockedWithLock,
                        Some(until),
                        false,
                    );
                },
                None => {},
            }
        },
    }
}

/// The registry after a series of commands, each with the instant at which
/// it arrives.
pub open spec fn after_commands(registry: RegistryView, commands: Seq<(CommandView, u64)>)
    -> RegistryView
    decreases commands.len(),
{
    if commands.len() == 0 {
        registry
    } else {
        after_command(
            after_commands(registry, commands.drop_last()),
            commands.last().0,
            commands.last().1,
        )
    }
}

/// Whatever commands arrive, a listing names exactly the blocks that the
/// registry was built with, in the same order: commands change states, never
/// the set of blocks nor the schedule.
pub proof fn lemma_commands_keep_blocks(registry: RegistryView, commands: Seq<(CommandView, u64)>)
    requires
        registry.wf(),
    ensures
        after_commands(registry, commands).wf(),
        after_commands(registry, commands).names() == registry.names(),
        after_commands(registry, commands).schedule == registry.schedule,
    decreases commands.len(),
{
    if commands.len() > 0 {
        lemma_commands_keep_blocks(registry, commands.drop_last());
        lemma_command_effect(
            after_commands(registry, commands.drop_last()),
            commands.last().0,
            commands.last().1,
        );
    }
}

/// A stop request on a locked block whose lock has not expired is refused
/// with `LockActive` and leaves the registry as it was.
pub proof fn lemma_stop_refused_while_locked(registry: RegistryView, name: Seq<char>, now: u64)
    requires
        registry.has(name),
        registry.block(name).state == BlockState::BlockedWithLock,
        !lock_expired(registry.block(name).lock_until, now),
    ensures
        stop_result(registry, name, now) == Err::<(), ErrorKind>(ErrorKind::LockActive),
        after_stop(registry, name, now) == registry,
{
}

/// A block that was locked for a duration resists every stop request that
/// arrives before the duration is over, and yields to one that arrives
/// after it.
pub proof fn lemma_lock_holds_for_its_duration(
    registry: RegistryView,
    name: Seq<char>,
    lock: Seq<char>,
    now: u64,
    later: u64,
)
    requires
        registry.wf(),
        registry.has(name),
        registry.block(name).state != BlockState::BlockedWithLock,
        lock_instant(lock, now) is Some,
    ensures
        lock_result(registry, name, lock, now) is Ok,
        ({
            let locked = after_lock(registry, name, lock, now);
            &&& locked.block(name).state == BlockState::BlockedWithLock
            &&& later < lock_instant(lock, now).unwrap() ==> {
                &&& stop_result(locked, name, later) == Err::<(), ErrorKind>(ErrorKind::LockActive)
                &&& after_stop(locked, name, later) == locked
            }
            &&& later >= lock_instant(lock, now).unwrap() ==> {
                &&& stop_result(locked, name, later) is Ok
                &&& after_stop(locked, name, later).block(name).state == BlockState::Unblocked
            }
        }),
{
    let until = lock_instant(lock, now).unwrap();
    let locked = after_lock(registry, name, lock, now);
    lemma_transition_effect(registry, name, BlockState::BlockedWithLock, Some(until), false);
    let i = registry.index_of(name);
    assert(crate::state::named_at(registry.blocks, name, i));
    assert(crate::state::named_at(locked.blocks, name, i));
    crate::state::lemma_index_of_name(locked.blocks, name, i);
    assert(locked.block(name).lock_until == Some(until));
    lemma_transition_effect(
        locked,
        name,
        BlockState::Unblocked,
        None,
        stop_expiry_met(locked, name, later),
    );
}

} // verus!
