//! What goes to the bridge and on to the browser: the state update that the
//! daemon pushes after every change, and the bridge's own status messages.

use vstd::prelude::*;
use crate::check::{allowed_response, check_url, render_decision, requested_url, url_allowed};
use crate::control::{error_response, render_error};
use crate::json::{
    document_of, json_string, member, parse_document, plainly_quoted, quote, string_member,
};
use crate::control::names_plainly_quoted;
use crate::state::{
    block_view, named_views, ApplicationState, Block, BlockView, ErrorKind, RegistryView,
};
use crate::text::{same_text, views};

verus! {

/// What the bridge tells the browser when it has reached the daemon.
pub const CONNECTED_MESSAGE: &'static str = "{\"status\":\"connected\"}";

/// What the bridge tells the browser when it has lost the daemon.
pub const DISCONNECTED_MESSAGE: &'static str = "{\"status\":\"disconnected\"}";

/// What the bridge asks of the daemon when it has reached it.
pub const STATE_REQUEST: &'static str = "{\"action\":\"get_state\"}";

/// Seconds that the bridge waits before it tries to reach the daemon again.
pub const RECONNECT_SECONDS: u64 = 1;

/// The strings of a list as JSON string literals, separated by commas.
pub open spec fn string_items(items: Seq<Seq<char>>) -> Seq<char>
    decreases items.len(),
{
    if items.len() == 0 {
        Seq::empty()
    } else if items.len() == 1 {
        json_string(items[0])
    } else {
        string_items(items.drop_last()) + ","@ + json_string(items.last())
    }
}

/// A list as JSON: an array of strings, or `null` where there is no list.
pub open spec fn list_text(list: Option<Seq<Seq<char>>>) -> Seq<char> {
    match list {
        Some(items) => "["@ + string_items(items) + "]"@,
        None => "null"@,
    }
}

/// A block as JSON: its two lists and the name of its state.
pub open spec fn block_text(block: BlockView) -> Seq<char> {
    "{\"whitelist\":"@ + list_text(block.whitelist) + ",\"blacklist\":"@ + list_text(
        block.blacklist,
    ) + ",\"block_state\":\""@ + block.state.name() + "\"}"@
}

/// The blocks of a state update, each under its name, separated by commas.
pub open spec fn update_members(blocks: Seq<BlockView>) -> Seq<char>
    decreases blocks.len(),
{
    if blocks.len() == 0 {
        Seq::empty()
    } else if blocks.len() == 1 {
        json_string(blocks[0].name) + ":"@ + block_text(blocks[0])
    } else {
        update_members(blocks.drop_last()) + ","@ + json_string(blocks.last().name) + ":"@
            + block_text(blocks.last())
    }
}

/// The state update for these blocks.
pub open spec fn state_update_text(blocks: Seq<BlockView>) -> Seq<char> {
    "{\"type\":\"state_update\",\"blocks\":{"@ + update_members(blocks) + "}}"@
}

fn push_list(out: &mut String, list: &Option<Vec<String>>)
    ensures
        final(out)@ == old(out)@ + list_text(crate::state::list_view(*list)),
{
    match list {
        None => {
            out.append("null");
        },
        Some(items) => {
            let ghost texts = views(items@);
            let mut body = String::new();
            let mut i: usize = 0;
            assert(texts.take(0) =~= Seq::<Seq<char>>::empty());
            while i < items.len()
                invariant
                    i <= items@.len(),
                    texts == views(items@),
                    body@ == string_items(texts.take(i as int)),
                decreases items.len() - i,
            {
                proof {
                    let upto = texts.take(i + 1);
                    assert(upto.drop_last() =~= texts.take(i as int));
                    assert(upto.last() == items@[i as int]@);
                    if i == 0 {
                        assert(upto[0] == items@[0]@);
                    }
                }
                let ghost done = body@;
                if i > 0 {
                    body.append(",");
                }
                let literal = quote(items[i].as_str());
                body.append(literal.as_str());
                proof {
                    if i == 0 {
                        assert(body@ =~= json_string(items@[0]@));
                    } else {
                        assert(body@ =~= done + ","@ + json_string(items@[i as int]@));
                    }
                }
                i += 1;
            }
            assert(texts.take(items@.len() as int) =~= texts);
            out.append("[");
            out.append(body.as_str());
            out.append("]");
            assert(out@ =~= old(out)@ + list_text(Some(texts)));
        },
    }
}

fn push_block(out: &mut String, block: &Block)
    ensures
        final(out)@ == old(out)@ + block_text(block_view(Seq::empty(), *block)),
{
    out.append("{\"whitelist\":");
    push_list(out, &block.whitelist);
    out.append(",\"blacklist\":");
    push_list(out, &block.blacklist);
    out.append(",\"block_state\":\"");
    out.append(block.block_state.as_str());
    out.append("\"}");
    let ghost view = block_view(Seq::empty(), *block);
    assert(out@ =~= old(out)@ + block_text(view));
}

/// Writes the state update that the daemon pushes to the bridge: every
/// block under its name, with its lists and its state.
pub fn state_update(state: &ApplicationState) -> (message: String)
    ensures
        message@ == state_update_text(state@.blocks),
        names_plainly_quoted(state@.blocks),
{
    let blocks = state.blocks();
    let ghost all = state@.blocks;
    let mut members = String::new();
    let mut i: usize = 0;
    assert(all.take(0) =~= Seq::<BlockView>::empty());
    while i < blocks.len()
        invariant
            i <= blocks@.len(),
            all == named_views(blocks@),
            members@ == update_members(all.take(i as int)),
            forall|j: int| 0 <= j < i ==> plainly_quoted((#[trigger] all[j]).name),
        decreases blocks.len() - i,
    {
        proof {
            let upto = all.take(i + 1);
            assert(upto.drop_last() =~= all.take(i as int));
            assert(upto.last() == all[i as int]);
            if i == 0 {
                assert(upto[0] == all[0]);
            }
        }
        let ghost done = members@;
        if i > 0 {
            members.append(",");
        }
        let literal = quote(blocks[i].0.as_str());
        members.append(literal.as_str());
        members.append(":");
        push_block(&mut members, &blocks[i].1);
        proof {
            let block = all[i as int];
            assert(block_text(block_view(Seq::empty(), blocks@[i as int].1)) == block_text(block));
            if i == 0 {
                assert(members@ =~= json_string(block.name) + ":"@ + block_text(block));
            } else {
                assert(members@ =~= done + ","@ + json_string(block.name) + ":"@ + block_text(
                    block,
                ));
            }
        }
        i += 1;
    }
    assert(all.take(blocks@.len() as int) =~= all);
    let mut message = String::from_str("{\"type\":\"state_update\",\"blocks\":{");
    message.append(members.as_str());
    message.append("}}");
    message
}

/// The daemon's answer to a message from the bridge. A request for the
/// state is answered with a state update, any other document with the
/// decision on the URL that it carries. A text that is not a JSON document
/// is answered with `BadRequest`.
pub open spec fn bridge_response(registry: RegistryView, request: Seq<char>) -> Seq<char> {
    match document_of(request) {
        None => error_response(ErrorKind::BadRequest, None),
        Some(members) => if member(members, "action"@) == Some("get_state"@) {
            state_update_text(registry.blocks)
        } else {
            allowed_response(url_allowed(registry, requested_url(members)))
        },
    }
}

/// Answers one message from the bridge on the registry as it stands.
pub fn handle_bridge_message(state: &ApplicationState, request: &str) -> (response: String)
    ensures
        response@ == bridge_response(state@, request@),
{
    match parse_document(request) {
        Err(_) => render_error(ErrorKind::BadRequest, None),
        Ok(document) => {
            let asks_for_state = match string_member(&document, "action") {
                Some(action) => same_text(action.as_str(), "get_state"),
                None => false,
            };
            if asks_for_state {
                state_update(state)
            } else {
                let url = match string_member(&document, "url") {
                    Some(url) => url,
                    None => String::new(),
                };
                render_decision(check_url(state, url.as_str()))
            }
        },
    }
}

/// What happens to the bridge's link with the daemon.
#[derive(Debug, Clone, Copy, PartialEq, Eq, Structural)]
pub enum RelayEvent {
    /// The daemon was reached.
    Connected,
    /// The daemon could not be reached.
    ConnectFailed,
    /// A message came from the daemon.
    Received,
    /// The link to the daemon broke.
    Lost,
}

/// What the bridge does about an event, in this order: tell the browser
/// that the daemon is lost, tell it that the daemon is reached and ask the
/// daemon for its state, pass the daemon's message on to the browser, wait
/// before the next attempt.
#[derive(Debug, Clone, Copy, PartialEq, Eq, Structural)]
pub struct RelayStep {
    pub report_loss: bool,
    pub announce: bool,
    pub forward: bool,
    pub wait_seconds: u64,
}

/// Whether the bridge holds a link after an event.
pub open spec fn linked_after(linked: bool, event: RelayEvent) -> bool {
    match event {
        RelayEvent::Connected => true,
        RelayEvent::Received => linked,
        RelayEvent::ConnectFailed => false,
        RelayEvent::Lost => false,
    }
}

/// What the bridge does about an event. Reaching the daemon is announced
/// once for each link, and so is losing it; a failed attempt is followed by
/// a wait.
pub open spec fn relay_step(linked: bool, event: RelayEvent) -> RelayStep {
    RelayStep {
        report_loss: linked && (event == RelayEvent::Lost || event == RelayEvent::ConnectFailed),
        announce: !linked && event == RelayEvent::Connected,
        forward: event == RelayEvent::Received,
        wait_seconds: if event == RelayEvent::ConnectFailed {
            RECONNECT_SECONDS
        } else {
            0
        },
    }
}

/// The bridge's record of its link with the daemon.
#[derive(Debug)]
pub struct Relay {
    linked: bool,
}

impl View for Relay {
    type V = bool;

    /// Whether the bridge holds a link with the daemon.
    closed spec fn view(&self) -> bool {
        self.linked
    }
}

impl Relay {
    /// A relay without a link.
    pub fn new() -> (relay: Relay)
        ensures
            !relay@,
    {
        Relay { linked: false }
    }

    /// Takes note of an event and says what to do about it.
    pub fn on(&mut self, event: RelayEvent) -> (step: RelayStep)
        ensures
            step == relay_step(old(self)@, event),
            final(self)@ == linked_after(old(self)@, event),
    {
        let linked = self.linked;
        let (report_loss, announce, forward, wait_seconds, next) = match event {
            RelayEvent::Connected => (false, !linked, false, 0, true),
            RelayEvent::ConnectFailed => (linked, false, false, RECONNECT_SECONDS, false),
            RelayEvent::Received => (false, false, true, 0, linked),
            RelayEvent::Lost => (linked, false, false, 0, false),
        };
        self.linked = next;
        RelayStep { report_loss, announce, forward, wait_seconds }
    }
}

} // verus!
