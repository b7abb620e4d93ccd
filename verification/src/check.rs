//! The check channel: one URL in, one allow/deny decision out.

use vstd::prelude::*;
use crate::control::{error_response, render_error};
use crate::json::{document_of, member, parse_document, string_member};
use crate::matcher::{blocked, is_blocked};
use crate::state::{
    active_blacklist, active_whitelist, get_blacklist, get_whitelist, ApplicationState, ErrorKind,
    RegistryView,
};
use crate::text::views;

verus! {

/// Whether a URL is allowed by the lists of the blocks that are active.
pub open spec fn url_allowed(registry: RegistryView, url: Seq<char>) -> bool {
    !blocked(active_blacklist(registry.blocks), active_whitelist(registry.blocks), url)
}

/// The lists that a check is decided on: the blacklist entries and the
/// whitelist patterns of every active block.
pub fn snapshot_lists(state: &ApplicationState) -> (lists: (Vec<String>, Vec<String>))
    ensures
        views(lists.0@) == active_blacklist(state@.blocks),
        views(lists.1@) == active_whitelist(state@.blocks),
{
    (get_blacklist(state), get_whitelist(state))
}

/// Decides a URL against the registry as it stands.
pub fn check_url(state: &ApplicationState, url: &str) -> (allowed: bool)
    ensures
        allowed == url_allowed(state@, url@),
{
    let (blacklist, whitelist) = snapshot_lists(state);
    !is_blocked(&blacklist, &whitelist, url)
}

/// The response that carries a decision.
pub open spec fn allowed_response(allowed: bool) -> Seq<char> {
    if allowed {
        "{\"allowed\":true}"@
    } else {
        "{\"allowed\":false}"@
    }
}

/// The URL that the members of a check request carry: the `url` member, or
/// the empty URL where there is none.
pub open spec fn requested_url(members: Map<Seq<char>, Seq<char>>) -> Seq<char> {
    match member(members, "url"@) {
        Some(url) => url,
        None => Seq::empty(),
    }
}

/// The response to a check request on the given lists. A text that is not a
/// JSON document is answered with `BadRequest`.
pub open spec fn check_response(
    blacklist: Seq<Seq<char>>,
    whitelist: Seq<Seq<char>>,
    request: Seq<char>,
) -> Seq<char> {
    match document_of(request) {
        None => error_response(ErrorKind::BadRequest, None),
        Some(members) => allowed_response(!blocked(blacklist, whitelist, requested_url(members))),
    }
}

/// Writes the response that carries a decision.
pub fn render_decision(allowed: bool) -> (response: String)
    ensures
        response@ == allowed_response(allowed),
{
    if allowed {
        String::from_str("{\"allowed\":true}")
    } else {
        String::from_str("{\"allowed\":false}")
    }
}

/// Handles one request of the check channel on a snapshot of the active
/// lists: reads the URL, decides it and writes the response.
pub fn handle_bridge_request(blacklist: &Vec<String>, whitelist: &Vec<String>, request: &str) -> (response:
    String)
    ensures
        response@ == check_response(views(blacklist@), views(whitelist@), request@),
{
    match parse_document(request) {
        Err(_) => render_error(ErrorKind::BadRequest, None),
        Ok(document) => {
            let url = match string_member(&document, "url") {
                Some(url) => url,
                None => String::new(),
            };
            render_decision(!is_blocked(blacklist, whitelist, url.as_str()))
        },
    }
}

/// Handles one request of the check channel on the registry as it stands.
pub fn handle_check_request(state: &ApplicationState, request: &str) -> (response: String)
    ensures
        response@ == check_response(
            active_blacklist(state@.blocks),
            active_whitelist(state@.blocks),
            request@,
        ),
{
    let (blacklist, whitelist) = snapshot_lists(state);
    handle_bridge_request(&blacklist, &whitelist, request)
}

} // verus!
