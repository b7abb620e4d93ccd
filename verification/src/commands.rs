//! The command-line client's side of the control channel: the requests it
//! sends, and the table in which it shows a listing.

use vstd::prelude::*;
use vstd::utf8::encode_utf8;
use crate::json::{json_string, plainly_quoted, quote};
use crate::text::same_text;

verus! {

/// The request that asks for a listing.
pub open spec fn list_request() -> Seq<char> {
    "{\"action\":\"list_blocks\"}"@
}

/// A request that names an action and a block.
pub open spec fn block_request(action: Seq<char>, name: Seq<char>) -> Seq<char> {
    "{\"action\":\""@ + action + "\",\"name\":"@ + json_string(name) + "}"@
}

/// A request that names an action, a block and a lock duration.
pub open spec fn lock_request(action: Seq<char>, name: Seq<char>, lock: Seq<char>) -> Seq<char> {
    "{\"action\":\""@ + action + "\",\"name\":"@ + json_string(name) + ",\"lock\":"@ + json_string(
        lock,
    ) + "}"@
}

/// Writes the request that asks for a listing.
pub fn list_blocks_request() -> (request: String)
    ensures
        request@ == list_request(),
{
    String::from_str("{\"action\":\"list_blocks\"}")
}

fn write_request(action: &str, name: &str, lock: Option<&str>) -> (request: String)
    ensures
        request@ == match lock {
            Some(lock) => lock_request(action@, name@, lock@),
            None => block_request(action@, name@),
        },
        plainly_quoted(name@),
        lock matches Some(lock) ==> plainly_quoted(lock@),
{
    let mut request = String::from_str("{\"action\":\"");
    request.append(action);
    request.append("\",\"name\":");
    let name_literal = quote(name);
    request.append(name_literal.as_str());
    match lock {
        Some(lock) => {
            request.append(",\"lock\":");
            let lock_literal = quote(lock);
            request.append(lock_literal.as_str());
        },
        None => {},
    }
    request.append("}");
    request
}

/// Writes the request that starts a block. A lock duration, where one is
/// given, goes along.
pub fn start_block_request(name: &str, lock: Option<&str>) -> (request: String)
    ensures
        request@ == match lock {
            Some(lock) => lock_request("start_block"@, name@, lock@),
            None => block_request("start_block"@, name@),
        },
        plainly_quoted(name@),
        lock matches Some(lock) ==> plainly_quoted(lock@),
{
    write_request("start_block", name, lock)
}

/// Writes the request that stops a block.
pub fn stop_block_request(name: &str) -> (request: String)
    ensures
        request@ == block_request("stop_block"@, name@),
        plainly_quoted(name@),
{
    write_request("stop_block", name, None)
}

/// Writes the request that locks a block for a duration.
pub fn lock_block_request(name: &str, lock: &str) -> (request: String)
    ensures
        request@ == lock_request("lock_block"@, name@, lock@),
        plainly_quoted(name@),
        plainly_quoted(lock@),
{
    write_request("lock_block", name, Some(lock))
}

/// How a state is shown: its label between the escape codes of its colour.
/// A state that is not known is shown as it is written, a state that is not
/// a string as `Unknown`.
pub open spec fn status_label(status: Option<Seq<char>>) -> Seq<char> {
    match status {
        None => "Unknown"@,
        Some(status) => if status == "Blocked"@ {
            "\x1b[33mBlocked\x1b[0m"@
        } else if status == "BlockedWithLock"@ || status == "Locked"@ {
            "\x1b[31mLocked\x1b[0m"@
        } else if status == "Unblocked"@ {
            "\x1b[32mUnblocked\x1b[0m"@
        } else {
            status
        },
    }
}

/// Writes the label under which a state is shown.
pub fn colored_status(status: Option<&str>) -> (label: String)
    ensures
        label@ == status_label(
            match status {
                Some(status) => Some(status@),
                None => None,
            },
        ),
{
    match status {
        None => String::from_str("Unknown"),
        Some(status) => if same_text(status, "Blocked") {
            String::from_str("\x1b[33mBlocked\x1b[0m")
        } else if same_text(status, "BlockedWithLock") || same_text(status, "Locked") {
            String::from_str("\x1b[31mLocked\x1b[0m")
        } else if same_text(status, "Unblocked") {
            String::from_str("\x1b[32mUnblocked\x1b[0m")
        } else {
            String::from_str(status)
        },
    }
}

/// One row of a listing: a block's name and its state, where the state is a
/// string.
#[derive(Debug, PartialEq, Eq)]
pub struct ListingRow {
    pub name: String,
    pub status: Option<String>,
}

/// The width of the name column: the longest name's length in bytes, and
/// at least the ten characters of the column's title.
pub open spec fn name_width(rows: Seq<ListingRow>) -> nat
    decreases rows.len(),
{
    if rows.len() == 0 {
        10
    } else {
        let rest = name_width(rows.drop_last());
        let last = encode_utf8(rows.last().name@).len();
        if last > rest {
            last
        } else {
            rest
        }
    }
}

/// `count` times the character `fill`.
pub open spec fn repeated(fill: char, count: nat) -> Seq<char> {
    Seq::new(count, |i: int| fill)
}

/// A text padded on the right with `fill` to `width` characters; a text
/// that is wider stays as it is.
pub open spec fn padded(text: Seq<char>, fill: char, width: nat) -> Seq<char> {
    if text.len() >= width {
        text
    } else {
        text + repeated(fill, (width - text.len()) as nat)
    }
}

/// The line that shows one row.
pub open spec fn row_line(row: ListingRow, width: nat) -> Seq<char> {
    padded(row.name@, ' ', width) + "  "@ + status_label(
        match row.status {
            Some(status) => Some(status@),
            None => None,
        },
    )
}

/// The lines of the table that shows a listing: the titles, a rule, and
/// one line for each row.
pub open spec fn table_lines(rows: Seq<ListingRow>) -> Seq<Seq<char>> {
    seq![
        padded("Block Name"@, ' ', name_width(rows)) + "  "@ + "Status"@,
        repeated('-', name_width(rows)) + "  "@ + repeated('-', 6),
    ] + Seq::new(rows.len(), |i: int| row_line(rows[i], name_width(rows)))
}

fn push_repeated(out: &mut String, fill: &str, count: usize)
    requires
        fill@.len() == 1,
    ensures
        final(out)@ == old(out)@ + repeated(fill@[0], count as nat),
{
    let mut i: usize = 0;
    assert(out@ =~= old(out)@ + repeated(fill@[0], 0));
    while i < count
        invariant
            i <= count,
            fill@.len() == 1,
            out@ == old(out)@ + repeated(fill@[0], i as nat),
        decreases count - i,
    {
        out.append(fill);
        assert(out@ =~= old(out)@ + repeated(fill@[0], (i + 1) as nat));
        i += 1;
    }
}

fn push_padded(out: &mut String, text: &str, width: usize)
    ensures
        final(out)@ == old(out)@ + padded(text@, ' ', width as nat),
{
    out.append(text);
    let length = text.unicode_len();
    if length < width {
        proof {
            reveal_strlit(" ");
        }
        push_repeated(out, " ", width - length);
        assert(out@ =~= old(out)@ + padded(text@, ' ', width as nat));
    }
}

fn column_width(rows: &Vec<ListingRow>) -> (width: usize)
    ensures
        width == name_width(rows@),
{
    let mut width: usize = 10;
    let mut i: usize = 0;
    assert(rows@.take(0) =~= Seq::<ListingRow>::empty());
    while i < rows.len()
        invariant
            i <= rows@.len(),
            width == name_width(rows@.take(i as int)),
        decreases rows.len() - i,
    {
        proof {
            let upto = rows@.take(i + 1);
            assert(upto.drop_last() =~= rows@.take(i as int));
            assert(upto.last() == rows@[i as int]);
        }
        let length = rows[i].name.as_str().as_bytes().len();
        if length > width {
            width = length;
        }
        i += 1;
    }
    assert(rows@.take(rows@.len() as int) =~= rows@);
    width
}

/// Lays out a listing as a table: a line of titles, a rule, and a line for
/// each row with the block's name, padded to the column's width, and its
/// state in colour.
pub fn render_block_table(rows: &Vec<ListingRow>) -> (lines: Vec<String>)
    ensures
        crate::text::views(lines@) == table_lines(rows@),
{
    let width = column_width(rows);
    let mut lines: Vec<String> = Vec::new();
    let mut titles = String::new();
    push_padded(&mut titles, "Block Name", width);
    titles.append("  ");
    titles.append("Status");
    lines.push(titles);
    let mut rule = String::new();
    proof {
        reveal_strlit("-");
    }
    push_repeated(&mut rule, "-", width);
    rule.append("  ");
    push_repeated(&mut rule, "-", 6);
    lines.push(rule);
    let ghost head = crate::text::views(lines@);
    assert(head =~= seq![
        padded("Block Name"@, ' ', name_width(rows@)) + "  "@ + "Status"@,
        repeated('-', name_width(rows@)) + "  "@ + repeated('-', 6),
    ]);
    let mut i: usize = 0;
    while i < rows.len()
        invariant
            i <= rows@.len(),
            width == name_width(rows@),
            lines@.len() == 2 + i,
            crate::text::views(lines@).take(2) == head,
            forall|j: int| 0 <= j < i ==> (#[trigger] lines@[2 + j])@ == row_line(rows@[j], width as nat),
        decreases rows.len() - i,
    {
        let row = &rows[i];
        let mut line = String::new();
        push_padded(&mut line, row.name.as_str(), width);
        line.append("  ");
        let label = match &row.status {
            Some(status) => colored_status(Some(status.as_str())),
            None => colored_status(None),
        };
        line.append(label.as_str());
        let ghost before = crate::text::views(lines@);
        lines.push(line);
        assert(crate::text::views(lines@).take(2) =~= before.take(2));
        i += 1;
    }
    assert forall|k: int| 0 <= k < lines@.len() implies crate::text::views(lines@)[k] == table_lines(
        rows@,
    )[k] by {
        if k < 2 {
            assert(crate::text::views(lines@).take(2)[k] == head[k]);
        } else {
            assert(lines@[2 + (k - 2)]@ == row_line(rows@[k - 2], width as nat));
        }
    }
    assert(crate::text::views(lines@) =~= table_lines(rows@));
    lines
}

} // verus!
