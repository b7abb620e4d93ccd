//! JSON, as far as the two channels need it: reading the string members of
//! a request document and writing a string as a JSON literal. Both are left
//! to `serde_json`; what this module states of it is believed, not proved.

use vstd::prelude::*;

verus! {

#[verifier::external_type_specification]
#[verifier::external_body]
pub struct ExDocument(serde_json::Value);

#[verifier::external_type_specification]
#[verifier::external_body]
pub struct ExDocumentError(serde_json::Error);

/// The string members of a JSON document: where the document is an object,
/// its keys whose value is a JSON string, each with that string. Any other
/// document has none.
pub uninterp spec fn string_members(document: serde_json::Value) -> Map<Seq<char>, Seq<char>>;

/// The string members of the JSON document that a text writes, or `None`
/// where the text is not a JSON document.
pub uninterp spec fn document_of(text: Seq<char>) -> Option<Map<Seq<char>, Seq<char>>>;

/// The JSON string literal for a text: the text between double quotes, with
/// the characters escaped that JSON wants escaped.
pub uninterp spec fn json_string(text: Seq<char>) -> Seq<char>;

/// Whether a text holds nothing that JSON wants escaped: no `"`, no `\\` and
/// no control character below U+0020.
pub open spec fn is_plain(text: Seq<char>) -> bool {
    forall|i: int|
        0 <= i < text.len() ==> (#[trigger] text[i]) != '"' && text[i] != '\\' && text[i] as u32
            >= 0x20
}

/// A text between two double quotes.
pub open spec fn plain_literal(text: Seq<char>) -> Seq<char> {
    seq!['"'] + text + seq!['"']
}

/// What is known of the JSON string literal for a text: where the text is
/// plain, the literal is the text between two double quotes.
pub open spec fn plainly_quoted(text: Seq<char>) -> bool {
    is_plain(text) ==> json_string(text) == plain_literal(text)
}

/// `serde_json::from_str` for a `serde_json::Value`: whether the text
/// parses, and the document that it parses to, depend on the text alone.
#[verifier::external_body]
pub(crate) fn parse_document(text: &str) -> (r: Result<serde_json::Value, serde_json::Error>)
    ensures
        match r {
            Ok(document) => document_of(text@) == Some(string_members(document)),
            Err(_) => document_of(text@) is None,
        },
{
    serde_json::from_str(text)
}

/// `serde_json::Value::get` with a string key, then the `String` variant of
/// what it finds: the member's string where the document is an object that
/// has the key with a string value, `None` in every other case.
#[verifier::external_body]
pub(crate) fn string_member(document: &serde_json::Value, key: &str) -> (r: Option<String>)
    ensures
        match r {
            Some(value) => string_members(*document).contains_key(key@) && string_members(
                *document,
            )[key@] == value@,
            None => !string_members(*document).contains_key(key@),
        },
{
    match document.get(key) {
        Some(serde_json::Value::String(value)) => Some(value.clone()),
        _ => None,
    }
}

/// `serde_json::Value::String` written out by `to_string`: the JSON string
/// literal for the text, a function of the text alone. The writer escapes
/// `"`, `\\` and the characters below U+0020 and no other, so a text without
/// them comes out as it is, between two double quotes.
#[verifier::external_body]
pub(crate) fn quote(text: &str) -> (literal: String)
    ensures
        literal@ == json_string(text@),
        is_plain(text@) ==> literal@ == plain_literal(text@),
{
    serde_json::Value::String(text.to_string()).to_string()
}

/// The member of a document under `key`, if it has one.
pub open spec fn member(members: Map<Seq<char>, Seq<char>>, key: Seq<char>) -> Option<Seq<char>> {
    if members.contains_key(key) {
        Some(members[key])
    } else {
        None
    }
}

} // verus!
