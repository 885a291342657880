//! The identifier of a machine: the stored one where it is valid, and a
//! fresh one otherwise.

use crate::text::chars_of;
use vstd::prelude::*;
use vstd::string::StrSliceExecFns;

verus! {

/// Whether a character is white space, as `char::is_whitespace` tells it
/// from the Unicode tables.
pub uninterp spec fn whitespace(c: char) -> bool;

/// Calls `char::is_whitespace`. The answer depends on the character alone;
/// it is given the name [`whitespace`].
#[verifier::external_body]
fn is_whitespace(c: char) -> (yes: bool)
    ensures
        yes == whitespace(c),
{
    c.is_whitespace()
}

/// Whether a text is accepted as a UUID, in any of the forms that the
/// parser knows.
pub uninterp spec fn is_uuid(text: Seq<char>) -> bool;

/// Calls `uuid::Uuid::parse_str` and tells whether it succeeded. The answer
/// depends on the text alone; it is given the name [`is_uuid`].
#[verifier::external_body]
fn parses_as_uuid(text: &str) -> (yes: bool)
    ensures
        yes == is_uuid(text@),
{
    uuid::Uuid::parse_str(text).is_ok()
}

/// Calls `uuid::Uuid::new_v4` and writes the random identifier out with
/// `to_string`. The parser accepts every text that comes out.
#[verifier::external_body]
fn random_uuid() -> (text: String)
    ensures
        is_uuid(text@),
{
    uuid::Uuid::new_v4().to_string()
}

/// The number of white-space characters that `text` begins with.
pub open spec fn leading_whitespace(text: Seq<char>) -> nat
    decreases text.len(),
{
    if text.len() > 0 && whitespace(text[0]) {
        1 + leading_whitespace(text.drop_first())
    } else {
        0
    }
}

/// The number of white-space characters that `text` ends with.
pub open spec fn trailing_whitespace(text: Seq<char>) -> nat
    decreases text.len(),
{
    if text.len() > 0 && whitespace(text.last()) {
        1 + trailing_whitespace(text.drop_last())
    } else {
        0
    }
}

/// `text` without the white space that it begins and ends with.
pub open spec fn trimmed_text(text: Seq<char>) -> Seq<char> {
    let rest = text.skip(leading_whitespace(text) as int);
    rest.take(rest.len() - trailing_whitespace(rest))
}

/// `text` without the white space that it begins and ends with.
pub fn trim(text: &str) -> (out: String)
    ensures
        out@ == trimmed_text(text@),
{
    let chars = chars_of(text);
    let mut start: usize = 0;
    assert(chars@.skip(0) =~= chars@);
    while start < chars.len() && is_whitespace(chars[start])
        invariant
            start <= chars.len(),
            leading_whitespace(chars@) == start + leading_whitespace(chars@.skip(start as int)),
        decreases chars.len() - start,
    {
        assert(chars@.skip(start as int).drop_first() =~= chars@.skip(start + 1));
        start += 1;
    }
    let ghost rest = chars@.skip(start as int);
    let mut end: usize = chars.len();
    assert(rest.take(rest.len() as int) =~= rest);
    while end > start && is_whitespace(chars[end - 1])
        invariant
            start <= end <= chars.len(),
            rest == chars@.skip(start as int),
            trailing_whitespace(rest) == (chars.len() - end) + trailing_whitespace(
                rest.take(end - start),
            ),
        decreases end,
    {
        assert(rest.take(end - start).drop_last() =~= rest.take(end - start - 1));
        end -= 1;
    }
    text.substring_char(start, end).to_owned()
}

/// The identifier that `contents` stores: `contents` without the white
/// space around it, where that is not empty and a UUID.
pub open spec fn stored_in(contents: Seq<char>) -> Option<Seq<char>> {
    let id = trimmed_text(contents);
    if id.len() > 0 && is_uuid(id) {
        Some(id)
    } else {
        None
    }
}

/// The identifier that `contents` stores, if it stores one.
pub fn stored_id(contents: &str) -> (id: Option<String>)
    ensures
        match id {
            Some(id) => stored_in(contents@) == Some(id@),
            None => stored_in(contents@) is None,
        },
{
    let id = trim(contents);
    if !id.as_str().is_empty() && parses_as_uuid(id.as_str()) {
        Some(id)
    } else {
        None
    }
}

/// The identifier of a machine, and whether it has yet to be stored.
#[derive(Clone, Debug, PartialEq, Eq)]
pub struct MachineId {
    pub id: String,
    pub must_store: bool,
}

/// The identifier to use, given what the identifier file holds, if it can be
/// read, and a fresh identifier to fall back on: the stored one where there
/// is one, which is then not stored again, and the fresh one otherwise.
pub fn choose_machine_id(contents: Option<String>, fresh: String) -> (chosen: MachineId)
    ensures
        match contents {
            Some(contents) if stored_in(contents@) is Some => chosen.id@ == stored_in(
                contents@,
            )->0 && !chosen.must_store,
            _ => chosen.id == fresh && chosen.must_store,
        },
{
    match contents {
        Some(contents) => match stored_id(contents.as_str()) {
            Some(id) => MachineId { id, must_store: false },
            None => MachineId { id: fresh, must_store: true },
        },
        None => MachineId { id: fresh, must_store: true },
    }
}

/// The identifier to use, given what the identifier file holds, if it can be
/// read: the stored one where there is one, and otherwise a random UUID that
/// has yet to be stored.
pub fn machine_id(contents: Option<String>) -> (chosen: MachineId)
    ensures
        match contents {
            Some(contents) if stored_in(contents@) is Some => chosen.id@ == stored_in(
                contents@,
            )->0 && !chosen.must_store,
            _ => is_uuid(chosen.id@) && chosen.must_store,
        },
{
    match contents {
        Some(contents) => match stored_id(contents.as_str()) {
            Some(id) => MachineId { id, must_store: false },
            None => MachineId { id: random_uuid(), must_store: true },
        },
        None => MachineId { id: random_uuid(), must_store: true },
    }
}

} // verus!
