//! Thread identifiers: 128-bit UUIDs, written in their hyphenated form.

use vstd::prelude::*;
use vstd::arithmetic::power2::pow2;

verus! {

/// The character of a hexadecimal digit `d` (0 to 15), in lower case.
pub open spec fn hex_digit_char(d: int) -> char {
    if d < 10 {
        (d + 48) as char
    } else {
        (d + 87) as char
    }
}

/// The `k`-th hexadecimal digit of `v`, counting from the most significant (0 to 31).
pub open spec fn uuid_nibble(v: u128, k: int) -> int {
    ((v as int) / (pow2((4 * (31 - k)) as nat) as int)) % 16
}

/// Which hexadecimal digit stands at position `p` of the hyphenated text.
pub open spec fn hyphenated_digit_index(p: int) -> int {
    if p < 8 {
        p
    } else if p < 13 {
        p - 1
    } else if p < 18 {
        p - 2
    } else if p < 23 {
        p - 3
    } else {
        p - 4
    }
}

/// Whether position `p` of the hyphenated text holds a hyphen.
pub open spec fn is_hyphen_position(p: int) -> bool {
    p == 8 || p == 13 || p == 18 || p == 23
}

/// The hyphenated lower-case text of a UUID: 32 hexadecimal digits, most
/// significant first, in groups of 8, 4, 4, 4 and 12 joined by `-`.
pub open spec fn uuid_text(v: u128) -> Seq<char> {
    Seq::new(
        36,
        |p: int|
            if is_hyphen_position(p) {
                '-'
            } else {
                hex_digit_char(uuid_nibble(v, hyphenated_digit_index(p)))
            },
    )
}

/// What `uuid::Uuid::parse_str` gives for a text, as a 128-bit value.
pub uninterp spec fn uuid_parsed(text: Seq<char>) -> Option<u128>;

/// Calls `uuid::Uuid::now_v7`, which makes a new time-ordered UUID of version 7.
/// Claimed: the version digit (bits 76 to 79) of the value is 7; nothing else.
/// It panics when the system clock reads before 1970, a fault of the machine
/// that no argument can rule out.
#[verifier::external_body]
fn new_time_ordered_uuid() -> (r: u128)
    ensures
        (r >> 76u128) & 0xfu128 == 7,
{
    uuid::Uuid::now_v7().as_u128()
}

/// Calls `uuid::Uuid::from_u128` and formats the UUID with `to_string`.
/// Claimed: the text is the hyphenated lower-case form of the value, and
/// `Uuid::parse_str` reads that text back as the value.
#[verifier::external_body]
fn uuid_to_text(v: u128) -> (r: String)
    ensures
        r@ == uuid_text(v),
        uuid_parsed(r@) == Some(v),
{
    uuid::Uuid::from_u128(v).to_string()
}

/// Calls `uuid::Uuid::parse_str` and reads the parsed UUID as a 128-bit value.
/// Claimed: the result is the named parse result of the text, and the
/// hyphenated text of a value parses back to that value.
#[verifier::external_body]
fn uuid_from_text(text: &str) -> (r: Option<u128>)
    ensures
        r == uuid_parsed(text@),
        forall|v: u128| text@ == uuid_text(v) ==> r == Some(v),
{
    match uuid::Uuid::parse_str(text) {
        Ok(u) => Some(u.as_u128()),
        Err(_) => None,
    }
}

/// The identifier of a chat thread.
#[derive(Debug, Clone, Copy, PartialEq, Eq, Structural, Hash)]
pub struct ThreadId {
    pub uuid: u128,
}

/// Text that is not the text of a thread identifier.
#[derive(Debug, Clone, PartialEq, Eq)]
pub struct InvalidThreadId {
    pub value: String,
}

impl ThreadId {
    /// A fresh, time-ordered identifier.
    pub fn new() -> (r: ThreadId)
        ensures
            (r.uuid >> 76u128) & 0xfu128 == 7,
    {
        ThreadId { uuid: new_time_ordered_uuid() }
    }

    /// The identifier with the given 128-bit value.
    pub fn from_u128(uuid: u128) -> (r: ThreadId)
        ensures
            r.uuid == uuid,
    {
        ThreadId { uuid }
    }

    /// The hyphenated text of the identifier.
    pub fn to_text(&self) -> (r: String)
        ensures
            r@ == uuid_text(self.uuid),
            uuid_parsed(r@) == Some(self.uuid),
    {
        uuid_to_text(self.uuid)
    }

    /// Reads an identifier from text.
    pub fn parse(text: &str) -> (r: Result<ThreadId, InvalidThreadId>)
        ensures
            match r {
                Ok(t) => uuid_parsed(text@) == Some(t.uuid),
                Err(e) => uuid_parsed(text@) is None && e.value@ == text@,
            },
            forall|v: u128| text@ == uuid_text(v) ==> r == Ok::<ThreadId, InvalidThreadId>(ThreadId { uuid: v }),
    {
        match uuid_from_text(text) {
            Some(uuid) => Ok(ThreadId { uuid }),
            None => Err(InvalidThreadId { value: text.to_owned() }),
        }
    }
}

} // verus!
