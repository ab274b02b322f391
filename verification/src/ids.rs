//! Row identifiers.

use vstd::prelude::*;

use crate::text::or_empty;

verus! {

/// A 128-bit identifier.
#[derive(Debug, Clone, Copy, PartialEq, Eq, Hash, Structural)]
pub struct Uuid {
    pub bits: u128,
}

/// The identifier a text stands for, as `uuid::Uuid::parse_str` reads it.
pub uninterp spec fn uuid_in(text: Seq<char>) -> Option<u128>;

/// The text `uuid::Uuid` prints for an identifier.
pub uninterp spec fn uuid_text(bits: u128) -> Seq<char>;

/// Calls `uuid::Uuid::parse_str`: which texts it accepts, and as what, depends
/// on the text alone.
#[verifier::external_body]
fn parse_uuid(text: &str) -> (bits: Option<u128>)
    ensures
        bits == uuid_in(text@),
{
    uuid::Uuid::parse_str(text).ok().map(|id| id.as_u128())
}

/// Calls `uuid::Uuid::to_string`, which prints the hyphenated form.
///
/// That form is one of those that `uuid::Uuid::parse_str` accepts, so reading
/// it back gives the same identifier.
#[verifier::external_body]
fn print_uuid(bits: u128) -> (text: String)
    ensures
        text@ == uuid_text(bits),
        uuid_in(text@) == Some(bits),
{
    uuid::Uuid::from_u128(bits).to_string()
}

impl Uuid {
    /// The identifier a text stands for, if it stands for one.
    pub fn parse(text: &str) -> (id: Option<Uuid>)
        ensures
            id == (match uuid_in(text@) {
                Some(bits) => Some(Uuid { bits }),
                None => None,
            }),
    {
        match parse_uuid(text) {
            Some(bits) => Some(Uuid { bits }),
            None => None,
        }
    }

    /// The text of an identifier; [`Uuid::parse`] reads it back.
    pub fn text(&self) -> (text: String)
        ensures
            text@ == uuid_text(self.bits),
            uuid_in(text@) == Some(self.bits),
    {
        print_uuid(self.bits)
    }

    /// The identifier whose bits are all zero.
    pub fn nil() -> (id: Uuid)
        ensures
            id == (Uuid { bits: 0 }),
    {
        Uuid { bits: 0 }
    }
}

/// The identifier the platform generated, or the nil one where it generated
/// none or something that is not an identifier.
pub fn new_uuid(generated: Option<String>) -> (id: Uuid)
    ensures
        id.bits == (match uuid_in(or_empty(generated)) {
            Some(bits) => bits,
            None => 0,
        }),
{
    let text = match generated {
        Some(text) => text,
        None => String::new(),
    };
    match Uuid::parse(text.as_str()) {
        Some(id) => id,
        None => Uuid::nil(),
    }
}

} // verus!
