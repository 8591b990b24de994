//! Ids are UUIDs, held as their 128 bits. Their text is the hyphenated,
//! lower-case form (`8-4-4-4-12` hex digits).

use vstd::prelude::*;

verus! {

/// The lower-case hex digit for a value below sixteen.
pub open spec fn hex_digit(n: int) -> char {
    if n < 10 {
        (('0' as int) + n) as char
    } else {
        (('a' as int) + n - 10) as char
    }
}

/// The last `count` hex digits of `v`, most significant first, with
/// leading zeros.
pub open spec fn hex_digits(v: nat, count: nat) -> Seq<char>
    decreases count,
{
    if count == 0 {
        Seq::empty()
    } else {
        hex_digits(v / 16, (count - 1) as nat).push(hex_digit((v % 16) as int))
    }
}

/// The hyphenated text of an id.
pub open spec fn uuid_text(id: u128) -> Seq<char> {
    let h = hex_digits(id as nat, 32);
    h.subrange(0, 8) + "-"@ + h.subrange(8, 12) + "-"@ + h.subrange(12, 16) + "-"@ + h.subrange(
        16,
        20,
    ) + "-"@ + h.subrange(20, 32)
}

/// The id a text names, by the rules of `uuid::Uuid::parse_str` (simple,
/// hyphenated, braced or URN form, hex digits of either case), or `None`.
pub uninterp spec fn uuid_from_text(s: Seq<char>) -> Option<u128>;

/// Reads an id from its text with `uuid::Uuid::parse_str`. What it
/// accepts is named, not written out; the hyphenated lower-case text of an
/// id (the form ids are written in) is read back as that id, and only a
/// text of 32 (simple), 36 (hyphenated), 38 (braced) or 45 (URN)
/// characters, all ASCII, is ever accepted.
#[verifier::external_body]
pub(crate) fn uuid_parse(raw: &str) -> (r: Option<u128>)
    ensures
        r == uuid_from_text(raw@),
        forall|id: u128| raw@ == uuid_text(id) ==> r == Some(id),
        r is Some ==> (raw@.len() == 32 || raw@.len() == 36 || raw@.len() == 38 || raw@.len()
            == 45),
{
    match uuid::Uuid::parse_str(raw) {
        Ok(u) => Some(u.as_u128()),
        Err(_) => None,
    }
}

/// The text of an id, written by `uuid::Uuid`'s `Display`: the hyphenated,
/// lower-case form.
#[verifier::external_body]
pub(crate) fn id_text(id: u128) -> (r: String)
    ensures
        r@ == uuid_text(id),
{
    uuid::Uuid::from_u128(id).to_string()
}

/// A fresh random (version 4) id from `uuid::Uuid::new_v4`. Nothing is
/// stated of which: it comes from the system's random source.
#[verifier::external_body]
pub(crate) fn new_id() -> (r: u128) {
    uuid::Uuid::new_v4().as_u128()
}

} // verus!
