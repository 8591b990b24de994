//! Reading the ids that request paths carry.

use vstd::prelude::*;

use crate::api::error::{ApiError, BAD_REQUEST};
use crate::ids::{uuid_from_text, uuid_parse, uuid_text};
use crate::text::push_str;

verus! {

/// Whether `e` is the 400 answer with this code and message.
pub open spec fn is_bad_request(e: ApiError, code: Seq<char>, message: Seq<char>) -> bool {
    &&& e.status == BAD_REQUEST
    &&& e.error@ == code
    &&& e.message@ == message
}

/// The id a path segment names. A text that names no id is refused with
/// 400 `invalid_id`, "`{raw}` is not a valid id"; so is any text whose
/// length no id's text has. The text of any id is read back as that id.
pub fn parse_uuid(raw: &str) -> (r: Result<u128, ApiError>)
    ensures
        match uuid_from_text(raw@) {
            Some(id) => r == Ok::<u128, ApiError>(id),
            None => r is Err && is_bad_request(
                r->Err_0,
                "invalid_id"@,
                "`"@ + raw@ + "` is not a valid id"@,
            ),
        },
        forall|id: u128| raw@ == uuid_text(id) ==> r == Ok::<u128, ApiError>(id),
        !(raw@.len() == 32 || raw@.len() == 36 || raw@.len() == 38 || raw@.len() == 45) ==> r is Err,
{
    match uuid_parse(raw) {
        Some(id) => Ok(id),
        None => {
            let mut m = String::from_str("`");
            push_str(&mut m, raw);
            push_str(&mut m, "` is not a valid id");
            Err(ApiError::bad_request("invalid_id", m))
        },
    }
}

} // verus!
