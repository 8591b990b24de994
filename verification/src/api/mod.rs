//! The HTTP layer's own logic: request validation, the error and response
//! shapes, and the decisions behind the live progress stream. Serving the
//! requests is left to whoever embeds the library.
pub mod campaigns;
pub mod error;
pub mod findings;
pub mod health;
pub mod runs;
pub mod stream;
pub mod targets;
pub mod util;

use vstd::prelude::*;

verus! {

} // verus!
