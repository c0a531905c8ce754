//! Fresh storage identifiers for records.

use crate::text::is_record_id_text;
use vstd::prelude::*;

verus! {

/// Relies on `uuid::Uuid::new_v4` and the `Display` of `uuid::Uuid`: a
/// random identifier with the version nibble set to 4 and the variant bits
/// to `10`, written as hyphenated lower-case hex.
#[verifier::external_body]
pub(crate) fn new_record_id() -> (r: String)
    ensures
        is_record_id_text(r@),
{
    uuid::Uuid::new_v4().to_string()
}

} // verus!
