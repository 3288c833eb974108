//! What the library decides about a descriptor fetched over the network. The
//! request itself is made by the caller.

use vstd::prelude::*;
use vstd::string::StringExecFns;
use crate::text::{contains, contains_subseq, lowercase, to_chars};

verus! {

/// The media type asked for in the `accept` header of a descriptor request.
pub open spec fn media_type() -> Seq<char> {
    "application/sorbet"@
}

/// A response body says that the package does not exist when its lowercase
/// form holds the words `not found`.
pub open spec fn says_not_found(body: Seq<char>) -> bool {
    contains_subseq(lowercase(body), "not found"@)
}

/// The value of the `accept` header of a descriptor request.
pub fn accepted_media_type() -> (value: String)
    ensures
        value@ == media_type(),
{
    String::from_str("application/sorbet")
}

/// Whether a fetched body reports a missing package instead of holding a
/// descriptor.
pub fn is_not_found(body: &str) -> (missing: bool)
    ensures
        missing == says_not_found(body@),
{
    let lower = body.to_lowercase();
    contains(to_chars(lower.as_str()).as_slice(), to_chars("not found").as_slice())
}

} // verus!
