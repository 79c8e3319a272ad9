//! Outbound HTML sanitization, performed by the ammonia crate.

use vstd::prelude::*;

verus! {

/// What ammonia's default cleaner returns for a document.  The cleaner
/// is built from a fixed default configuration, so the result is a
/// function of the input text alone.
pub uninterp spec fn clean_of(s: Seq<char>) -> Seq<char>;

/// Relies on ammonia::clean: sanitizes a document with the default
/// builder, deterministically from the input text alone.
#[verifier::external_body]
pub(crate) fn sanitize_html(content: &str) -> (r: String)
    ensures
        r@ == clean_of(content@),
{
    ammonia::clean(content)
}

} // verus!
