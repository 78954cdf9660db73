//! Letter case, as Unicode has it.
use vstd::prelude::*;

verus! {

/// A text in lower case.
pub uninterp spec fn lowercase(text: Seq<char>) -> Seq<char>;

/// A text in upper case.
pub uninterp spec fn uppercase(text: Seq<char>) -> Seq<char>;

/// `str::to_lowercase`: the text with every character mapped to its lower-case
/// form by the Unicode tables, which is what the name stands for. Nothing else
/// is claimed of the mapping.
#[verifier::external_body]
pub(crate) fn to_lowercase(text: &str) -> (out: String)
    ensures
        out@ == lowercase(text@),
{
    text.to_lowercase()
}

/// `str::to_uppercase`: the text with every character mapped to its upper-case
/// form by the Unicode tables, which is what the name stands for. Nothing else
/// is claimed of the mapping.
#[verifier::external_body]
pub(crate) fn to_uppercase(text: &str) -> (out: String)
    ensures
        out@ == uppercase(text@),
{
    text.to_uppercase()
}

} // verus!
