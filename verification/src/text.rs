//! Comparison and assembly of text.

use vstd::prelude::*;

verus! {

/// The optional text behind an optional string.
pub open spec fn optional_text(text: Option<String>) -> Option<Seq<char>> {
    match text {
        Some(text) => Some(text@),
        None => None,
    }
}

/// Whether a string holds the given text.
pub fn is_text(string: &String, text: &str) -> (same: bool)
    ensures
        same == (string@ == text@),
{
    *string == text.to_owned()
}

/// A copy of an optional string.
pub fn copy_optional(text: &Option<String>) -> (copy: Option<String>)
    ensures
        optional_text(copy) == optional_text(*text),
{
    match text {
        Some(text) => Some(text.clone()),
        None => None,
    }
}

} // verus!
