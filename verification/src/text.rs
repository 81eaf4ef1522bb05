//! Texts in contracts.

use vstd::prelude::*;

verus! {

/// What a result that holds a string stands for: the string's text, or the
/// error.
pub open spec fn text_result<E>(r: Result<String, E>) -> Result<Seq<char>, E> {
    match r {
        Ok(text) => Ok(text@),
        Err(e) => Err(e),
    }
}

} // verus!
