//! Texts of errors.

use vstd::prelude::*;
use vstd::string::*;

verus! {

/// Whether an operation failed for the given reason.
pub open spec fn fails_with<T>(result: Result<T, String>, reason: Seq<char>) -> bool {
    result is Err && result->Err_0@ == reason
}

/// The raw decoder's reason followed by the system decoder's.
pub open spec fn both_reasons(raw_error: Seq<char>, system_error: Seq<char>) -> Seq<char> {
    raw_error + "; system: "@ + system_error
}

/// Both decoders' reasons, when both failed; the system decoder's alone where the raw decoder gave
/// none.
pub open spec fn joined(raw_error: Seq<char>, system_error: Seq<char>) -> Seq<char> {
    if raw_error.len() == 0 {
        system_error
    } else {
        both_reasons(raw_error, system_error)
    }
}

/// The raw decoder's reason followed by the system decoder's.
pub fn both(raw_error: &str, system_error: &str) -> (text: String)
    ensures
        text@ == both_reasons(raw_error@, system_error@),
{
    let mut text = raw_error.to_owned();
    text.append("; system: ");
    text.append(system_error);
    text
}

/// Both decoders' reasons, when both failed.
pub fn join(raw_error: &str, system_error: &str) -> (text: String)
    ensures
        text@ == joined(raw_error@, system_error@),
{
    if raw_error.is_empty() {
        system_error.to_owned()
    } else {
        both(raw_error, system_error)
    }
}

/// The result of a decoding step, `None` where the decoder panicked: the helper stays up and
/// answers an error.
pub fn guarded<T>(outcome: Option<Result<T, String>>) -> (result: Result<T, String>)
    ensures
        outcome matches Some(given) ==> result == given,
        outcome is None ==> fails_with(result, "decoder panicked"@),
{
    match outcome {
        Some(result) => result,
        None => Err("decoder panicked".to_owned()),
    }
}

} // verus!
