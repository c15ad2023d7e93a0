//! The first, pure step of loading a model description: the file's bytes
//! become its text. Reading the file and deserializing the RON text into
//! the model dictionary (whose values are floating point) happen around it.
use vstd::prelude::*;
use vstd::utf8::{decode_utf8, valid_utf8};

verus! {

/// Why a model file could not be loaded.
#[derive(Debug, Clone, Copy, PartialEq, Eq, Structural)]
pub enum LoadError {
    /// The file is not UTF-8 text; its first `valid_up_to` bytes are.
    NotUtf8 { valid_up_to: usize },
}

/// Calls `String::from_utf8` and, on failure, takes the error's
/// `utf8_error().valid_up_to()`. As std documents them: the call succeeds
/// exactly on valid UTF-8 and then holds the decoded characters; on failure
/// the index is the longest prefix that is valid UTF-8.
#[verifier::external_body]
fn string_from_utf8(bytes: Vec<u8>) -> (r: Result<String, usize>)
    ensures
        match r {
            Ok(s) => valid_utf8(bytes@) && s@ == decode_utf8(bytes@),
            Err(k) => {
                &&& !valid_utf8(bytes@)
                &&& k <= bytes@.len()
                &&& valid_utf8(bytes@.take(k as int))
                &&& forall|j: int| k < j <= bytes@.len() ==> !valid_utf8(#[trigger] bytes@.take(j))
            },
        },
{
    match String::from_utf8(bytes) {
        Ok(s) => Ok(s),
        Err(e) => Err(e.utf8_error().valid_up_to()),
    }
}

/// The text of a model file, from its bytes: the RON description that the
/// deserializer reads, or `NotUtf8` when the bytes are no UTF-8 text.
pub fn load(bytes: Vec<u8>) -> (r: Result<String, LoadError>)
    ensures
        r is Ok <==> valid_utf8(bytes@),
        r matches Ok(s) ==> s@ == decode_utf8(bytes@),
        r matches Err(LoadError::NotUtf8 { valid_up_to }) ==> {
            &&& valid_up_to <= bytes@.len()
            &&& valid_utf8(bytes@.take(valid_up_to as int))
            &&& forall|j: int|
                valid_up_to < j <= bytes@.len() ==> !valid_utf8(#[trigger] bytes@.take(j))
        },
{
    match string_from_utf8(bytes) {
        Ok(text) => Ok(text),
        Err(valid_up_to) => Err(LoadError::NotUtf8 { valid_up_to }),
    }
}

} // verus!
