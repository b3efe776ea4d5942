//! The JSON form of a list of strings, as `serde_json` reads and writes it.

use vstd::prelude::*;

verus! {

/// The error of `serde_json`. Nothing is read from it.
#[verifier::external_type_specification]
#[verifier::external_body]
pub struct ExJsonError(serde_json::Error);

/// What `serde_json::from_str::<Vec<String>>` makes of a text: the strings of
/// the array, or `None` where it reports an error.
pub uninterp spec fn json_string_array(text: Seq<char>) -> Option<Seq<Seq<char>>>;

/// What `serde_json::to_vec` writes for a list of strings: the bytes, or
/// `None` where it reports an error.
pub uninterp spec fn string_array_json(list: Seq<Seq<char>>) -> Option<Seq<u8>>;

/// Calls `serde_json::from_str` at the type `Vec<String>`. The contract only
/// gives the outcome its name: the same text always parses the same way.
#[verifier::external_body]
pub(crate) fn parse_string_array(text: &str) -> (r: Result<Vec<String>, serde_json::Error>)
    ensures
        match r {
            Ok(list) => json_string_array(text@) == Some(list.deep_view()),
            Err(_) => json_string_array(text@) is None,
        },
{
    serde_json::from_str::<Vec<String>>(text)
}

/// Calls `serde_json::to_vec` on a `Vec<String>`. The contract only gives the
/// outcome its name: the same list is always written the same way.
#[verifier::external_body]
pub(crate) fn write_string_array(list: &Vec<String>) -> (r: Result<Vec<u8>, serde_json::Error>)
    ensures
        match r {
            Ok(bytes) => string_array_json(list.deep_view()) == Some(bytes@),
            Err(_) => string_array_json(list.deep_view()) is None,
        },
{
    serde_json::to_vec(list)
}

} // verus!
